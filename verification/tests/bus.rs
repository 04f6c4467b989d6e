use smudge_timer::event_bus::EventBus;
use smudge_timer::events::Event;

fn ids_of(plan: &[smudge_timer::event_bus::Delivery]) -> Vec<u32> {
    plan.iter().map(|d| d.id).collect()
}

fn handlers_of(plan: &[smudge_timer::event_bus::Delivery]) -> Vec<u32> {
    plan.iter().map(|d| d.handler).collect()
}

#[test]
fn bus_register_returns_monotonic_unique_ids() {
    let mut bus = EventBus::new();
    let a = bus.register_event("alpha", 10, true);
    let b = bus.register_event("alpha", 11, true);
    let c = bus.register_event("beta", 12, true);
    assert_eq!(a, 0);
    assert_eq!(b, 1);
    assert_eq!(c, 2);
}

#[test]
fn bus_delivery_order_is_registration_order() {
    let mut bus = EventBus::new();
    let a = bus.register_event("button_event", 10, true);
    let b = bus.register_event("button_event", 11, true);
    let c = bus.register_event("button_event", 12, true);
    let plan = bus.send_event(&Event::KeyReleased { key: 5, at: 1000 });
    assert_eq!(ids_of(&plan), vec![a, b, c]);
    assert_eq!(handlers_of(&plan), vec![10, 11, 12]);
}

#[test]
fn bus_paused_subscription_receives_zero_deliveries() {
    let mut bus = EventBus::new();
    let a = bus.register_event("button_event", 10, true);
    let b = bus.register_event("button_event", 11, true);
    bus.pause_event("button_event", a);
    let plan = bus.send_event(&Event::KeyReleased { key: 5, at: 1000 });
    assert_eq!(ids_of(&plan), vec![b]);
}

#[test]
fn bus_resume_restores_delivery_for_subsequent_publishes() {
    let mut bus = EventBus::new();
    let a = bus.register_event("button_event", 10, true);
    bus.pause_event("button_event", a);
    let before = bus.send_event(&Event::KeyReleased { key: 5, at: 1000 });
    assert!(before.is_empty());
    bus.resume_event("button_event", a);
    let after = bus.send_event(&Event::KeyReleased { key: 5, at: 2000 });
    assert_eq!(ids_of(&after), vec![a]);
}

#[test]
fn bus_register_with_auto_resume_false_starts_paused() {
    let mut bus = EventBus::new();
    let a = bus.register_event("timer_event", 10, false);
    let plan = bus.send_event(&Event::Tick { at: 1000 });
    assert!(plan.is_empty());
    bus.resume_event("timer_event", a);
    let plan = bus.send_event(&Event::Tick { at: 1010 });
    assert_eq!(ids_of(&plan), vec![a]);
}

#[test]
fn bus_unregister_removes_and_keeps_position_of_others() {
    let mut bus = EventBus::new();
    let a = bus.register_event("timer_event", 10, true);
    let b = bus.register_event("timer_event", 11, true);
    let c = bus.register_event("timer_event", 12, true);
    bus.unregister_event("timer_event", b);
    let plan = bus.send_event(&Event::Tick { at: 1 });
    assert_eq!(ids_of(&plan), vec![a, c]);
}

#[test]
fn bus_unregistered_id_is_safe_no_op() {
    let mut bus = EventBus::new();
    let a = bus.register_event("timer_event", 10, true);
    bus.unregister_event("timer_event", a);
    // A second unregister, and pause/resume of the dead id, are no-ops.
    bus.unregister_event("timer_event", a);
    bus.pause_event("timer_event", a);
    bus.resume_event("timer_event", a);
    let plan = bus.send_event(&Event::Tick { at: 1 });
    assert!(plan.is_empty());
    // The id is never reused.
    let b = bus.register_event("timer_event", 11, true);
    assert_ne!(a, b);
}

#[test]
fn bus_operations_on_unknown_topic_are_no_ops() {
    let mut bus = EventBus::new();
    bus.pause_event("nowhere", 7);
    bus.resume_event("nowhere", 7);
    bus.unregister_event("nowhere", 7);
    let plan = bus.send_event(&Event::Tick { at: 1 });
    assert!(plan.is_empty());
}

#[test]
fn bus_topics_are_isolated() {
    let mut bus = EventBus::new();
    let a = bus.register_event("button_event", 10, true);
    let t = bus.register_event("timer_event", 20, true);
    bus.pause_event("timer_event", t);
    let keys = bus.send_event(&Event::KeyReleased { key: 1, at: 0 });
    assert_eq!(ids_of(&keys), vec![a]);
    let ticks = bus.send_event(&Event::Tick { at: 0 });
    assert!(ticks.is_empty());
    // Pausing an id on the wrong topic changes nothing.
    bus.pause_event("timer_event", a);
    let keys = bus.send_event(&Event::KeyReleased { key: 1, at: 0 });
    assert_eq!(ids_of(&keys), vec![a]);
}

#[test]
fn bus_event_topics() {
    assert_eq!(Event::KeyReleased { key: 3, at: 9 }.topic(), "button_event");
    assert_eq!(Event::Tick { at: 9 }.topic(), "timer_event");
    assert_eq!(Event::KeyReleased { key: 3, at: 9 }.at(), 9);
    assert_eq!(Event::Tick { at: 4 }.at(), 4);
}
