//! Topic-keyed publish/subscribe registry with per-subscription pause,
//! resume and unregister, and ordered delivery.
//!
//! The bus is the single synchronization point between event producers and
//! the consuming context. It is pure bookkeeping: `send_event` computes the
//! delivery plan — which subscriptions receive the event, in registration
//! order — and the consuming context then routes each delivery to the state
//! machine named by its handler tag. Handlers are identified by plain tags
//! rather than stored callbacks, so dispatch is a closed match instead of a
//! dynamic call.
//!
//! Registry operations never fail: unknown topics or ids make an operation
//! a no-op, and topics are created implicitly on first use.
//!
//! A handler could in principle answer a delivery with a continuation
//! signal; the only signal this system ever uses means "stay
//! registered", and the semantics of any other answer are deliberately
//! left unspecified. The registry therefore keeps every subscription
//! until it is explicitly unregistered, and handlers return their
//! display payloads instead.

use vstd::prelude::*;

use crate::events::Event;

verus! {

/// One live registration on a topic.
///
/// A subscription keeps its position in the topic's sequence for as long as
/// it lives; pausing skips it during delivery without affecting ordering or
/// identity.
#[derive(Clone, Copy, PartialEq, Eq, Structural, Debug)]
pub struct Subscription {
    /// Unique over the bus's lifetime, assigned in increasing order.
    pub id: u32,
    /// Caller-chosen routing tag: tells the consuming context which state
    /// machine handles this subscription's deliveries.
    pub handler: u32,
    /// A paused subscription is skipped by delivery but keeps its place.
    pub paused: bool,
    /// True for every subscription in the registry; unregistering removes
    /// the entry, and its id is never reused.
    pub active: bool,
}

/// One entry of a delivery plan: the subscription that receives the event
/// and the handler tag to route it by.
#[derive(Clone, Copy, PartialEq, Eq, Structural, Debug)]
pub struct Delivery {
    pub id: u32,
    pub handler: u32,
}

struct TopicEntry {
    name: String,
    subs: Vec<Subscription>,
}

/// The topic registry: a mapping from topic name to an insertion-ordered
/// sequence of subscriptions, plus the next id to hand out.
pub struct EventBus {
    topics: Vec<TopicEntry>,
    next_id: u32,
}

/// The subscriptions that an event on this topic is delivered to, in order:
/// every active, unpaused subscription, keeping the registration order.
pub open spec fn delivery_plan(subs: Seq<Subscription>) -> Seq<Delivery>
    decreases subs.len(),
{
    if subs.len() == 0 {
        Seq::empty()
    } else {
        let s = subs.last();
        delivery_plan(subs.drop_last()) + if s.active && !s.paused {
            seq![Delivery { id: s.id, handler: s.handler }]
        } else {
            Seq::empty()
        }
    }
}

/// The sequence after setting the paused flag of the subscription with this
/// id, if present; unchanged otherwise.
pub open spec fn set_paused_seq(subs: Seq<Subscription>, id: u32, p: bool) -> Seq<Subscription> {
    if exists|k: int| 0 <= k < subs.len() && subs[k].id == id {
        let k = choose|k: int| 0 <= k < subs.len() && subs[k].id == id;
        let s = subs[k];
        subs.update(
            k,
            Subscription { id: s.id, handler: s.handler, paused: p, active: s.active },
        )
    } else {
        subs
    }
}

/// The sequence after removing the subscription with this id, if present;
/// unchanged otherwise.
pub open spec fn remove_id(subs: Seq<Subscription>, id: u32) -> Seq<Subscription> {
    if exists|k: int| 0 <= k < subs.len() && subs[k].id == id {
        subs.remove(choose|k: int| 0 <= k < subs.len() && subs[k].id == id)
    } else {
        subs
    }
}

impl EventBus {
    /// The id the next registration will return.
    pub closed spec fn spec_next_id(&self) -> u32 {
        self.next_id
    }

    /// Whether a topic of this name has been created.
    pub closed spec fn has_topic(&self, name: Seq<char>) -> bool {
        exists|i: int| 0 <= i < self.topics@.len() && self.topics@[i].name@ == name
    }

    /// The subscription sequence of the named topic, in registration order;
    /// empty if the topic was never used.
    pub closed spec fn subs_of(&self, name: Seq<char>) -> Seq<Subscription> {
        if self.has_topic(name) {
            let i = choose|i: int| 0 <= i < self.topics@.len() && self.topics@[i].name@ == name;
            self.topics@[i].subs@
        } else {
            Seq::empty()
        }
    }

    /// Each topic name occurs at most once in the registry.
    spec fn names_distinct(&self) -> bool {
        forall|i: int, j: int|
            0 <= i < j < self.topics@.len() ==> self.topics@[i].name@ != self.topics@[j].name@
    }

    /// Registry invariant: topic names are distinct; ids are below the next
    /// id to hand out, strictly increasing within each topic and unique
    /// across topics; every registered subscription is active.
    pub closed spec fn wf(&self) -> bool {
        let ts = self.topics@;
        &&& self.names_distinct()
        &&& forall|i: int, k: int|
            0 <= i < ts.len() && 0 <= k < ts[i].subs@.len() ==> (#[trigger] ts[i].subs@[k]).id
                < self.next_id
        &&& forall|i: int, k1: int, k2: int|
            0 <= i < ts.len() && 0 <= k1 < k2 < ts[i].subs@.len() ==> (#[trigger] ts[i].subs@[k1]).id
                < (#[trigger] ts[i].subs@[k2]).id
        &&& forall|i1: int, k1: int, i2: int, k2: int|
            0 <= i1 < ts.len() && 0 <= k1 < ts[i1].subs@.len() && 0 <= i2 < ts.len() && 0 <= k2
                < ts[i2].subs@.len() && i1 != i2 ==> (#[trigger] ts[i1].subs@[k1]).id
                != (#[trigger] ts[i2].subs@[k2]).id
        &&& forall|i: int, k: int|
            0 <= i < ts.len() && 0 <= k < ts[i].subs@.len() ==> (#[trigger] ts[i].subs@[k]).active
    }

    /// An empty bus: no topics, ids start at zero.
    pub fn new() -> (bus: EventBus)
        ensures
            bus.wf(),
            bus.spec_next_id() == 0,
            forall|n: Seq<char>| !bus.has_topic(n),
            forall|n: Seq<char>| bus.subs_of(n) == Seq::<Subscription>::empty(),
    {
        EventBus { topics: Vec::new(), next_id: 0 }
    }

    /// The unique position of a topic, if it exists.
    fn find_index(&self, topic: &str) -> (r: Option<usize>)
        ensures
            match r {
                Some(i) => i < self.topics@.len() && self.topics@[i as int].name@ == topic@,
                None => forall|i: int|
                    0 <= i < self.topics@.len() ==> self.topics@[i].name@ != topic@,
            },
    {
        let owned: String = topic.to_owned();
        let n = self.topics.len();
        let mut i: usize = 0;
        while i < n
            invariant
                n == self.topics@.len(),
                owned@ == topic@,
                forall|j: int| 0 <= j < i ==> self.topics@[j].name@ != topic@,
            decreases n - i,
        {
            if self.topics[i].name == owned {
                return Some(i);
            }
            i = i + 1;
        }
        None
    }

    /// With distinct names, `subs_of` at a present topic's name is exactly
    /// that topic's subscription sequence.
    proof fn lemma_subs_of_at(&self, i: int)
        requires
            self.names_distinct(),
            0 <= i < self.topics@.len(),
        ensures
            self.has_topic(self.topics@[i].name@),
            self.subs_of(self.topics@[i].name@) == self.topics@[i].subs@,
    {
        let name = self.topics@[i].name@;
        assert(self.has_topic(name));
        let j = choose|j: int| 0 <= j < self.topics@.len() && self.topics@[j].name@ == name;
        if i != j {
            if i < j {
                assert(self.topics@[i].name@ != self.topics@[j].name@);
            } else {
                assert(self.topics@[j].name@ != self.topics@[i].name@);
            }
        }
    }

    /// Allocates a fresh id and appends a subscription at the end of the
    /// topic's sequence, creating the topic on first use. The new
    /// subscription starts active, and paused unless `auto_resume` is set.
    /// The returned id is larger than every id handed out before.
    pub fn register_event(&mut self, topic: &str, handler: u32, auto_resume: bool) -> (id: u32)
        requires
            old(self).wf(),
            old(self).spec_next_id() < u32::MAX,
        ensures
            final(self).wf(),
            id == old(self).spec_next_id(),
            final(self).spec_next_id() == id + 1,
            final(self).subs_of(topic@) == old(self).subs_of(topic@).push(
                Subscription { id, handler, paused: !auto_resume, active: true },
            ),
            forall|n: Seq<char>|
                n != topic@ ==> #[trigger] final(self).subs_of(n) == old(self).subs_of(n),
            forall|n: Seq<char>|
                #[trigger] final(self).has_topic(n) <==> (old(self).has_topic(n) || n == topic@),
            forall|n: Seq<char>, k: int|
                0 <= k < old(self).subs_of(n).len() ==> (#[trigger] old(self).subs_of(n)[k]).id
                    < id,
    {
        let id = self.next_id;
        let sub = Subscription { id, handler, paused: !auto_resume, active: true };
        let ghost old_bus = *self;
        match self.find_index(topic) {
            Some(i) => {
                proof {
                    old_bus.lemma_subs_of_at(i as int);
                }
                let entry = &mut self.topics[i];
                entry.subs.push(sub);
                self.next_id = self.next_id + 1;
                proof {
                    self.lemma_register_post_existing(old_bus, topic@, i as int, sub);
                }
            },
            None => {
                let mut subs: Vec<Subscription> = Vec::new();
                subs.push(sub);
                self.topics.push(TopicEntry { name: topic.to_owned(), subs });
                self.next_id = self.next_id + 1;
                proof {
                    self.lemma_register_post_new(old_bus, topic@, sub);
                }
            },
        }
        id
    }

    /// After appending a subscription to topic `i`, the registry maps
    /// exactly as `register_event` promises.
    proof fn lemma_register_post_existing(
        &self,
        pre: EventBus,
        name: Seq<char>,
        i: int,
        sub: Subscription,
    )
        requires
            pre.wf(),
            pre.next_id < u32::MAX,
            0 <= i < pre.topics@.len(),
            pre.topics@[i].name@ == name,
            sub.id == pre.next_id,
            sub.active,
            self.next_id == pre.next_id + 1,
            self.topics@.len() == pre.topics@.len(),
            self.topics@[i].name@ == name,
            self.topics@[i].subs@ == pre.topics@[i].subs@.push(sub),
            forall|j: int|
                0 <= j < pre.topics@.len() && j != i ==> self.topics@[j] == pre.topics@[j],
        ensures
            self.wf(),
            self.subs_of(name) == pre.subs_of(name).push(sub),
            forall|n: Seq<char>| n != name ==> #[trigger] self.subs_of(n) == pre.subs_of(n),
            forall|n: Seq<char>| #[trigger] self.has_topic(n) <==> (pre.has_topic(n) || n == name),
    {
        assert forall|j: int| 0 <= j < self.topics@.len() implies self.topics@[j].name@
            == pre.topics@[j].name@ by {}
        assert(self.wf()) by {
            assert forall|p: int, k: int|
                0 <= p < self.topics@.len() && 0 <= k < self.topics@[p].subs@.len() implies (
            #[trigger] self.topics@[p].subs@[k]).id < self.next_id && self.topics@[p].subs@[k].active by {
                if p == i && k == self.topics@[i].subs@.len() - 1 {
                } else {
                    assert(self.topics@[p].subs@[k] == pre.topics@[p].subs@[k]);
                }
            }
        }
        pre.lemma_subs_of_at(i);
        self.lemma_subs_of_at(i);
        assert forall|n: Seq<char>| n != name implies #[trigger] self.subs_of(n) == pre.subs_of(
            n,
        ) by {
            if pre.has_topic(n) {
                let j = choose|j: int|
                    0 <= j < pre.topics@.len() && pre.topics@[j].name@ == n;
                pre.lemma_subs_of_at(j);
                self.lemma_subs_of_at(j);
                assert(self.topics@[j] == pre.topics@[j]);
            } else {
                assert(!self.has_topic(n));
            }
        }
        assert forall|n: Seq<char>| #[trigger]
            self.has_topic(n) <==> (pre.has_topic(n) || n == name) by {
            if self.has_topic(n) {
                let j = choose|j: int|
                    0 <= j < self.topics@.len() && self.topics@[j].name@ == n;
                assert(pre.topics@[j].name@ == n);
            }
            if pre.has_topic(n) {
                let j = choose|j: int|
                    0 <= j < pre.topics@.len() && pre.topics@[j].name@ == n;
                assert(self.topics@[j].name@ == n);
            }
        }
    }

    /// After pushing a brand-new topic holding one subscription, the
    /// registry maps exactly as `register_event` promises.
    proof fn lemma_register_post_new(&self, pre: EventBus, name: Seq<char>, sub: Subscription)
        requires
            pre.wf(),
            pre.next_id < u32::MAX,
            forall|j: int| 0 <= j < pre.topics@.len() ==> pre.topics@[j].name@ != name,
            sub.id == pre.next_id,
            sub.active,
            self.next_id == pre.next_id + 1,
            self.topics@.len() == pre.topics@.len() + 1,
            self.topics@.last().name@ == name,
            self.topics@.last().subs@ == seq![sub],
            forall|j: int| 0 <= j < pre.topics@.len() ==> self.topics@[j] == pre.topics@[j],
        ensures
            self.wf(),
            self.subs_of(name) == pre.subs_of(name).push(sub),
            forall|n: Seq<char>| n != name ==> #[trigger] self.subs_of(n) == pre.subs_of(n),
            forall|n: Seq<char>| #[trigger] self.has_topic(n) <==> (pre.has_topic(n) || n == name),
    {
        let last = self.topics@.len() - 1;
        assert(self.wf()) by {
            assert forall|p: int, k: int|
                0 <= p < self.topics@.len() && 0 <= k < self.topics@[p].subs@.len() implies (
            #[trigger] self.topics@[p].subs@[k]).id < self.next_id && self.topics@[p].subs@[k].active by {
                if p == last {
                    assert(self.topics@[p].subs@ == seq![sub]);
                    assert(self.topics@[p].subs@[k] == sub);
                } else {
                    assert(self.topics@[p].subs@[k] == pre.topics@[p].subs@[k]);
                }
            }
            assert forall|p: int, k1: int, k2: int|
                0 <= p < self.topics@.len() && 0 <= k1 < k2 < self.topics@[p].subs@.len() implies (
            #[trigger] self.topics@[p].subs@[k1]).id < (#[trigger] self.topics@[p].subs@[k2]).id by {
                if p == last {
                    assert(self.topics@[p].subs@.len() == 1);
                } else {
                    assert(self.topics@[p].subs@[k1] == pre.topics@[p].subs@[k1]);
                    assert(self.topics@[p].subs@[k2] == pre.topics@[p].subs@[k2]);
                }
            }
        }
        self.lemma_subs_of_at(last);
        assert(!pre.has_topic(name));
        assert(pre.subs_of(name) == Seq::<Subscription>::empty());
        assert(self.subs_of(name) == seq![sub]);
        assert(pre.subs_of(name).push(sub) =~= seq![sub]);
        assert forall|n: Seq<char>| n != name implies #[trigger] self.subs_of(n) == pre.subs_of(
            n,
        ) by {
            if pre.has_topic(n) {
                let j = choose|j: int|
                    0 <= j < pre.topics@.len() && pre.topics@[j].name@ == n;
                pre.lemma_subs_of_at(j);
                self.lemma_subs_of_at(j);
                assert(self.topics@[j] == pre.topics@[j]);
            } else {
                if self.has_topic(n) {
                    let j = choose|j: int|
                        0 <= j < self.topics@.len() && self.topics@[j].name@ == n;
                    assert(j == last);
                }
                assert(!self.has_topic(n));
            }
        }
        assert forall|n: Seq<char>| #[trigger]
            self.has_topic(n) <==> (pre.has_topic(n) || n == name) by {
            if self.has_topic(n) && n != name {
                let j = choose|j: int|
                    0 <= j < self.topics@.len() && self.topics@[j].name@ == n;
                assert(j != last);
                assert(pre.topics@[j].name@ == n);
            }
            if pre.has_topic(n) {
                let j = choose|j: int|
                    0 <= j < pre.topics@.len() && pre.topics@[j].name@ == n;
                assert(self.topics@[j].name@ == n);
            }
        }
    }

    /// When only topic `i`'s subscription sequence changed, every other
    /// topic reads unchanged and the topic set is the same.
    proof fn lemma_same_shape(&self, pre: EventBus, i: int)
        requires
            pre.names_distinct(),
            0 <= i < pre.topics@.len(),
            self.topics@.len() == pre.topics@.len(),
            self.topics@[i].name@ == pre.topics@[i].name@,
            forall|j: int|
                0 <= j < pre.topics@.len() && j != i ==> self.topics@[j] == pre.topics@[j],
        ensures
            self.names_distinct(),
            self.subs_of(pre.topics@[i].name@) == self.topics@[i].subs@,
            pre.subs_of(pre.topics@[i].name@) == pre.topics@[i].subs@,
            forall|n: Seq<char>|
                n != pre.topics@[i].name@ ==> #[trigger] self.subs_of(n) == pre.subs_of(n),
            forall|n: Seq<char>| #[trigger] self.has_topic(n) <==> pre.has_topic(n),
    {
        assert forall|j: int| 0 <= j < self.topics@.len() implies self.topics@[j].name@
            == pre.topics@[j].name@ by {}
        let name = pre.topics@[i].name@;
        self.lemma_subs_of_at(i);
        pre.lemma_subs_of_at(i);
        assert forall|n: Seq<char>| #[trigger] self.has_topic(n) <==> pre.has_topic(n) by {
            if self.has_topic(n) {
                let j = choose|j: int|
                    0 <= j < self.topics@.len() && self.topics@[j].name@ == n;
                assert(pre.topics@[j].name@ == n);
            }
            if pre.has_topic(n) {
                let j = choose|j: int|
                    0 <= j < pre.topics@.len() && pre.topics@[j].name@ == n;
                assert(self.topics@[j].name@ == n);
            }
        }
        assert forall|n: Seq<char>| n != name implies #[trigger] self.subs_of(n) == pre.subs_of(
            n,
        ) by {
            if pre.has_topic(n) {
                let j = choose|j: int|
                    0 <= j < pre.topics@.len() && pre.topics@[j].name@ == n;
                assert(j != i);
                pre.lemma_subs_of_at(j);
                self.lemma_subs_of_at(j);
                assert(self.topics@[j] == pre.topics@[j]);
            }
        }
    }

    /// When topic `i`'s subscriptions keep their ids and active flags
    /// pointwise, the registry invariant carries over.
    proof fn lemma_wf_after_pointwise_change(&self, pre: EventBus, i: int)
        requires
            pre.wf(),
            0 <= i < pre.topics@.len(),
            self.next_id == pre.next_id,
            self.topics@.len() == pre.topics@.len(),
            self.topics@[i].name@ == pre.topics@[i].name@,
            self.topics@[i].subs@.len() == pre.topics@[i].subs@.len(),
            forall|k: int|
                0 <= k < pre.topics@[i].subs@.len() ==> (#[trigger] self.topics@[i].subs@[k]).id
                    == pre.topics@[i].subs@[k].id && self.topics@[i].subs@[k].active
                    == pre.topics@[i].subs@[k].active,
            forall|j: int|
                0 <= j < pre.topics@.len() && j != i ==> self.topics@[j] == pre.topics@[j],
        ensures
            self.wf(),
    {
        let ts = self.topics@;
        let ps = pre.topics@;
        assert forall|p: int, k: int|
            0 <= p < ts.len() && 0 <= k < ts[p].subs@.len() implies (#[trigger] ts[p].subs@[k]).id
            == ps[p].subs@[k].id && ts[p].subs@[k].active by {
            if p != i {
                assert(ts[p] == ps[p]);
            }
        }
    }

    /// Two positions in one topic of a well-formed bus never share an id.
    proof fn lemma_topic_ids_unique(&self, i: int, k1: int, k2: int)
        requires
            self.wf(),
            0 <= i < self.topics@.len(),
            0 <= k1 < self.topics@[i].subs@.len(),
            0 <= k2 < self.topics@[i].subs@.len(),
            k1 != k2,
        ensures
            self.topics@[i].subs@[k1].id != self.topics@[i].subs@[k2].id,
    {
        if k1 < k2 {
            assert(self.topics@[i].subs@[k1].id < self.topics@[i].subs@[k2].id);
        } else {
            assert(self.topics@[i].subs@[k2].id < self.topics@[i].subs@[k1].id);
        }
    }

    /// The unique position of the subscription with this id in topic `i`,
    /// if it is present.
    fn find_sub(&self, i: usize, id: u32) -> (r: Option<usize>)
        requires
            i < self.topics@.len(),
        ensures
            match r {
                Some(k) => k < self.topics@[i as int].subs@.len()
                    && self.topics@[i as int].subs@[k as int].id == id,
                None => forall|k: int|
                    0 <= k < self.topics@[i as int].subs@.len()
                        ==> (#[trigger] self.topics@[i as int].subs@[k]).id != id,
            },
    {
        let n = self.topics[i].subs.len();
        let mut k: usize = 0;
        while k < n
            invariant
                i < self.topics@.len(),
                n == self.topics@[i as int].subs@.len(),
                forall|j: int|
                    0 <= j < k ==> (#[trigger] self.topics@[i as int].subs@[j]).id != id,
            decreases n - k,
        {
            if self.topics[i].subs[k].id == id {
                return Some(k);
            }
            k = k + 1;
        }
        None
    }

    /// Sets or clears the paused flag of one subscription; the shared body
    /// of `pause_event` and `resume_event`. Unknown topics and ids are
    /// no-ops.
    fn set_paused_impl(&mut self, topic: &str, id: u32, p: bool)
        requires
            old(self).wf(),
        ensures
            final(self).wf(),
            final(self).spec_next_id() == old(self).spec_next_id(),
            final(self).subs_of(topic@) == set_paused_seq(old(self).subs_of(topic@), id, p),
            forall|n: Seq<char>|
                n != topic@ ==> #[trigger] final(self).subs_of(n) == old(self).subs_of(n),
            forall|n: Seq<char>| #[trigger] final(self).has_topic(n) <==> old(self).has_topic(n),
    {
        let ghost pre = *self;
        match self.find_index(topic) {
            Some(i) => {
                proof {
                    pre.lemma_subs_of_at(i as int);
                }
                match self.find_sub(i, id) {
                    Some(k) => {
                        let s = self.topics[i].subs[k];
                        self.topics[i].subs[k] = Subscription {
                            id: s.id,
                            handler: s.handler,
                            paused: p,
                            active: s.active,
                        };
                        proof {
                            let ghost subs = pre.topics@[i as int].subs@;
                            self.lemma_same_shape(pre, i as int);
                            self.lemma_wf_after_pointwise_change(pre, i as int);
                            assert(exists|k2: int|
                                0 <= k2 < subs.len() && subs[k2].id == id);
                            let k2 = choose|k2: int|
                                0 <= k2 < subs.len() && subs[k2].id == id;
                            if k2 != k as int {
                                pre.lemma_topic_ids_unique(i as int, k as int, k2);
                            }
                            assert(k2 == k as int);
                            assert(final(self).subs_of(topic@) == set_paused_seq(
                                pre.subs_of(topic@),
                                id,
                                p,
                            ));
                        }
                    },
                    None => {
                        proof {
                            let ghost subs = pre.topics@[i as int].subs@;
                            assert(!exists|k2: int|
                                0 <= k2 < subs.len() && subs[k2].id == id);
                            assert(set_paused_seq(subs, id, p) == subs);
                        }
                    },
                }
            },
            None => {
                proof {
                    assert(!pre.has_topic(topic@));
                    assert(pre.subs_of(topic@) == Seq::<Subscription>::empty());
                    assert(set_paused_seq(Seq::<Subscription>::empty(), id, p)
                        == Seq::<Subscription>::empty());
                }
            },
        }
    }

    /// Pauses the subscription with this id on the named topic: it keeps
    /// its position but is skipped by delivery until resumed. Unknown
    /// topics and ids are no-ops.
    pub fn pause_event(&mut self, topic: &str, id: u32)
        requires
            old(self).wf(),
        ensures
            final(self).wf(),
            final(self).spec_next_id() == old(self).spec_next_id(),
            final(self).subs_of(topic@) == set_paused_seq(old(self).subs_of(topic@), id, true),
            forall|n: Seq<char>|
                n != topic@ ==> #[trigger] final(self).subs_of(n) == old(self).subs_of(n),
            forall|n: Seq<char>| #[trigger] final(self).has_topic(n) <==> old(self).has_topic(n),
    {
        self.set_paused_impl(topic, id, true)
    }

    /// Resumes the subscription with this id on the named topic: delivery
    /// reaches it again for events published from now on, not
    /// retroactively. Unknown topics and ids are no-ops.
    pub fn resume_event(&mut self, topic: &str, id: u32)
        requires
            old(self).wf(),
        ensures
            final(self).wf(),
            final(self).spec_next_id() == old(self).spec_next_id(),
            final(self).subs_of(topic@) == set_paused_seq(old(self).subs_of(topic@), id, false),
            forall|n: Seq<char>|
                n != topic@ ==> #[trigger] final(self).subs_of(n) == old(self).subs_of(n),
            forall|n: Seq<char>| #[trigger] final(self).has_topic(n) <==> old(self).has_topic(n),
    {
        self.set_paused_impl(topic, id, false)
    }

    /// Removes the subscription with this id from the named topic. The id
    /// is never reused. Unregistering twice, or with an unknown topic or
    /// id, is a no-op, not an error.
    pub fn unregister_event(&mut self, topic: &str, id: u32)
        requires
            old(self).wf(),
        ensures
            final(self).wf(),
            final(self).spec_next_id() == old(self).spec_next_id(),
            final(self).subs_of(topic@) == remove_id(old(self).subs_of(topic@), id),
            forall|n: Seq<char>|
                n != topic@ ==> #[trigger] final(self).subs_of(n) == old(self).subs_of(n),
            forall|n: Seq<char>| #[trigger] final(self).has_topic(n) <==> old(self).has_topic(n),
    {
        let ghost pre = *self;
        match self.find_index(topic) {
            Some(i) => {
                proof {
                    pre.lemma_subs_of_at(i as int);
                }
                match self.find_sub(i, id) {
                    Some(k) => {
                        self.topics[i].subs.remove(k);
                        proof {
                            let ghost subs = pre.topics@[i as int].subs@;
                            self.lemma_same_shape(pre, i as int);
                            assert(exists|k2: int|
                                0 <= k2 < subs.len() && subs[k2].id == id);
                            let k2 = choose|k2: int|
                                0 <= k2 < subs.len() && subs[k2].id == id;
                            if k2 != k as int {
                                pre.lemma_topic_ids_unique(i as int, k as int, k2);
                            }
                            assert(k2 == k as int);
                            assert(final(self).subs_of(topic@) == remove_id(
                                pre.subs_of(topic@),
                                id,
                            ));
                            self.lemma_wf_after_remove(pre, i as int, k as int);
                        }
                    },
                    None => {
                        proof {
                            let ghost subs = pre.topics@[i as int].subs@;
                            assert(!exists|k2: int|
                                0 <= k2 < subs.len() && subs[k2].id == id);
                            assert(remove_id(subs, id) == subs);
                        }
                    },
                }
            },
            None => {
                proof {
                    assert(!pre.has_topic(topic@));
                    assert(pre.subs_of(topic@) == Seq::<Subscription>::empty());
                    assert(remove_id(Seq::<Subscription>::empty(), id)
                        == Seq::<Subscription>::empty());
                }
            },
        }
    }

    /// Removing one subscription from a topic preserves the registry
    /// invariant.
    proof fn lemma_wf_after_remove(&self, pre: EventBus, i: int, k: int)
        requires
            pre.wf(),
            0 <= i < pre.topics@.len(),
            0 <= k < pre.topics@[i].subs@.len(),
            self.next_id == pre.next_id,
            self.topics@.len() == pre.topics@.len(),
            self.topics@[i].name@ == pre.topics@[i].name@,
            self.topics@[i].subs@ == pre.topics@[i].subs@.remove(k),
            forall|j: int|
                0 <= j < pre.topics@.len() && j != i ==> self.topics@[j] == pre.topics@[j],
        ensures
            self.wf(),
    {
        let ts = self.topics@;
        let ps = pre.topics@;
        ps[i].subs@.remove_ensures(k);
        assert forall|p: int, k2: int|
            0 <= p < ts.len() && 0 <= k2 < ts[p].subs@.len() implies (#[trigger] ts[p].subs@[k2]).id
            < self.next_id && ts[p].subs@[k2].active by {
            if p == i {
                if k2 < k {
                    assert(ts[p].subs@[k2] == ps[p].subs@[k2]);
                } else {
                    assert(ts[p].subs@[k2] == ps[p].subs@[k2 + 1]);
                }
            } else {
                assert(ts[p] == ps[p]);
            }
        }
        assert forall|p: int, k1: int, k2: int|
            0 <= p < ts.len() && 0 <= k1 < k2 < ts[p].subs@.len() implies (
        #[trigger] ts[p].subs@[k1]).id < (#[trigger] ts[p].subs@[k2]).id by {
            if p == i {
                let j1: int = if k1 < k { k1 } else { k1 + 1 };
                let j2: int = if k2 < k { k2 } else { k2 + 1 };
                assert(ts[p].subs@[k1] == ps[p].subs@[j1]);
                assert(ts[p].subs@[k2] == ps[p].subs@[j2]);
                assert(ps[p].subs@[j1].id < ps[p].subs@[j2].id);
            } else {
                assert(ts[p] == ps[p]);
            }
        }
        assert forall|i1: int, k1: int, i2: int, k2: int|
            0 <= i1 < ts.len() && 0 <= k1 < ts[i1].subs@.len() && 0 <= i2 < ts.len() && 0 <= k2
                < ts[i2].subs@.len() && i1 != i2 implies (#[trigger] ts[i1].subs@[k1]).id != (
        #[trigger] ts[i2].subs@[k2]).id by {
            let j1: int = if i1 == i && k1 >= k { k1 + 1 } else { k1 };
            let j2: int = if i2 == i && k2 >= k { k2 + 1 } else { k2 };
            if i1 != i {
                assert(ts[i1] == ps[i1]);
            }
            if i2 != i {
                assert(ts[i2] == ps[i2]);
            }
            assert(ts[i1].subs@[k1] == ps[i1].subs@[j1]);
            assert(ts[i2].subs@[k2] == ps[i2].subs@[j2]);
            assert(ps[i1].subs@[j1].id != ps[i2].subs@[j2].id);
        }
    }

    /// Computes the delivery plan for an event: every active, unpaused
    /// subscription of the event's topic, in registration order. This is
    /// the publish operation seen from the consuming context, which then
    /// routes each delivery by its handler tag.
    pub fn send_event(&self, event: &Event) -> (plan: Vec<Delivery>)
        requires
            self.wf(),
        ensures
            plan@ == delivery_plan(self.subs_of(event.spec_topic())),
    {
        let topic = event.topic();
        let mut plan: Vec<Delivery> = Vec::new();
        match self.find_index(topic) {
            Some(i) => {
                proof {
                    self.lemma_subs_of_at(i as int);
                }
                let ghost subs = self.topics@[i as int].subs@;
                let n = self.topics[i].subs.len();
                let mut k: usize = 0;
                while k < n
                    invariant
                        i < self.topics@.len(),
                        n == subs.len(),
                        subs == self.topics@[i as int].subs@,
                        plan@ == delivery_plan(subs.take(k as int)),
                        k <= n,
                    decreases n - k,
                {
                    let s = self.topics[i].subs[k];
                    if s.active && !s.paused {
                        plan.push(Delivery { id: s.id, handler: s.handler });
                    }
                    proof {
                        assert(subs.take(k + 1).drop_last() =~= subs.take(k as int));
                        assert(subs.take(k + 1).last() == subs[k as int]);
                    }
                    k = k + 1;
                }
                proof {
                    assert(subs.take(n as int) =~= subs);
                }
            },
            None => {
                proof {
                    assert(!self.has_topic(topic@));
                    assert(self.subs_of(topic@) == Seq::<Subscription>::empty());
                }
            },
        }
        plan
    }

    /// Law: ids are unique — two distinct positions in the registry, on the
    /// same topic or on different ones, never carry the same id. Together
    /// with `register_event`'s postcondition (the returned id equals the
    /// old next id, which then increases), ids are also monotonically
    /// increasing over the bus's lifetime.
    pub proof fn lemma_registry_ids_unique(
        &self,
        n1: Seq<char>,
        k1: int,
        n2: Seq<char>,
        k2: int,
    )
        requires
            self.wf(),
            0 <= k1 < self.subs_of(n1).len(),
            0 <= k2 < self.subs_of(n2).len(),
            n1 != n2 || k1 != k2,
        ensures
            self.subs_of(n1)[k1].id != self.subs_of(n2)[k2].id,
    {
        assert(self.has_topic(n1));
        assert(self.has_topic(n2));
        let i1 = choose|i: int| 0 <= i < self.topics@.len() && self.topics@[i].name@ == n1;
        let i2 = choose|i: int| 0 <= i < self.topics@.len() && self.topics@[i].name@ == n2;
        if n1 == n2 {
            assert(i1 == i2);
            self.lemma_topic_ids_unique(i1, k1, k2);
        } else {
            assert(i1 != i2);
        }
    }

    /// Law: every id in the registry is below the next id to hand out, so
    /// a freshly returned id never collides with a live one.
    pub proof fn lemma_ids_below_next_id(&self, n: Seq<char>, k: int)
        requires
            self.wf(),
            0 <= k < self.subs_of(n).len(),
        ensures
            self.subs_of(n)[k].id < self.spec_next_id(),
    {
        assert(self.has_topic(n));
    }

    /// Law: the subscription order a plan is computed from is the
    /// registration order — `register_event` appends at the end, and ids
    /// increase with every registration, so position order and id order
    /// coincide in a well-formed bus.
    pub proof fn lemma_topic_order_is_id_order(&self, n: Seq<char>, k1: int, k2: int)
        requires
            self.wf(),
            0 <= k1 < k2 < self.subs_of(n).len(),
        ensures
            self.subs_of(n)[k1].id < self.subs_of(n)[k2].id,
    {
        assert(self.has_topic(n));
    }
}

/// The sequence after removing each of `ids` in turn, first id first.
pub open spec fn remove_ids_seq(subs: Seq<Subscription>, ids: Seq<u32>) -> Seq<Subscription>
    decreases ids.len(),
{
    if ids.len() == 0 {
        subs
    } else {
        remove_ids_seq(remove_id(subs, ids.first()), ids.drop_first())
    }
}

/// Removing one more id continues a removal sequence.
pub proof fn lemma_remove_ids_seq_snoc(subs: Seq<Subscription>, ids: Seq<u32>, id: u32)
    ensures
        remove_ids_seq(subs, ids.push(id)) == remove_id(remove_ids_seq(subs, ids), id),
    decreases ids.len(),
{
    let snoc = ids.push(id);
    if ids.len() == 0 {
        assert(snoc.first() == id);
        assert(snoc.drop_first() =~= Seq::<u32>::empty());
        assert(remove_ids_seq(subs, snoc) == remove_ids_seq(
            remove_id(subs, id),
            Seq::<u32>::empty(),
        ));
        assert(remove_ids_seq(remove_id(subs, id), Seq::<u32>::empty()) == remove_id(subs, id));
        assert(remove_ids_seq(subs, ids) == subs);
    } else {
        assert(snoc.first() == ids.first());
        assert(snoc.drop_first() =~= ids.drop_first().push(id));
        let y = remove_id(subs, ids.first());
        lemma_remove_ids_seq_snoc(y, ids.drop_first(), id);
        assert(remove_ids_seq(subs, snoc) == remove_ids_seq(y, ids.drop_first().push(id)));
        assert(remove_ids_seq(subs, ids) == remove_ids_seq(y, ids.drop_first()));
    }
}

/// Whether a delivery plan names this subscription id.
pub fn plan_contains(plan: &Vec<Delivery>, id: u32) -> (r: bool)
    ensures
        r == exists|j: int| 0 <= j < plan@.len() && (#[trigger] plan@[j]).id == id,
{
    let n = plan.len();
    let mut j: usize = 0;
    while j < n
        invariant
            n == plan@.len(),
            forall|k: int| 0 <= k < j ==> (#[trigger] plan@[k]).id != id,
        decreases n - j,
    {
        if plan[j].id == id {
            return true;
        }
        j = j + 1;
    }
    false
}

/// Every delivery in a plan originates in an active, unpaused subscription
/// of the sequence it was computed from, with the same id and handler tag.
pub proof fn lemma_plan_entry_source(subs: Seq<Subscription>, j: int)
    requires
        0 <= j < delivery_plan(subs).len(),
    ensures
        exists|k: int|
            0 <= k < subs.len() && (#[trigger] subs[k]).active && !subs[k].paused && subs[k].id
                == delivery_plan(subs)[j].id && subs[k].handler == delivery_plan(subs)[j].handler,
    decreases subs.len(),
{
    let plan = delivery_plan(subs);
    let rest = delivery_plan(subs.drop_last());
    if j < rest.len() {
        lemma_plan_entry_source(subs.drop_last(), j);
        let k = choose|k: int|
            0 <= k < subs.drop_last().len() && (#[trigger] subs.drop_last()[k]).active
                && !subs.drop_last()[k].paused && subs.drop_last()[k].id == rest[j].id
                && subs.drop_last()[k].handler == rest[j].handler;
        assert(subs[k] == subs.drop_last()[k]);
        assert(plan[j] == rest[j]);
    } else {
        let k = subs.len() - 1;
        assert(subs[k].active && !subs[k].paused);
        assert(plan[j].id == subs[k].id && plan[j].handler == subs[k].handler);
    }
}

/// An active, unpaused subscription is delivered to: the plan holds an
/// entry with its id and handler tag.
pub proof fn lemma_live_subscription_delivered(subs: Seq<Subscription>, k: int)
    requires
        0 <= k < subs.len(),
        subs[k].active,
        !subs[k].paused,
    ensures
        exists|j: int|
            0 <= j < delivery_plan(subs).len() && (#[trigger] delivery_plan(subs)[j]).id
                == subs[k].id && delivery_plan(subs)[j].handler == subs[k].handler,
    decreases subs.len(),
{
    let plan = delivery_plan(subs);
    let rest = delivery_plan(subs.drop_last());
    if k == subs.len() - 1 {
        assert(plan[plan.len() - 1].id == subs[k].id && plan[plan.len() - 1].handler
            == subs[k].handler);
    } else {
        assert(subs.drop_last()[k] == subs[k]);
        lemma_live_subscription_delivered(subs.drop_last(), k);
        let j = choose|j: int|
            0 <= j < rest.len() && (#[trigger] rest[j]).id == subs[k].id && rest[j].handler
                == subs[k].handler;
        assert(plan[j] == rest[j]);
    }
}

/// Law: a paused subscription receives zero deliveries. If every
/// subscription carrying an id is paused, no delivery of the plan names
/// that id.
pub proof fn lemma_paused_subscription_not_delivered(subs: Seq<Subscription>, id: u32)
    requires
        forall|k: int| 0 <= k < subs.len() && (#[trigger] subs[k]).id == id ==> subs[k].paused,
    ensures
        forall|j: int|
            0 <= j < delivery_plan(subs).len() ==> (#[trigger] delivery_plan(subs)[j]).id != id,
{
    assert forall|j: int|
        0 <= j < delivery_plan(subs).len() implies (#[trigger] delivery_plan(subs)[j]).id
        != id by {
        lemma_plan_entry_source(subs, j);
    }
}

/// Law: after `pause_event`, publishing delivers nothing to the paused id
/// (ids are unique in any well-formed bus, as `lemma_registry_ids_unique`
/// shows).
pub proof fn lemma_pause_silences_delivery(subs: Seq<Subscription>, id: u32)
    requires
        forall|k1: int, k2: int|
            0 <= k1 < k2 < subs.len() ==> (#[trigger] subs[k1]).id != (#[trigger] subs[k2]).id,
    ensures
        forall|j: int|
            0 <= j < delivery_plan(set_paused_seq(subs, id, true)).len() ==> (
            #[trigger] delivery_plan(set_paused_seq(subs, id, true))[j]).id != id,
{
    let subs2 = set_paused_seq(subs, id, true);
    assert forall|k: int|
        0 <= k < subs2.len() && (#[trigger] subs2[k]).id == id implies subs2[k].paused by {
        let kc = choose|kc: int| 0 <= kc < subs.len() && subs[kc].id == id;
        if k != kc {
            assert(subs2[k] == subs[k]);
        }
    }
    lemma_paused_subscription_not_delivered(subs2, id);
}

/// Law: `resume_event` restores delivery for subsequent publishes — after
/// resuming an id that is registered and active, the next plan holds a
/// delivery for it. Earlier plans are unaffected, since a plan is a pure
/// function of the registry state it was computed from.
pub proof fn lemma_resume_restores_delivery(subs: Seq<Subscription>, id: u32)
    requires
        forall|k1: int, k2: int|
            0 <= k1 < k2 < subs.len() ==> (#[trigger] subs[k1]).id != (#[trigger] subs[k2]).id,
        exists|k: int| 0 <= k < subs.len() && (#[trigger] subs[k]).id == id && subs[k].active,
    ensures
        exists|j: int|
            0 <= j < delivery_plan(set_paused_seq(subs, id, false)).len() && (
            #[trigger] delivery_plan(set_paused_seq(subs, id, false))[j]).id == id,
{
    let subs2 = set_paused_seq(subs, id, false);
    let k = choose|k: int| 0 <= k < subs.len() && (#[trigger] subs[k]).id == id && subs[k].active;
    let kc = choose|kc: int| 0 <= kc < subs.len() && subs[kc].id == id;
    assert(kc == k);
    assert(subs2[k].id == id && subs2[k].active && !subs2[k].paused);
    lemma_live_subscription_delivered(subs2, k);
}

/// Law: once an id is unregistered, pausing, resuming or publishing
/// against it is a safe no-op — the registry reads unchanged and no
/// delivery names the id.
pub proof fn lemma_unregistered_id_is_noop(subs: Seq<Subscription>, id: u32, p: bool)
    requires
        forall|k: int| 0 <= k < subs.len() ==> (#[trigger] subs[k]).id != id,
    ensures
        set_paused_seq(subs, id, p) == subs,
        remove_id(subs, id) == subs,
        forall|j: int|
            0 <= j < delivery_plan(subs).len() ==> (#[trigger] delivery_plan(subs)[j]).id != id,
{
    lemma_paused_subscription_not_delivered(subs, id);
}

/// Every id named by a plan stays below any bound the subscriptions stay
/// below.
pub proof fn lemma_plan_ids_below(subs: Seq<Subscription>, bound: u32)
    requires
        forall|k: int| 0 <= k < subs.len() ==> (#[trigger] subs[k]).id < bound,
    ensures
        forall|j: int|
            0 <= j < delivery_plan(subs).len() ==> (#[trigger] delivery_plan(subs)[j]).id < bound,
{
    assert forall|j: int|
        0 <= j < delivery_plan(subs).len() implies (#[trigger] delivery_plan(subs)[j]).id
        < bound by {
        lemma_plan_entry_source(subs, j);
    }
}

/// Law: delivery order equals registration order. When subscriptions are
/// ordered by ascending id — which registration order guarantees — the
/// plan's ids ascend as well.
pub proof fn lemma_delivery_in_registration_order(subs: Seq<Subscription>)
    requires
        forall|k1: int, k2: int|
            0 <= k1 < k2 < subs.len() ==> (#[trigger] subs[k1]).id < (#[trigger] subs[k2]).id,
    ensures
        forall|j1: int, j2: int|
            0 <= j1 < j2 < delivery_plan(subs).len() ==> (#[trigger] delivery_plan(subs)[j1]).id
                < (#[trigger] delivery_plan(subs)[j2]).id,
    decreases subs.len(),
{
    let plan = delivery_plan(subs);
    if subs.len() > 0 {
        let shorter = subs.drop_last();
        let rest = delivery_plan(shorter);
        assert forall|k1: int, k2: int|
            0 <= k1 < k2 < shorter.len() implies (#[trigger] shorter[k1]).id < (
        #[trigger] shorter[k2]).id by {
            assert(shorter[k1] == subs[k1] && shorter[k2] == subs[k2]);
        }
        lemma_delivery_in_registration_order(shorter);
        assert forall|k: int| 0 <= k < shorter.len() implies (#[trigger] shorter[k]).id
            < subs.last().id by {
            assert(shorter[k] == subs[k]);
        }
        lemma_plan_ids_below(shorter, subs.last().id);
        assert forall|j1: int, j2: int|
            0 <= j1 < j2 < plan.len() implies (#[trigger] plan[j1]).id < (#[trigger] plan[j2]).id by {
            if j2 < rest.len() {
                assert(plan[j1] == rest[j1] && plan[j2] == rest[j2]);
            } else {
                assert(plan[j1] == rest[j1]);
                assert(plan[j2].id == subs.last().id);
            }
        }
    }
}

} // verus!
