//! Formatting of elapsed times for display.
//!
//! Consumers derive every displayed elapsed time by subtracting a stored
//! anchor from the tick's timestamp, never by counting ticks, and hand the
//! difference in milliseconds to one of the formatters here. Two
//! resolutions exist: whole seconds as `HH:MM:SS`, and
//! seconds-with-centiseconds as `MM:SS.CC`, where the centiseconds are
//! rounded half up and carry into the seconds when they reach 100. Every
//! field is zero-padded to two digits and grows beyond two when the value
//! needs it.

use vstd::prelude::*;

verus! {

/// The decimal digit character for `d`.
pub open spec fn spec_digit(d: int) -> char
    recommends
        0 <= d <= 9,
{
    if d == 0 {
        '0'
    } else if d == 1 {
        '1'
    } else if d == 2 {
        '2'
    } else if d == 3 {
        '3'
    } else if d == 4 {
        '4'
    } else if d == 5 {
        '5'
    } else if d == 6 {
        '6'
    } else if d == 7 {
        '7'
    } else if d == 8 {
        '8'
    } else {
        '9'
    }
}

/// The decimal digits of `n`, most significant first, without padding.
pub open spec fn spec_dec(n: nat) -> Seq<char>
    decreases n,
{
    if n < 10 {
        seq![spec_digit(n as int)]
    } else {
        spec_dec(n / 10).push(spec_digit((n % 10) as int))
    }
}

/// The decimal digits of `n`, zero-padded on the left to at least two.
pub open spec fn spec_pad2(n: nat) -> Seq<char> {
    if n < 10 {
        seq!['0'] + spec_dec(n)
    } else {
        spec_dec(n)
    }
}

/// `HH:MM:SS` of a millisecond count: whole seconds, minutes and hours,
/// each zero-padded to two digits.
pub open spec fn spec_hms(ms: nat) -> Seq<char> {
    let total_seconds = ms / 1000;
    let hours = total_seconds / 3600;
    let minutes = (total_seconds % 3600) / 60;
    let seconds = total_seconds % 60;
    spec_pad2(hours) + seq![':'] + spec_pad2(minutes) + seq![':'] + spec_pad2(seconds)
}

/// `MM:SS.CC` of a millisecond count: centiseconds rounded half up, with
/// the carry running into seconds and minutes.
pub open spec fn spec_msc(ms: nat) -> Seq<char> {
    let centi = (ms + 5) / 10;
    let total_seconds = centi / 100;
    let cc = centi % 100;
    let minutes = total_seconds / 60;
    let seconds = total_seconds % 60;
    spec_pad2(minutes) + seq![':'] + spec_pad2(seconds) + seq!['.'] + spec_pad2(cc)
}

/// The single digit character of `d`.
fn digit_str(d: u64) -> (r: &'static str)
    requires
        d <= 9,
    ensures
        r@ == seq![spec_digit(d as int)],
{
    proof {
        reveal_strlit("0");
        reveal_strlit("1");
        reveal_strlit("2");
        reveal_strlit("3");
        reveal_strlit("4");
        reveal_strlit("5");
        reveal_strlit("6");
        reveal_strlit("7");
        reveal_strlit("8");
        reveal_strlit("9");
    }
    match d {
        0 => "0",
        1 => "1",
        2 => "2",
        3 => "3",
        4 => "4",
        5 => "5",
        6 => "6",
        7 => "7",
        8 => "8",
        _ => "9",
    }
}

/// The decimal digits of `n`, most significant first.
fn u64_to_dec(n: u64) -> (r: String)
    ensures
        r@ == spec_dec(n as nat),
    decreases n,
{
    if n < 10 {
        let mut s = String::new();
        s.append(digit_str(n));
        proof {
            assert(s@ =~= spec_dec(n as nat));
        }
        s
    } else {
        let mut s = u64_to_dec(n / 10);
        s.append(digit_str(n % 10));
        proof {
            assert(s@ =~= spec_dec(n as nat));
        }
        s
    }
}

/// The decimal digits of `n`, zero-padded on the left to at least two.
fn pad2(n: u64) -> (r: String)
    ensures
        r@ == spec_pad2(n as nat),
{
    proof {
        reveal_strlit("0");
    }
    let mut s = String::new();
    if n < 10 {
        s.append("0");
    }
    let d = u64_to_dec(n);
    s.append(d.as_str());
    proof {
        assert(s@ =~= spec_pad2(n as nat));
    }
    s
}

/// Formats a millisecond count as `HH:MM:SS`.
pub fn ms_to_hms(ms: u64) -> (r: String)
    ensures
        r@ == spec_hms(ms as nat),
{
    proof {
        reveal_strlit(":");
    }
    let total_seconds = ms / 1000;
    let hours = total_seconds / 3600;
    let minutes = (total_seconds % 3600) / 60;
    let seconds = total_seconds % 60;
    let mut s = pad2(hours);
    s.append(":");
    let m = pad2(minutes);
    s.append(m.as_str());
    s.append(":");
    let sec = pad2(seconds);
    s.append(sec.as_str());
    proof {
        assert(s@ =~= spec_hms(ms as nat));
    }
    s
}

/// Formats a millisecond count as `MM:SS.CC`, rounding the centiseconds
/// half up with carry into the seconds.
pub fn ms_to_msc(ms: u64) -> (r: String)
    ensures
        r@ == spec_msc(ms as nat),
{
    proof {
        reveal_strlit(":");
        reveal_strlit(".");
    }
    let centi = ms / 10 + (ms % 10 + 5) / 10;
    proof {
        assert(centi == (ms + 5) / 10) by (nonlinear_arith)
            requires
                centi == ms / 10 + (ms % 10 + 5) / 10,
        ;
    }
    let total_seconds = centi / 100;
    let cc = centi % 100;
    let minutes = total_seconds / 60;
    let seconds = total_seconds % 60;
    let mut s = pad2(minutes);
    s.append(":");
    let sec = pad2(seconds);
    s.append(sec.as_str());
    s.append(".");
    let c = pad2(cc);
    s.append(c.as_str());
    proof {
        assert(s@ =~= spec_msc(ms as nat));
    }
    s
}

} // verus!
