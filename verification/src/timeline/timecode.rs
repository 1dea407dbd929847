use vstd::prelude::*;
use vstd::string::StringExecFns;

verus! {

/// The character of decimal digit `d` (`0 <= d < 10`).
pub open spec fn digit_char(d: nat) -> char {
    (48 + d) as char
}

/// `n` written with exactly two decimal digits (`n < 100`), zero-padded.
pub open spec fn two_digits(n: nat) -> Seq<char> {
    seq![digit_char(n / 10), digit_char(n % 10)]
}

/// Whole centiseconds in `nanos` nanoseconds (milliseconds truncated, then
/// divided by ten).
pub open spec fn centiseconds(nanos: nat) -> nat {
    nanos / 1_000_000 / 10
}

/// `mm:ss.cc` for `nanos` nanoseconds: minutes and seconds wrap at 60 and
/// centiseconds at 100.
pub open spec fn clock_text(nanos: nat) -> Seq<char> {
    let cs = centiseconds(nanos);
    two_digits((cs / 6000) % 60) + seq![':'] + two_digits((cs / 100) % 60) + seq!['.'] + two_digits(cs % 100)
}

/// The transport readout: elapsed and total time as `mm:ss.cc / mm:ss.cc`.
pub open spec fn timecode_text(elapsed: nat, total: nat) -> Seq<char> {
    clock_text(elapsed) + seq![' ', '/', ' '] + clock_text(total)
}

fn digit_str(d: u128) -> (r: &'static str)
    requires
        d < 10,
    ensures
        r@ == seq![digit_char(d as nat)],
{
    proof {
        reveal_strlit("0");
        reveal_strlit("1");
        reveal_strlit("2");
        reveal_strlit("3");
        reveal_strlit("4");
        reveal_strlit("5");
        reveal_strlit("6");
        reveal_strlit("7");
        reveal_strlit("8");
        reveal_strlit("9");
    }
    if d == 0 {
        "0"
    } else if d == 1 {
        "1"
    } else if d == 2 {
        "2"
    } else if d == 3 {
        "3"
    } else if d == 4 {
        "4"
    } else if d == 5 {
        "5"
    } else if d == 6 {
        "6"
    } else if d == 7 {
        "7"
    } else if d == 8 {
        "8"
    } else {
        "9"
    }
}

fn push_two_digits(s: &mut String, n: u128)
    requires
        n < 100,
    ensures
        final(s)@ == old(s)@ + two_digits(n as nat),
{
    s.append(digit_str(n / 10));
    s.append(digit_str(n % 10));
    assert(final(s)@ =~= old(s)@ + two_digits(n as nat));
}

fn push_clock(s: &mut String, nanos: u128)
    ensures
        final(s)@ == old(s)@ + clock_text(nanos as nat),
{
    let cs = nanos / 1_000_000 / 10;
    proof {
        reveal_strlit(":");
        reveal_strlit(".");
    }
    push_two_digits(s, (cs / 6000) % 60);
    s.append(":");
    push_two_digits(s, (cs / 100) % 60);
    s.append(".");
    push_two_digits(s, cs % 100);
    assert(final(s)@ =~= old(s)@ + clock_text(nanos as nat));
}

/// Formats elapsed and total time (nanoseconds) as `mm:ss.cc / mm:ss.cc`.
pub fn format_timecode(elapsed: u128, total: u128) -> (r: String)
    ensures
        r@ == timecode_text(elapsed as nat, total as nat),
{
    let mut s = String::new();
    proof {
        reveal_strlit(" / ");
    }
    push_clock(&mut s, elapsed);
    s.append(" / ");
    push_clock(&mut s, total);
    assert(s@ =~= timecode_text(elapsed as nat, total as nat));
    s
}

} // verus!
