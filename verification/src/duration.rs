//! Human-readable formatting of a duration given in seconds, as hours,
//! minutes and seconds with the leading zero components omitted.

use vstd::prelude::*;

verus! {

use vstd::arithmetic::div_mod::lemma_div_is_ordered;
use vstd::arithmetic::div_mod::lemma_fundamental_div_mod;
use vstd::arithmetic::div_mod::lemma_mod_mod;
use vstd::string::StringExecFns;

/// The decimal digit character for `d`.
pub open spec fn digit_char(d: int) -> char {
    if d == 0 {
        '0'
    } else if d == 1 {
        '1'
    } else if d == 2 {
        '2'
    } else if d == 3 {
        '3'
    } else if d == 4 {
        '4'
    } else if d == 5 {
        '5'
    } else if d == 6 {
        '6'
    } else if d == 7 {
        '7'
    } else if d == 8 {
        '8'
    } else {
        '9'
    }
}

/// The decimal digits of `n`, most significant first.
pub open spec fn spec_decimal(n: int) -> Seq<char>
    decreases n,
{
    if n < 10 {
        seq![digit_char(n)]
    } else {
        spec_decimal(n / 10).push(digit_char(n % 10))
    }
}

/// The whole hours in `seconds`.
pub open spec fn hours_of(seconds: u64) -> int {
    seconds as int / 3600
}

/// The whole minutes of the last partial hour in `seconds`.
pub open spec fn minutes_of(seconds: u64) -> int {
    (seconds as int % 3600) / 60
}

/// The seconds of the last partial minute in `seconds`.
pub open spec fn secs_of(seconds: u64) -> int {
    seconds as int % 60
}

/// What `format_duration` yields: the nonzero leading components, each with
/// its unit letter.
pub open spec fn spec_format_duration(seconds: u64) -> Seq<char> {
    if hours_of(seconds) > 0 {
        spec_decimal(hours_of(seconds)) + "h "@ + spec_decimal(minutes_of(seconds)) + "m "@
            + spec_decimal(secs_of(seconds)) + "s"@
    } else if minutes_of(seconds) > 0 {
        spec_decimal(minutes_of(seconds)) + "m "@ + spec_decimal(secs_of(seconds)) + "s"@
    } else {
        spec_decimal(secs_of(seconds)) + "s"@
    }
}

/// The hours, minutes and seconds components decompose `seconds` exactly,
/// with the minutes and seconds below sixty.
pub proof fn lemma_duration_parts(seconds: u64)
    ensures
        hours_of(seconds) * 3600 + minutes_of(seconds) * 60 + secs_of(seconds) == seconds,
        0 <= hours_of(seconds),
        0 <= minutes_of(seconds) < 60,
        0 <= secs_of(seconds) < 60,
{
    let s = seconds as int;
    lemma_fundamental_div_mod(s, 3600);
    lemma_fundamental_div_mod(s % 3600, 60);
    lemma_mod_mod(s, 60, 60);
    assert(3600 * (s / 3600) == (s / 3600) * 3600) by (nonlinear_arith);
    assert(60 * ((s % 3600) / 60) == ((s % 3600) / 60) * 60) by (nonlinear_arith);
}

/// The formatted components never decrease when the duration grows: more
/// seconds give at least as many hours; at equal hours at least as many
/// minutes; at equal hours and minutes at least as many seconds.
pub proof fn lemma_format_duration_monotonic(s1: u64, s2: u64)
    requires
        s1 <= s2,
    ensures
        hours_of(s1) <= hours_of(s2),
        hours_of(s1) == hours_of(s2) ==> minutes_of(s1) <= minutes_of(s2),
        hours_of(s1) == hours_of(s2) && minutes_of(s1) == minutes_of(s2) ==> secs_of(s1) <= secs_of(
            s2,
        ),
{
    let a = s1 as int;
    let b = s2 as int;
    lemma_div_is_ordered(a, b, 3600);
    lemma_fundamental_div_mod(a, 3600);
    lemma_fundamental_div_mod(b, 3600);
    if hours_of(s1) == hours_of(s2) {
        assert(3600 * (a / 3600) == 3600 * (b / 3600));
        assert(a % 3600 <= b % 3600);
        lemma_div_is_ordered(a % 3600, b % 3600, 60);
        if minutes_of(s1) == minutes_of(s2) {
            lemma_fundamental_div_mod(a % 3600, 60);
            lemma_fundamental_div_mod(b % 3600, 60);
            lemma_mod_mod(a, 60, 60);
            lemma_mod_mod(b, 60, 60);
            assert((a % 3600) % 60 <= (b % 3600) % 60);
        }
    }
}

/// The single-character string for the digit `d`.
fn digit_str(d: u64) -> (r: &'static str)
    requires
        d < 10,
    ensures
        r@ == seq![digit_char(d as int)],
{
    proof {
        reveal_strlit("0");
        reveal_strlit("1");
        reveal_strlit("2");
        reveal_strlit("3");
        reveal_strlit("4");
        reveal_strlit("5");
        reveal_strlit("6");
        reveal_strlit("7");
        reveal_strlit("8");
        reveal_strlit("9");
    }
    if d == 0 {
        "0"
    } else if d == 1 {
        "1"
    } else if d == 2 {
        "2"
    } else if d == 3 {
        "3"
    } else if d == 4 {
        "4"
    } else if d == 5 {
        "5"
    } else if d == 6 {
        "6"
    } else if d == 7 {
        "7"
    } else if d == 8 {
        "8"
    } else {
        "9"
    }
}

/// Append the decimal digits of `n` to `out`.
fn push_decimal(out: &mut String, n: u64)
    ensures
        final(out)@ == old(out)@ + spec_decimal(n as int),
    decreases n,
{
    if n >= 10 {
        push_decimal(out, n / 10);
        let d = digit_str(n % 10);
        out.append(d);
        proof {
            assert(out@ =~= old(out)@ + spec_decimal(n as int));
        }
    } else {
        let d = digit_str(n);
        out.append(d);
        proof {
            assert(out@ =~= old(out)@ + spec_decimal(n as int));
        }
    }
}

/// Format a duration of `seconds` seconds as hours, minutes and seconds,
/// omitting the leading components that are zero.
pub fn format_duration(seconds: u64) -> (r: String)
    ensures
        r@ == spec_format_duration(seconds),
{
    let hours = seconds / 3600;
    let minutes = (seconds % 3600) / 60;
    let secs = seconds % 60;
    let mut out = String::new();
    if hours > 0 {
        push_decimal(&mut out, hours);
        out.append("h ");
        push_decimal(&mut out, minutes);
        out.append("m ");
        push_decimal(&mut out, secs);
        out.append("s");
        proof {
            assert(out@ =~= spec_format_duration(seconds));
        }
    } else if minutes > 0 {
        push_decimal(&mut out, minutes);
        out.append("m ");
        push_decimal(&mut out, secs);
        out.append("s");
        proof {
            assert(out@ =~= spec_format_duration(seconds));
        }
    } else {
        push_decimal(&mut out, secs);
        out.append("s");
        proof {
            assert(out@ =~= spec_format_duration(seconds));
        }
    }
    out
}

} // verus!
