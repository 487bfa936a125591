use vstd::prelude::*;
use crate::metrics::{split_spec, time_to_human_str};

verus! {

/// The decimal digit character for `d < 10`.
pub open spec fn digit_char(d: nat) -> char {
    if d == 0 { '0' }
    else if d == 1 { '1' }
    else if d == 2 { '2' }
    else if d == 3 { '3' }
    else if d == 4 { '4' }
    else if d == 5 { '5' }
    else if d == 6 { '6' }
    else if d == 7 { '7' }
    else if d == 8 { '8' }
    else { '9' }
}

/// The decimal rendering of `n`, without sign or leading zeros.
pub open spec fn dec_chars(n: nat) -> Seq<char>
    decreases n,
{
    if n < 10 {
        seq![digit_char(n)]
    } else {
        dec_chars(n / 10).push(digit_char(n % 10))
    }
}

/// `n / 100` with two decimals, for values kept in hundredths: 1250 reads
/// "12.50".
pub open spec fn centi_chars(n: nat) -> Seq<char> {
    dec_chars(n / 100) + seq!['.', digit_char((n % 100) / 10), digit_char(n % 10)]
}

/// A system uptime: "D days, H:M:S".
pub open spec fn uptime_chars(secs: nat) -> Seq<char> {
    let (d, h, m, s) = split_spec(secs);
    dec_chars(d) + " days, "@ + dec_chars(h) + seq![':'] + dec_chars(m) + seq![':'] + dec_chars(s)
}

/// A process run time: "H:M:S", with the hours not wrapped into days.
pub open spec fn run_time_chars(secs: nat) -> Seq<char> {
    let (d, h, m, s) = split_spec(secs);
    dec_chars(d * 24 + h) + seq![':'] + dec_chars(m) + seq![':'] + dec_chars(s)
}

fn digit_str(d: u64) -> (r: &'static str)
    requires
        d < 10,
    ensures
        r@ == seq![digit_char(d as nat)],
{
    proof {
        reveal_strlit("0");
        reveal_strlit("1");
        reveal_strlit("2");
        reveal_strlit("3");
        reveal_strlit("4");
        reveal_strlit("5");
        reveal_strlit("6");
        reveal_strlit("7");
        reveal_strlit("8");
        reveal_strlit("9");
    }
    if d == 0 { "0" }
    else if d == 1 { "1" }
    else if d == 2 { "2" }
    else if d == 3 { "3" }
    else if d == 4 { "4" }
    else if d == 5 { "5" }
    else if d == 6 { "6" }
    else if d == 7 { "7" }
    else if d == 8 { "8" }
    else { "9" }
}

/// Appends the decimal rendering of `n` to `s`.
pub fn push_decimal(s: &mut String, n: u64)
    ensures
        final(s)@ == old(s)@ + dec_chars(n as nat),
    decreases n,
{
    if n >= 10 {
        push_decimal(s, n / 10);
    }
    s.append(digit_str(n % 10));
    assert(final(s)@ =~= old(s)@ + dec_chars(n as nat));
}

/// The decimal rendering of `n`.
pub fn decimal_string(n: u64) -> (r: String)
    ensures
        r@ == dec_chars(n as nat),
{
    let mut s = String::new();
    push_decimal(&mut s, n);
    assert(s@ =~= dec_chars(n as nat));
    s
}

/// Renders a value kept in hundredths with two decimals.
pub fn centi_string(n: u64) -> (r: String)
    ensures
        r@ == centi_chars(n as nat),
{
    let mut s = String::new();
    push_decimal(&mut s, n / 100);
    proof {
        reveal_strlit(".");
    }
    s.append(".");
    s.append(digit_str((n % 100) / 10));
    s.append(digit_str(n % 10));
    assert(s@ =~= centi_chars(n as nat));
    s
}

fn push_h_m_s(s: &mut String, h: u64, m: u64, sec: u64)
    ensures
        final(s)@ == old(s)@ + dec_chars(h as nat) + seq![':'] + dec_chars(m as nat) + seq![':']
            + dec_chars(sec as nat),
{
    proof {
        reveal_strlit(":");
    }
    push_decimal(s, h);
    s.append(":");
    push_decimal(s, m);
    s.append(":");
    push_decimal(s, sec);
    assert(final(s)@ =~= old(s)@ + dec_chars(h as nat) + seq![':'] + dec_chars(m as nat) + seq![
        ':',
    ] + dec_chars(sec as nat));
}

/// Renders a system uptime as "D days, H:M:S".
pub fn uptime_calc(secs: u64) -> (r: String)
    ensures
        r@ == uptime_chars(secs as nat),
{
    let (day, hour, min, sec) = time_to_human_str(secs);
    let mut s = String::new();
    push_decimal(&mut s, day);
    proof {
        reveal_strlit(" days, ");
    }
    s.append(" days, ");
    push_h_m_s(&mut s, hour, min, sec);
    assert(s@ =~= uptime_chars(secs as nat));
    s
}

/// Renders a process run time as "H:M:S", counting whole hours past a day.
pub fn proc_time_calc(secs: u64) -> (r: String)
    ensures
        r@ == run_time_chars(secs as nat),
{
    let (day, hour, min, sec) = time_to_human_str(secs);
    assert(day * 24 + hour <= u64::MAX) by (nonlinear_arith)
        requires day == secs / 86400, hour < 24, secs <= u64::MAX;
    let hours = day * 24 + hour;
    let mut s = String::new();
    push_h_m_s(&mut s, hours, min, sec);
    assert(s@ =~= run_time_chars(secs as nat));
    s
}

} // verus!
