use vstd::prelude::*;

use crate::time::Timestamp;

verus! {

/// The decimal digit character for `d % 10`.
pub open spec fn digit_char(d: int) -> char {
    let r = d % 10;
    if r == 0 {
        '0'
    } else if r == 1 {
        '1'
    } else if r == 2 {
        '2'
    } else if r == 3 {
        '3'
    } else if r == 4 {
        '4'
    } else if r == 5 {
        '5'
    } else if r == 6 {
        '6'
    } else if r == 7 {
        '7'
    } else if r == 8 {
        '8'
    } else {
        '9'
    }
}

/// `n` written as exactly two decimal digits (for `0 <= n < 100`).
pub open spec fn pad2(n: int) -> Seq<char> {
    seq![digit_char(n / 10), digit_char(n)]
}

/// `n` written as exactly four decimal digits (for `0 <= n < 10000`).
pub open spec fn pad4(n: int) -> Seq<char> {
    seq![digit_char(n / 1000), digit_char(n / 100), digit_char(n / 10), digit_char(n)]
}

/// `n` in decimal, zero-padded on the left to at least two digits
/// (for `0 <= n < 10000`), as Rust's `{:0>2}` writes it.
pub open spec fn zero_pad2(n: int) -> Seq<char> {
    if n < 100 {
        pad2(n)
    } else if n < 1000 {
        seq![digit_char(n / 100)] + pad2(n % 100)
    } else {
        pad4(n)
    }
}

/// The relative asset path for the instant `t`: `p/YYMM/DD/HH`, where
/// `YY` is the year minus 2000 (more digits once that exceeds 99).
pub open spec fn path_chars(t: Timestamp) -> Seq<char> {
    seq!['p', '/'] + zero_pad2(t.year - 2000) + pad2(t.month as int) + seq!['/'] + pad2(
        t.day as int,
    ) + seq!['/'] + pad2(t.hour as int)
}

/// `t` in RFC 3339 form with the UTC offset written out:
/// `YYYY-MM-DDThh:mm:ss+00:00`.
pub open spec fn rfc3339_chars(t: Timestamp) -> Seq<char> {
    pad4(t.year as int) + seq!['-'] + pad2(t.month as int) + seq!['-'] + pad2(t.day as int) + seq![
        'T',
    ] + pad2(t.hour as int) + seq![':'] + pad2(t.minute as int) + seq![':'] + pad2(
        t.second as int,
    ) + seq!['+', '0', '0', ':', '0', '0']
}

/// Appends the single decimal digit `d` to `s`.
fn push_digit(s: &mut String, d: u32)
    requires
        d < 10,
    ensures
        final(s)@ == old(s)@ + seq![digit_char(d as int)],
{
    let lit = if d == 0 {
        "0"
    } else if d == 1 {
        "1"
    } else if d == 2 {
        "2"
    } else if d == 3 {
        "3"
    } else if d == 4 {
        "4"
    } else if d == 5 {
        "5"
    } else if d == 6 {
        "6"
    } else if d == 7 {
        "7"
    } else if d == 8 {
        "8"
    } else {
        "9"
    };
    proof {
        reveal_strlit("0");
        reveal_strlit("1");
        reveal_strlit("2");
        reveal_strlit("3");
        reveal_strlit("4");
        reveal_strlit("5");
        reveal_strlit("6");
        reveal_strlit("7");
        reveal_strlit("8");
        reveal_strlit("9");
    }
    s.append(lit);
}

/// Appends `n` as exactly two decimal digits.
fn push_pad2(s: &mut String, n: u32)
    requires
        n < 100,
    ensures
        final(s)@ == old(s)@ + pad2(n as int),
{
    push_digit(s, n / 10);
    push_digit(s, n % 10);
    assert(final(s)@ =~= old(s)@ + pad2(n as int));
}

/// Appends `n` as exactly four decimal digits.
fn push_pad4(s: &mut String, n: u32)
    requires
        n < 10000,
    ensures
        final(s)@ == old(s)@ + pad4(n as int),
{
    push_digit(s, n / 1000);
    push_digit(s, (n / 100) % 10);
    push_digit(s, (n / 10) % 10);
    push_digit(s, n % 10);
    assert(final(s)@ =~= old(s)@ + pad4(n as int));
}

/// Appends `n` in decimal, zero-padded to at least two digits.
fn push_zero_pad2(s: &mut String, n: u32)
    requires
        n < 10000,
    ensures
        final(s)@ == old(s)@ + zero_pad2(n as int),
{
    if n < 100 {
        push_pad2(s, n);
    } else if n < 1000 {
        push_digit(s, n / 100);
        push_pad2(s, n % 100);
        assert(final(s)@ =~= old(s)@ + zero_pad2(n as int));
    } else {
        push_pad4(s, n);
    }
}

/// The relative path of the asset for the instant `t`, of the form
/// `p/YYMM/DD/HH` (two-digit year offset from 2000, month, day, hour).
pub fn format_path(t: &Timestamp) -> (r: String)
    requires
        t.valid(),
    ensures
        r@ == path_chars(*t),
{
    let mut s = String::new();
    proof {
        reveal_strlit("p/");
        reveal_strlit("/");
    }
    s.append("p/");
    push_zero_pad2(&mut s, t.year - 2000);
    push_pad2(&mut s, t.month);
    s.append("/");
    push_pad2(&mut s, t.day);
    s.append("/");
    push_pad2(&mut s, t.hour);
    assert(s@ =~= path_chars(*t));
    s
}

/// `t` written in RFC 3339 form, `YYYY-MM-DDThh:mm:ss+00:00`.
pub fn format_rfc3339(t: &Timestamp) -> (r: String)
    requires
        t.valid(),
    ensures
        r@ == rfc3339_chars(*t),
{
    let mut s = String::new();
    proof {
        reveal_strlit("-");
        reveal_strlit("T");
        reveal_strlit(":");
        reveal_strlit("+00:00");
    }
    push_pad4(&mut s, t.year);
    s.append("-");
    push_pad2(&mut s, t.month);
    s.append("-");
    push_pad2(&mut s, t.day);
    s.append("T");
    push_pad2(&mut s, t.hour);
    s.append(":");
    push_pad2(&mut s, t.minute);
    s.append(":");
    push_pad2(&mut s, t.second);
    s.append("+00:00");
    assert(s@ =~= rfc3339_chars(*t));
    s
}

} // verus!
