use vstd::prelude::*;

use crate::Error;
use crate::time::{Timestamp, day_after, spec_weekday, weekday};

verus! {

/// A parsed cron-style expression: for each field, the set of values it
/// admits, held as a strictly increasing vector.
///
/// The dialect: six or seven whitespace-separated fields — seconds 0-59,
/// minutes 0-59, hours 0-23, days of month 1-31, months 1-12, days of
/// week 1-7 with Sunday as 1, and an optional year 2000-9999. Each field
/// is `*` (or `?`) or a comma-separated list of values, inclusive ranges
/// `a-b` and stepped forms `a/n`, `a-b/n` and `*/n`.
#[derive(Debug, Clone, PartialEq)]
pub struct Schedule {
    pub seconds: Vec<u32>,
    pub minutes: Vec<u32>,
    pub hours: Vec<u32>,
    pub days_of_month: Vec<u32>,
    pub months: Vec<u32>,
    pub days_of_week: Vec<u32>,
    pub years: Vec<u32>,
}

pub open spec fn sorted_strict(v: Seq<u32>) -> bool {
    forall|i: int, j: int| 0 <= i < j < v.len() ==> v[i] < v[j]
}

pub open spec fn field_wf(v: Seq<u32>, lo: int, hi: int) -> bool {
    &&& sorted_strict(v)
    &&& v.len() > 0
    &&& forall|i: int| 0 <= i < v.len() ==> lo <= #[trigger] v[i] <= hi
}

impl Schedule {
    pub open spec fn wf(self) -> bool {
        &&& field_wf(self.seconds@, 0, 59)
        &&& field_wf(self.minutes@, 0, 59)
        &&& field_wf(self.hours@, 0, 23)
        &&& field_wf(self.days_of_month@, 1, 31)
        &&& field_wf(self.months@, 1, 12)
        &&& field_wf(self.days_of_week@, 1, 7)
        &&& field_wf(self.years@, 2000, 9999)
    }

    /// The date fields of `t` all satisfy the schedule.
    pub open spec fn includes_date(self, t: Timestamp) -> bool {
        &&& self.months@.contains(t.month)
        &&& self.days_of_month@.contains(t.day)
        &&& self.days_of_week@.contains((spec_weekday(t) + 1) as u32)
        &&& self.years@.contains(t.year)
    }

    /// The time-of-day fields all admit the given time of day.
    pub open spec fn tod_allowed(self, h: u32, m: u32, s: u32) -> bool {
        &&& self.hours@.contains(h)
        &&& self.minutes@.contains(m)
        &&& self.seconds@.contains(s)
    }

    /// `t` satisfies every field constraint of the schedule.
    pub open spec fn includes(self, t: Timestamp) -> bool {
        self.includes_date(t) && self.tod_allowed(t.hour, t.minute, t.second)
    }
}

/// Strict order on times of day.
pub open spec fn tod_lt(h1: u32, m1: u32, s1: u32, h2: u32, m2: u32, s2: u32) -> bool {
    h1 < h2 || (h1 == h2 && (m1 < m2 || (m1 == m2 && s1 < s2)))
}

/// Whether some parsed stepped range of `items` covers `x`: `x` lies in
/// the range and is a whole number of steps above its start.
pub open spec fn covered(items: Seq<(u32, u32, u32)>, x: u32) -> bool {
    exists|i: int|
        0 <= i < items.len() && (#[trigger] items[i]).0 <= x <= items[i].1 && (x - items[i].0) % (
        items[i].2 as int) == 0
}

fn contains_val(v: &Vec<u32>, x: u32) -> (b: bool)
    ensures
        b == v@.contains(x),
{
    let mut i: usize = 0;
    while i < v.len()
        invariant
            i <= v@.len(),
            forall|k: int| 0 <= k < i ==> v@[k] != x,
        decreases v@.len() - i,
    {
        if v[i] == x {
            return true;
        }
        i = i + 1;
    }
    false
}

/// The least element of `v` that is at least `x`, if any.
fn next_in_ge(v: &Vec<u32>, x: u32) -> (r: Option<u32>)
    requires
        sorted_strict(v@),
    ensures
        match r {
            Some(y) => v@.contains(y) && y >= x && forall|z: u32|
                v@.contains(z) && z >= x ==> z >= y,
            None => forall|z: u32| v@.contains(z) ==> z < x,
        },
{
    let mut i: usize = 0;
    while i < v.len()
        invariant
            i <= v@.len(),
            sorted_strict(v@),
            forall|k: int| 0 <= k < i ==> v@[k] < x,
        decreases v@.len() - i,
    {
        if v[i] >= x {
            let y = v[i];
            assert forall|z: u32| v@.contains(z) && z >= x implies z >= y by {
                let k = choose|k: int| 0 <= k < v@.len() && v@[k] == z;
                if k < i {
                    assert(v@[k] < x);
                } else if k > i {
                    assert(v@[i as int] < v@[k]);
                }
            }
            return Some(y);
        }
        i = i + 1;
    }
    assert forall|z: u32| v@.contains(z) implies z < x by {
        let k = choose|k: int| 0 <= k < v@.len() && v@[k] == z;
    }
    None
}

/// The least element of a well-formed field vector.
fn first_in(v: &Vec<u32>) -> (y: u32)
    requires
        sorted_strict(v@),
        v@.len() > 0,
    ensures
        v@.contains(y),
        forall|z: u32| v@.contains(z) ==> z >= y,
{
    let y = v[0];
    assert forall|z: u32| v@.contains(z) implies z >= y by {
        let k = choose|k: int| 0 <= k < v@.len() && v@[k] == z;
        if k > 0 {
            assert(v@[0] < v@[k]);
        }
    }
    y
}

fn covers(items: &Vec<(u32, u32, u32)>, x: u32) -> (b: bool)
    requires
        forall|k: int| 0 <= k < items@.len() ==> (#[trigger] items@[k]).2 >= 1,
    ensures
        b == covered(items@, x),
{
    let mut i: usize = 0;
    while i < items.len()
        invariant
            i <= items@.len(),
            forall|k: int| 0 <= k < items@.len() ==> (#[trigger] items@[k]).2 >= 1,
            forall|k: int|
                0 <= k < i ==> !((#[trigger] items@[k]).0 <= x <= items@[k].1 && (x - items@[k].0)
                    % (items@[k].2 as int) == 0),
        decreases items@.len() - i,
    {
        if items[i].0 <= x && x <= items[i].1 && (x - items[i].0) % items[i].2 == 0 {
            return true;
        }
        i = i + 1;
    }
    false
}

/// The ascending sequence of the values in `lo ..= hi` that some range of
/// `items` covers.
pub open spec fn covered_seq(items: Seq<(u32, u32, u32)>, lo: int, hi: int) -> Seq<u32>
    decreases hi - lo + 1,
    when lo <= hi + 1
{
    if lo > hi {
        Seq::empty()
    } else if covered(items, hi as u32) {
        covered_seq(items, lo, hi - 1) + seq![hi as u32]
    } else {
        covered_seq(items, lo, hi - 1)
    }
}

/// The sorted vector of all values in `lo ..= hi` that some range covers.
fn covered_vec(items: &Vec<(u32, u32, u32)>, lo: u32, hi: u32) -> (r: Vec<u32>)
    requires
        lo <= hi,
        hi < 10000,
        forall|k: int| 0 <= k < items@.len() ==> (#[trigger] items@[k]).2 >= 1,
    ensures
        r@ == covered_seq(items@, lo as int, hi as int),
        sorted_strict(r@),
        forall|k: int| 0 <= k < r@.len() ==> lo <= #[trigger] r@[k] <= hi,
        forall|x: u32| r@.contains(x) ==> covered(items@, x),
        forall|x: u32| lo <= x <= hi && covered(items@, x) ==> r@.contains(x),
{
    let mut r: Vec<u32> = Vec::new();
    let mut v: u32 = lo;
    while v <= hi
        invariant
            lo <= v <= hi + 1,
            hi < 10000,
            forall|k: int| 0 <= k < items@.len() ==> (#[trigger] items@[k]).2 >= 1,
            r@ == covered_seq(items@, lo as int, v - 1),
            sorted_strict(r@),
            forall|k: int| 0 <= k < r@.len() ==> lo <= #[trigger] r@[k] < v,
            forall|x: u32| r@.contains(x) ==> covered(items@, x),
            forall|x: u32| lo <= x < v && covered(items@, x) ==> r@.contains(x),
        decreases hi + 1 - v,
    {
        if covers(items, v) {
            let ghost old_r = r@;
            r.push(v);
            assert forall|x: u32| r@.contains(x) implies covered(items@, x) by {
                let k = choose|k: int| 0 <= k < r@.len() && r@[k] == x;
                if k < old_r.len() {
                    assert(old_r.contains(x));
                }
            }
            assert forall|x: u32| lo <= x < v + 1 && covered(items@, x) implies r@.contains(
                x,
            ) by {
                if x < v {
                    assert(old_r.contains(x));
                    let k = choose|k: int| 0 <= k < old_r.len() && old_r[k] == x;
                    assert(r@[k] == x);
                } else {
                    assert(r@[r@.len() - 1] == x);
                }
            }
            assert(r@ =~= covered_seq(items@, lo as int, v as int));
        } else {
            assert(r@ =~= covered_seq(items@, lo as int, v as int));
        }
        v = v + 1;
    }
    r
}

fn str_chars(s: &str) -> (v: Vec<char>)
    ensures
        v@ == s@,
{
    let n = s.unicode_len();
    let mut v: Vec<char> = Vec::new();
    let mut i: usize = 0;
    while i < n
        invariant
            i <= n,
            n == s@.len(),
            v@ == s@.take(i as int),
        decreases n - i,
    {
        v.push(s.get_char(i));
        assert(v@ =~= s@.take(i as int + 1));
        i = i + 1;
    }
    assert(v@ =~= s@);
    v
}

pub open spec fn is_digit_char(c: char) -> bool {
    '0' <= c && c <= '9'
}

/// How many decimal digits stand at `pos`.
pub open spec fn digit_run(cs: Seq<char>, pos: int) -> nat
    decreases cs.len() - pos,
    when 0 <= pos <= cs.len()
{
    if pos < cs.len() && is_digit_char(cs[pos]) {
        1 + digit_run(cs, pos + 1)
    } else {
        0
    }
}

/// How many spaces stand at `pos`.
pub open spec fn space_run(cs: Seq<char>, pos: int) -> nat
    decreases cs.len() - pos,
    when 0 <= pos <= cs.len()
{
    if pos < cs.len() && cs[pos] == ' ' {
        1 + space_run(cs, pos + 1)
    } else {
        0
    }
}

/// The value of the `n` decimal digits starting at `pos`.
pub open spec fn number_val(cs: Seq<char>, pos: int, n: nat) -> int
    decreases n,
{
    if n == 0 {
        0
    } else {
        number_val(cs, pos, (n - 1) as nat) * 10 + (cs[pos + n - 1] as int - 48)
    }
}

proof fn lemma_run_digits(cs: Seq<char>, pos: int, i: int)
    requires
        0 <= pos <= cs.len(),
        pos <= i < pos + digit_run(cs, pos),
    ensures
        is_digit_char(cs[i]),
    decreases i - pos,
{
    if i > pos {
        lemma_run_digits(cs, pos + 1, i);
    }
}

proof fn lemma_number_val_grows(cs: Seq<char>, pos: int, n: nat, m: nat)
    requires
        n < m,
        number_val(cs, pos, n) >= 1000,
        forall|i: int| pos + n <= i < pos + m ==> is_digit_char(#[trigger] cs[i]),
    ensures
        number_val(cs, pos, m) > 9999,
    decreases m,
{
    if m > n + 1 {
        lemma_number_val_grows(cs, pos, n, (m - 1) as nat);
    }
}

/// A decimal number of at most four digits in value starting at `pos`;
/// yields `number_val` over the whole digit run and the position just
/// past it, and fails exactly when no digit stands at `pos` or the run's
/// value exceeds 9999.
fn parse_number(cs: &Vec<char>, pos: usize) -> (r: Result<(u32, usize), Error>)
    requires
        pos <= cs@.len(),
    ensures
        match r {
            Ok(p) => {
                &&& digit_run(cs@, pos as int) >= 1
                &&& p.0 == number_val(cs@, pos as int, digit_run(cs@, pos as int))
                &&& p.0 <= 9999
                &&& p.1 == pos + digit_run(cs@, pos as int)
                &&& pos < p.1 <= cs@.len()
            },
            Err(e) => {
                &&& e == Error::InvalidSchedule
                &&& (digit_run(cs@, pos as int) == 0 || number_val(
                    cs@,
                    pos as int,
                    digit_run(cs@, pos as int),
                ) > 9999)
            },
        },
{
    if pos >= cs.len() {
        return Err(Error::InvalidSchedule);
    }
    let c0 = cs[pos];
    if !(c0 >= '0' && c0 <= '9') {
        return Err(Error::InvalidSchedule);
    }
    let mut val: u32 = (c0 as u32) - 48;
    proof {
        assert(number_val(cs@, pos as int, 0) == 0);
        assert(number_val(cs@, pos as int, 1) == cs@[pos as int] as int - 48);
        assert(val == c0 as int - 48);
    }
    let mut p = pos + 1;
    while p < cs.len() && cs[p] >= '0' && cs[p] <= '9'
        invariant
            pos < p <= cs@.len(),
            digit_run(cs@, pos as int) == (p - pos) + digit_run(cs@, p as int),
            val == number_val(cs@, pos as int, (p - pos) as nat),
            val <= 9999,
        decreases cs@.len() - p,
    {
        let d = (cs[p] as u32) - 48;
        if val > 999 {
            proof {
                let run = digit_run(cs@, pos as int);
                assert forall|i: int| pos + (p - pos) <= i < pos + run implies is_digit_char(
                    #[trigger] cs@[i],
                ) by {
                    lemma_run_digits(cs@, pos as int, i);
                }
                lemma_number_val_grows(cs@, pos as int, (p - pos) as nat, run);
            }
            return Err(Error::InvalidSchedule);
        }
        val = val * 10 + d;
        p = p + 1;
    }
    Ok((val, p))
}

/// The stepped value ranges of a comma-separated list written at `pos`,
/// appended to `acc`, with the position just past the list; nothing when
/// the text there is no such list within `lo ..= hi`. An item is a value,
/// a range `a-b`, or either followed by `/n` for a step of `n`; a lone
/// `a/n` runs from `a` to the field's top.
pub open spec fn spec_items(
    cs: Seq<char>,
    pos: int,
    lo: int,
    hi: int,
    acc: Seq<(u32, u32, u32)>,
) -> Option<(Seq<(u32, u32, u32)>, int)>
    decreases cs.len() - pos,
    when 0 <= pos <= cs.len() && 0 <= lo
{
    let r1 = digit_run(cs, pos);
    if r1 == 0 {
        None
    } else {
        let a = number_val(cs, pos, r1);
        if a > 9999 || a < lo || a > hi {
            None
        } else {
            let p2 = pos + r1;
            if p2 < cs.len() && cs[p2] == '-' {
                let r2 = digit_run(cs, p2 + 1);
                if r2 == 0 {
                    None
                } else {
                    let b = number_val(cs, p2 + 1, r2);
                    if b > 9999 || b < a || b > hi {
                        None
                    } else {
                        let p3 = p2 + 1 + r2;
                        if p3 < cs.len() && cs[p3] == '/' {
                            let r3 = digit_run(cs, p3 + 1);
                            if r3 == 0 {
                                None
                            } else {
                                let st = number_val(cs, p3 + 1, r3);
                                if st > 9999 || st < 1 {
                                    None
                                } else {
                                    let p4 = p3 + 1 + r3;
                                    let acc2 = acc.push((a as u32, b as u32, st as u32));
                                    if p4 < cs.len() && cs[p4] == ',' {
                                        spec_items(cs, p4 + 1, lo, hi, acc2)
                                    } else {
                                        Some((acc2, p4))
                                    }
                                }
                            }
                        } else {
                            let acc2 = acc.push((a as u32, b as u32, 1u32));
                            if p3 < cs.len() && cs[p3] == ',' {
                                spec_items(cs, p3 + 1, lo, hi, acc2)
                            } else {
                                Some((acc2, p3))
                            }
                        }
                    }
                }
            } else if p2 < cs.len() && cs[p2] == '/' {
                let r3 = digit_run(cs, p2 + 1);
                if r3 == 0 {
                    None
                } else {
                    let st = number_val(cs, p2 + 1, r3);
                    if st > 9999 || st < 1 {
                        None
                    } else {
                        let p4 = p2 + 1 + r3;
                        let acc2 = acc.push((a as u32, hi as u32, st as u32));
                        if p4 < cs.len() && cs[p4] == ',' {
                            spec_items(cs, p4 + 1, lo, hi, acc2)
                        } else {
                            Some((acc2, p4))
                        }
                    }
                }
            } else {
                let acc2 = acc.push((a as u32, a as u32, 1u32));
                if p2 < cs.len() && cs[p2] == ',' {
                    spec_items(cs, p2 + 1, lo, hi, acc2)
                } else {
                    Some((acc2, p2))
                }
            }
        }
    }
}

/// One cron field written at `pos`: leading spaces, then `*` or a list of
/// values and ranges, ended by a space or the end of the text. Yields the
/// ascending sequence of admitted values and the position just past the
/// field.
pub open spec fn spec_field(cs: Seq<char>, pos: int, lo: int, hi: int) -> Option<(Seq<u32>, int)> {
    let p = pos + space_run(cs, pos);
    if p >= cs.len() {
        None
    } else if cs[p] == '*' || cs[p] == '?' {
        if p + 1 < cs.len() && cs[p + 1] == '/' {
            let r3 = digit_run(cs, p + 2);
            if r3 == 0 {
                None
            } else {
                let st = number_val(cs, p + 2, r3);
                if st > 9999 || st < 1 {
                    None
                } else {
                    let p4 = p + 2 + r3;
                    if p4 < cs.len() && cs[p4] != ' ' {
                        None
                    } else {
                        Some((covered_seq(seq![(lo as u32, hi as u32, st as u32)], lo, hi), p4))
                    }
                }
            }
        } else if p + 1 < cs.len() && cs[p + 1] != ' ' {
            None
        } else {
            Some((covered_seq(seq![(lo as u32, hi as u32, 1u32)], lo, hi), p + 1))
        }
    } else {
        match spec_items(cs, p, lo, hi, Seq::empty()) {
            None => None,
            Some(ip) => if ip.1 < cs.len() && cs[ip.1] != ' ' {
                None
            } else {
                Some((covered_seq(ip.0, lo, hi), ip.1))
            },
        }
    }
}

/// One cron field starting at `pos` (leading spaces skipped): `*`, or a
/// comma-separated list of values and inclusive ranges, all within
/// `lo ..= hi`. Yields exactly what `spec_field` denotes, and fails, with
/// `Error::InvalidSchedule`, exactly when `spec_field` denotes nothing.
fn parse_field(cs: &Vec<char>, pos: usize, lo: u32, hi: u32) -> (r: Result<(Vec<u32>, usize), Error>)
    requires
        pos <= cs@.len(),
        lo <= hi,
        hi < 10000,
    ensures
        match r {
            Ok(p) => {
                &&& field_wf(p.0@, lo as int, hi as int)
                &&& pos <= p.1 <= cs@.len()
                &&& spec_field(cs@, pos as int, lo as int, hi as int) == Some((p.0@, p.1 as int))
            },
            Err(e) => e == Error::InvalidSchedule && spec_field(
                cs@,
                pos as int,
                lo as int,
                hi as int,
            ) is None,
        },
{
    let mut p = pos;
    while p < cs.len() && cs[p] == ' '
        invariant
            pos <= p <= cs@.len(),
            space_run(cs@, pos as int) == (p - pos) + space_run(cs@, p as int),
        decreases cs@.len() - p,
    {
        p = p + 1;
    }
    assert(p == pos + space_run(cs@, pos as int));
    if p >= cs.len() {
        return Err(Error::InvalidSchedule);
    }
    let mut items: Vec<(u32, u32, u32)> = Vec::new();
    if cs[p] == '*' || cs[p] == '?' {
        p = p + 1;
        let mut step: u32 = 1;
        if p < cs.len() && cs[p] == '/' {
            let (st, p4) = match parse_number(cs, p + 1) {
                Ok(x) => x,
                Err(e) => {
                    return Err(e);
                },
            };
            if st < 1 {
                return Err(Error::InvalidSchedule);
            }
            step = st;
            p = p4;
        }
        if p < cs.len() && cs[p] != ' ' {
            return Err(Error::InvalidSchedule);
        }
        items.push((lo, hi, step));
        assert(items@ =~= seq![(lo, hi, step)]);
    } else {
        let ghost start = p as int;
        loop
            invariant_except_break
                pos <= p <= cs@.len(),
                lo <= hi,
                hi < 10000,
                forall|k: int|
                    0 <= k < items@.len() ==> lo <= (#[trigger] items@[k]).0 <= items@[k].1 <= hi
                        && items@[k].2 >= 1,
                spec_items(cs@, start, lo as int, hi as int, Seq::empty()) == spec_items(
                    cs@,
                    p as int,
                    lo as int,
                    hi as int,
                    items@,
                ),
                0 <= start < cs@.len(),
                start == pos + space_run(cs@, pos as int),
                cs@[start] != '*' && cs@[start] != '?',
            ensures
                0 <= start < cs@.len(),
                start == pos + space_run(cs@, pos as int),
                cs@[start] != '*' && cs@[start] != '?',
                pos <= p <= cs@.len(),
                items@.len() > 0,
                forall|k: int|
                    0 <= k < items@.len() ==> lo <= (#[trigger] items@[k]).0 <= items@[k].1 <= hi
                        && items@[k].2 >= 1,
                spec_items(cs@, start, lo as int, hi as int, Seq::empty()) == Some((
                    items@,
                    p as int,
                )),
            decreases cs@.len() - p,
        {
            let (a, p2) = match parse_number(cs, p) {
                Ok(x) => x,
                Err(e) => {
                    return Err(e);
                },
            };
            if a < lo || a > hi {
                return Err(Error::InvalidSchedule);
            }
            let item: (u32, u32, u32);
            let p3: usize;
            if p2 < cs.len() && cs[p2] == '-' {
                let (bb, p4) = match parse_number(cs, p2 + 1) {
                    Ok(x) => x,
                    Err(e) => {
                        return Err(e);
                    },
                };
                if bb < a || bb > hi {
                    return Err(Error::InvalidSchedule);
                }
                if p4 < cs.len() && cs[p4] == '/' {
                    let (st, p5) = match parse_number(cs, p4 + 1) {
                        Ok(x) => x,
                        Err(e) => {
                            return Err(e);
                        },
                    };
                    if st < 1 {
                        return Err(Error::InvalidSchedule);
                    }
                    item = (a, bb, st);
                    p3 = p5;
                } else {
                    item = (a, bb, 1);
                    p3 = p4;
                }
            } else if p2 < cs.len() && cs[p2] == '/' {
                let (st, p5) = match parse_number(cs, p2 + 1) {
                    Ok(x) => x,
                    Err(e) => {
                        return Err(e);
                    },
                };
                if st < 1 {
                    return Err(Error::InvalidSchedule);
                }
                item = (a, hi, st);
                p3 = p5;
            } else {
                item = (a, a, 1);
                p3 = p2;
            }
            let ghost items_before = items@;
            items.push(item);
            proof {
                assert(items@ =~= items_before.push(item));
            }
            if p3 < cs.len() && cs[p3] == ',' {
                p = p3 + 1;
            } else {
                p = p3;
                break ;
            }
        }
        if p < cs.len() && cs[p] != ' ' {
            return Err(Error::InvalidSchedule);
        }
    }
    let v = covered_vec(&items, lo, hi);
    proof {
        assert(lo <= items@[0].0 <= items@[0].1 <= hi);
        assert(covered(items@, items@[0].0));
        assert(v@.contains(items@[0].0));
    }
    Ok((v, p))
}

/// The seven admitted-value sequences of a schedule, as one spec value:
/// seconds, minutes, hours, days of month, months, days of week, years.
pub type ScheduleFields = (Seq<u32>, Seq<u32>, Seq<u32>, Seq<u32>, Seq<u32>, Seq<u32>, Seq<u32>);

impl Schedule {
    pub open spec fn fields(self) -> ScheduleFields {
        (
            self.seconds@,
            self.minutes@,
            self.hours@,
            self.days_of_month@,
            self.months@,
            self.days_of_week@,
            self.years@,
        )
    }
}

/// What a cron-style expression denotes: six fields in order, then either
/// the end of the text (every year admitted) or a seventh year field and
/// nothing but spaces after it.
pub open spec fn spec_parse_schedule(cs: Seq<char>) -> Option<ScheduleFields> {
    match spec_field(cs, 0, 0, 59) {
        None => None,
        Some(f1) => match spec_field(cs, f1.1, 0, 59) {
            None => None,
            Some(f2) => match spec_field(cs, f2.1, 0, 23) {
                None => None,
                Some(f3) => match spec_field(cs, f3.1, 1, 31) {
                    None => None,
                    Some(f4) => match spec_field(cs, f4.1, 1, 12) {
                        None => None,
                        Some(f5) => match spec_field(cs, f5.1, 1, 7) {
                            None => None,
                            Some(f6) => {
                                let p = f6.1 + space_run(cs, f6.1);
                                if p >= cs.len() {
                                    Some(
                                        (
                                            f1.0,
                                            f2.0,
                                            f3.0,
                                            f4.0,
                                            f5.0,
                                            f6.0,
                                            covered_seq(seq![(2000u32, 9999u32, 1u32)], 2000, 9999),
                                        ),
                                    )
                                } else {
                                    match spec_field(cs, p, 2000, 9999) {
                                        None => None,
                                        Some(f7) => {
                                            let q = f7.1 + space_run(cs, f7.1);
                                            if q < cs.len() {
                                                None
                                            } else {
                                                Some((f1.0, f2.0, f3.0, f4.0, f5.0, f6.0, f7.0))
                                            }
                                        },
                                    }
                                }
                            },
                        },
                    },
                },
            },
        },
    }
}

/// Parses a cron-style expression into a schedule. The result is exactly
/// what `spec_parse_schedule` denotes — so the same expression always
/// yields the same schedule — and the parse fails, always with
/// `Error::InvalidSchedule`, exactly when the expression denotes nothing.
pub fn parse_schedule(expr: &str) -> (r: Result<Schedule, Error>)
    ensures
        match r {
            Ok(s) => s.wf() && spec_parse_schedule(expr@) == Some(s.fields()),
            Err(e) => e == Error::InvalidSchedule && spec_parse_schedule(expr@) is None,
        },
{
    let cs = str_chars(expr);
    let (seconds, p1) = parse_field(&cs, 0, 0, 59)?;
    let (minutes, p2) = parse_field(&cs, p1, 0, 59)?;
    let (hours, p3) = parse_field(&cs, p2, 0, 23)?;
    let (days_of_month, p4) = parse_field(&cs, p3, 1, 31)?;
    let (months, p5) = parse_field(&cs, p4, 1, 12)?;
    let (days_of_week, p6) = parse_field(&cs, p5, 1, 7)?;
    let mut p = p6;
    while p < cs.len() && cs[p] == ' '
        invariant
            p6 <= p <= cs@.len(),
            space_run(cs@, p6 as int) == (p - p6) + space_run(cs@, p as int),
        decreases cs@.len() - p,
    {
        p = p + 1;
    }
    assert(p == p6 + space_run(cs@, p6 as int));
    let years: Vec<u32>;
    if p >= cs.len() {
        let mut items: Vec<(u32, u32, u32)> = Vec::new();
        items.push((2000u32, 9999u32, 1u32));
        let v = covered_vec(&items, 2000, 9999);
        proof {
            assert(items@ =~= seq![(2000u32, 9999u32, 1u32)]);
            assert((items@[0]).0 <= 2000u32 <= items@[0].1);
            assert(covered(items@, 2000u32));
            assert(v@.contains(2000u32));
        }
        years = v;
    } else {
        let (ys, p7) = parse_field(&cs, p, 2000, 9999)?;
        let mut q = p7;
        while q < cs.len() && cs[q] == ' '
            invariant
                p7 <= q <= cs@.len(),
                space_run(cs@, p7 as int) == (q - p7) + space_run(cs@, q as int),
            decreases cs@.len() - q,
        {
            q = q + 1;
        }
        assert(q == p7 + space_run(cs@, p7 as int));
        if q < cs.len() {
            return Err(Error::InvalidSchedule);
        }
        years = ys;
    }
    Ok(Schedule { seconds, minutes, hours, days_of_month, months, days_of_week, years })
}

/// Parsing is a function of the expression text alone: two schedules
/// denoted by the same expression admit exactly the same values in every
/// field and fire at exactly the same instants, so re-deriving the
/// generator from the same expression yields the same sequence.
pub proof fn lemma_parse_deterministic(e: Seq<char>, s1: Schedule, s2: Schedule)
    requires
        spec_parse_schedule(e) == Some(s1.fields()),
        spec_parse_schedule(e) == Some(s2.fields()),
    ensures
        s1.fields() == s2.fields(),
        forall|t: Timestamp| s1.includes(t) == s2.includes(t),
{
    assert(s1.fields() == s2.fields());
    assert forall|t: Timestamp| s1.includes(t) == s2.includes(t) by {
        assert(s1.seconds@ == s2.seconds@);
        assert(s1.minutes@ == s2.minutes@);
        assert(s1.hours@ == s2.hours@);
        assert(s1.days_of_month@ == s2.days_of_month@);
        assert(s1.months@ == s2.months@);
        assert(s1.days_of_week@ == s2.days_of_week@);
        assert(s1.years@ == s2.years@);
    }
}

/// The earliest time of day the schedule admits at all.
fn first_tod(s: &Schedule) -> (r: (u32, u32, u32))
    requires
        s.wf(),
    ensures
        s.tod_allowed(r.0, r.1, r.2),
        forall|hh: u32, mm: u32, ss: u32| #[trigger]
            s.tod_allowed(hh, mm, ss) ==> !tod_lt(hh, mm, ss, r.0, r.1, r.2),
{
    let h = first_in(&s.hours);
    let m = first_in(&s.minutes);
    let sec = first_in(&s.seconds);
    (h, m, sec)
}

/// The earliest time of day the schedule admits strictly after
/// `(h, m, sec)`, if there is one left in the day.
fn next_tod_after(s: &Schedule, h: u32, m: u32, sec: u32) -> (r: Option<(u32, u32, u32)>)
    requires
        s.wf(),
        h < 24,
        m < 60,
        sec < 60,
    ensures
        match r {
            Some(t3) => {
                &&& s.tod_allowed(t3.0, t3.1, t3.2)
                &&& tod_lt(h, m, sec, t3.0, t3.1, t3.2)
                &&& forall|hh: u32, mm: u32, ss: u32| #[trigger]
                    s.tod_allowed(hh, mm, ss) && tod_lt(h, m, sec, hh, mm, ss) ==> !tod_lt(
                        hh,
                        mm,
                        ss,
                        t3.0,
                        t3.1,
                        t3.2,
                    )
            },
            None => forall|hh: u32, mm: u32, ss: u32| #[trigger]
                s.tod_allowed(hh, mm, ss) ==> !tod_lt(h, m, sec, hh, mm, ss),
        },
{
    if contains_val(&s.hours, h) {
        if contains_val(&s.minutes, m) {
            if let Some(ns) = next_in_ge(&s.seconds, sec + 1) {
                return Some((h, m, ns));
            }
        }
        if let Some(nm) = next_in_ge(&s.minutes, m + 1) {
            let fs = first_in(&s.seconds);
            return Some((h, nm, fs));
        }
    }
    if let Some(nh) = next_in_ge(&s.hours, h + 1) {
        let fm = first_in(&s.minutes);
        let fs = first_in(&s.seconds);
        return Some((nh, fm, fs));
    }
    None
}

fn date_matches(s: &Schedule, t: &Timestamp) -> (b: bool)
    requires
        s.wf(),
        t.valid(),
    ensures
        b == s.includes_date(*t),
{
    let w = weekday(t);
    contains_val(&s.months, t.month) && contains_val(&s.days_of_month, t.day) && contains_val(
        &s.days_of_week,
        w + 1,
    ) && contains_val(&s.years, t.year)
}

impl Schedule {
    /// Executable counterpart of `includes`: does the schedule fire at `t`?
    pub fn admits(&self, t: &Timestamp) -> (b: bool)
        requires
            self.wf(),
            t.valid(),
        ensures
            b == self.includes(*t),
    {
        date_matches(self, t) && contains_val(&self.hours, t.hour) && contains_val(
            &self.minutes,
            t.minute,
        ) && contains_val(&self.seconds, t.second)
    }
}

/// No instant strictly between `t` and the start of `d`'s date satisfies
/// the schedule.
pub open spec fn no_hit_before_day(s: Schedule, t: Timestamp, d: Timestamp) -> bool {
    forall|v: Timestamp| v.valid() && t.spec_lt(v) && v.date_lt(d) ==> !(#[trigger] s.includes(v))
}

/// `u` is the first instant after `t` that satisfies the schedule: it is
/// valid, satisfies every field constraint, lies strictly after `t`, and
/// no satisfying instant lies strictly between `t` and `u`.
pub open spec fn is_first_occurrence(s: Schedule, t: Timestamp, u: Timestamp) -> bool {
    &&& u.valid()
    &&& s.includes(u)
    &&& t.spec_lt(u)
    &&& forall|v: Timestamp| v.valid() && (#[trigger] s.includes(v)) && t.spec_lt(v) ==> !v.spec_lt(
        u,
    )
}

/// The first instant strictly after `t` that satisfies the schedule, or
/// nothing when no instant up to the end of year 9999 does.
pub fn next_after(s: &Schedule, t: &Timestamp) -> (r: Option<Timestamp>)
    requires
        s.wf(),
        t.valid(),
    ensures
        match r {
            Some(u) => is_first_occurrence(*s, *t, u),
            None => forall|v: Timestamp|
                v.valid() && t.spec_lt(v) ==> !(#[trigger] s.includes(v)),
        },
{
    if date_matches(s, t) {
        if let Some((h, m, sec)) = next_tod_after(s, t.hour, t.minute, t.second) {
            let u = Timestamp {
                year: t.year,
                month: t.month,
                day: t.day,
                hour: h,
                minute: m,
                second: sec,
            };
            proof {
                assert(s.includes_date(u));
                assert forall|v: Timestamp|
                    v.valid() && (#[trigger] s.includes(v)) && t.spec_lt(v) implies !v.spec_lt(
                    u,
                ) by {
                    if v.same_date(*t) {
                        assert(s.tod_allowed(v.hour, v.minute, v.second));
                        assert(tod_lt(t.hour, t.minute, t.second, v.hour, v.minute, v.second));
                    }
                }
            }
            return Some(u);
        }
    }
    let mut d = day_after(t);
    proof {
        assert forall|v: Timestamp|
            v.valid() && t.spec_lt(v) && v.date_lt(d) implies !(#[trigger] s.includes(v)) by {
            if !t.date_lt(v) {
                assert(v.same_date(*t));
                if s.includes(v) {
                    assert(s.tod_allowed(v.hour, v.minute, v.second));
                    assert(s.includes_date(*t));
                    assert(tod_lt(t.hour, t.minute, t.second, v.hour, v.minute, v.second));
                }
            }
        }
    }
    loop
        invariant
            s.wf(),
            t.valid(),
            d.hour == 0 && d.minute == 0 && d.second == 0,
            d.year <= 10000,
            d.year <= 9999 ==> d.valid(),
            t.date_lt(d),
            no_hit_before_day(*s, *t, d),
        decreases 10000 - d.year, 12 - d.month, 32 - d.day,
    {
        if d.year > 9999 {
            proof {
                assert forall|v: Timestamp|
                    v.valid() && t.spec_lt(v) implies !(#[trigger] s.includes(v)) by {
                    assert(v.date_lt(d));
                }
            }
            return None;
        }
        if date_matches(s, &d) {
            let (h, m, sec) = first_tod(s);
            let u = Timestamp {
                year: d.year,
                month: d.month,
                day: d.day,
                hour: h,
                minute: m,
                second: sec,
            };
            proof {
                assert(s.includes_date(u));
                assert forall|v: Timestamp|
                    v.valid() && (#[trigger] s.includes(v)) && t.spec_lt(v) implies !v.spec_lt(
                    u,
                ) by {
                    if v.date_lt(d) {
                        assert(!s.includes(v));
                    } else if v.same_date(d) {
                        assert(s.tod_allowed(v.hour, v.minute, v.second));
                    }
                }
            }
            return Some(u);
        }
        let d2 = day_after(&d);
        proof {
            assert forall|v: Timestamp|
                v.valid() && t.spec_lt(v) && v.date_lt(d2) implies !(#[trigger] s.includes(
                v,
            )) by {
                if !v.date_lt(d) {
                    assert(v.same_date(d));
                    if s.includes(v) {
                        assert(s.includes_date(d));
                    }
                }
            }
        }
        d = d2;
    }
}

/// The first occurrence after a reference instant is unique: deriving the
/// upcoming sequence again from the same schedule and the same reference
/// yields the same instants.
pub proof fn lemma_first_occurrence_unique(s: Schedule, t: Timestamp, u1: Timestamp, u2: Timestamp)
    requires
        is_first_occurrence(s, t, u1),
        is_first_occurrence(s, t, u2),
    ensures
        u1 == u2,
{
    assert(!u1.spec_lt(u2));
    assert(!u2.spec_lt(u1));
}

/// Successive occurrences strictly increase, and each satisfies every
/// field constraint of the schedule.
pub proof fn lemma_occurrences_increase(s: Schedule, t: Timestamp, u: Timestamp, w: Timestamp)
    requires
        is_first_occurrence(s, t, u),
        is_first_occurrence(s, u, w),
    ensures
        t.spec_lt(u),
        u.spec_lt(w),
        s.includes(u),
        s.includes(w),
{
}

} // verus!
