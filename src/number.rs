//! Reading integers from text and checking them against bounds.

use vstd::prelude::*;
use crate::scan::{as_index, first_where, find_number, is_digit, is_digit_char, lemma_first_where_found,
    lemma_first_where_skip, run_end, run_ends_at};
use crate::text::{char_vec, get_string_between, remove_whitespace, trimmed};

verus! {

/// The value of the decimal digit `c`.
pub open spec fn digit_value(c: char) -> int {
    c as int - '0' as int
}

/// Every character of `d` is a decimal digit.
pub open spec fn all_digits(d: Seq<char>) -> bool {
    forall|k: int| 0 <= k < d.len() ==> #[trigger] is_digit(d[k])
}

/// The number that the digits `d` write in base ten.
pub open spec fn digits_value(d: Seq<char>) -> int
    decreases d.len(),
{
    if d.len() == 0 {
        0
    } else {
        10 * digits_value(d.drop_last()) + digit_value(d.last())
    }
}

/// The integer that `t` writes: an optional `+` or `-`, then at least one
/// digit, and nothing else.
pub open spec fn integer_text(t: Seq<char>) -> Option<int> {
    if t.len() > 0 && all_digits(t) {
        Some(digits_value(t))
    } else if t.len() > 1 && t[0] == '+' && all_digits(t.drop_first()) {
        Some(digits_value(t.drop_first()))
    } else if t.len() > 1 && t[0] == '-' && all_digits(t.drop_first()) {
        Some(-digits_value(t.drop_first()))
    } else {
        None
    }
}

/// The `i32` that `t` writes, if it writes one in range.
pub open spec fn i32_text(t: Seq<char>) -> Option<int> {
    match integer_text(t) {
        Some(v) => if i32::MIN <= v <= i32::MAX {
            Some(v)
        } else {
            None
        },
        None => None,
    }
}

/// The `u32` that `t` writes: as for `i32_text`, but no sign `-` is taken.
pub open spec fn u32_text(t: Seq<char>) -> Option<int> {
    if t.len() > 0 && t[0] == '-' {
        None
    } else {
        match integer_text(t) {
            Some(v) => if 0 <= v <= u32::MAX {
                Some(v)
            } else {
                None
            },
            None => None,
        }
    }
}

/// An `i32` read as a mathematical integer.
pub open spec fn as_int_i32(r: Option<i32>) -> Option<int> {
    match r {
        Some(v) => Some(v as int),
        None => None,
    }
}

/// A `u32` read as a mathematical integer.
pub open spec fn as_int_u32(r: Option<u32>) -> Option<int> {
    match r {
        Some(v) => Some(v as int),
        None => None,
    }
}

/// The value of `s` once trimmed, when it is an `i32` within `min..=max`;
/// otherwise the unknown value `0`.
pub open spec fn verified_value(s: Seq<char>, min: int, max: int) -> int {
    match i32_text(trimmed(s)) {
        Some(v) => if min <= v <= max {
            v
        } else {
            0
        },
        None => 0,
    }
}

/// Digits write a value that is not negative.
pub proof fn lemma_digits_value_nonneg(d: Seq<char>)
    requires
        all_digits(d),
    ensures
        0 <= digits_value(d),
    decreases d.len(),
{
    if d.len() > 0 {
        assert(is_digit(d[d.len() - 1]));
        lemma_digits_value_nonneg(d.drop_last());
    }
}

/// A prefix of a run of digits writes a value no greater than the whole run.
pub proof fn lemma_digits_value_prefix(d: Seq<char>, k: int)
    requires
        all_digits(d),
        0 <= k <= d.len(),
    ensures
        0 <= digits_value(d.subrange(0, k)) <= digits_value(d),
    decreases d.len() - k,
{
    if k == d.len() {
        assert(d.subrange(0, k) == d);
        lemma_digits_value_nonneg(d);
    } else {
        let dl = d.drop_last();
        assert(dl.subrange(0, k) == d.subrange(0, k));
        lemma_digits_value_prefix(dl, k);
        assert(is_digit(d[d.len() - 1]));
        lemma_digits_value_nonneg(dl);
    }
}

/// Reads `t[from..]` as a non-empty run of digits whose value is at most `limit`.
fn digits_at_most(t: &[char], from: usize, limit: u64) -> (r: Option<u64>)
    requires
        from <= t@.len(),
        limit <= 4294967296,
    ensures
        match r {
            Some(v) => {
                let d = t@.subrange(from as int, t@.len() as int);
                &&& d.len() > 0
                &&& all_digits(d)
                &&& v == digits_value(d)
                &&& v <= limit
            },
            None => {
                let d = t@.subrange(from as int, t@.len() as int);
                !(d.len() > 0 && all_digits(d) && digits_value(d) <= limit)
            },
        },
{
    let ghost whole = t@.subrange(from as int, t@.len() as int);
    if from == t.len() {
        return None;
    }
    let mut v: u64 = 0;
    let mut i: usize = from;
    while i < t.len()
        invariant
            whole == t@.subrange(from as int, t@.len() as int),
            from <= i <= t@.len(),
            all_digits(t@.subrange(from as int, i as int)),
            v == digits_value(t@.subrange(from as int, i as int)),
            v <= limit,
            limit <= 4294967296,
        decreases t@.len() - i,
    {
        let c = t[i];
        if !is_digit_char(c) {
            proof {
                assert(!is_digit(whole[i - from]));
            }
            return None;
        }
        let ghost before = t@.subrange(from as int, i as int);
        let ghost after = t@.subrange(from as int, i + 1);
        proof {
            assert(after.drop_last() == before);
            assert(after.last() == c);
            assert(all_digits(after)) by {
                assert forall|k: int| 0 <= k < after.len() implies #[trigger] is_digit(after[k]) by {
                    if k < before.len() {
                        assert(after[k] == before[k]);
                    }
                }
            }
        }
        let d: u64 = (c as u32 - '0' as u32) as u64;
        v = v * 10 + d;
        if v > limit {
            proof {
                if all_digits(whole) {
                    assert(whole.subrange(0, (i + 1 - from) as int) == after);
                    lemma_digits_value_prefix(whole, (i + 1 - from) as int);
                }
            }
            return None;
        }
        i = i + 1;
    }
    proof {
        assert(t@.subrange(from as int, i as int) == whole);
    }
    Some(v)
}

/// Reads `t` as an `i32` written in decimal, with an optional sign.
pub fn parse_i32(t: &[char]) -> (r: Option<i32>)
    ensures
        as_int_i32(r) == i32_text(t@),
{
    if t.len() == 0 {
        return None;
    }
    let c = t[0];
    if c == '+' || c == '-' {
        proof {
            assert(t@.subrange(1, t@.len() as int) == t@.drop_first());
            assert(!is_digit(t@[0]));
        }
        if t.len() == 1 {
            return None;
        }
        if c == '+' {
            match digits_at_most(t, 1, 2147483647) {
                Some(v) => Some(v as i32),
                None => None,
            }
        } else {
            match digits_at_most(t, 1, 2147483648) {
                Some(v) => Some((0 - (v as i64)) as i32),
                None => None,
            }
        }
    } else {
        proof {
            assert(t@.subrange(0, t@.len() as int) == t@);
        }
        match digits_at_most(t, 0, 2147483647) {
            Some(v) => Some(v as i32),
            None => None,
        }
    }
}

/// Reads `t` as a `u32` written in decimal, with an optional `+`.
pub fn parse_u32(t: &[char]) -> (r: Option<u32>)
    ensures
        as_int_u32(r) == u32_text(t@),
{
    if t.len() == 0 {
        return None;
    }
    let c = t[0];
    if c == '-' {
        return None;
    }
    if c == '+' {
        proof {
            assert(t@.subrange(1, t@.len() as int) == t@.drop_first());
            assert(!is_digit(t@[0]));
        }
        if t.len() == 1 {
            return None;
        }
        match digits_at_most(t, 1, 4294967295) {
            Some(v) => Some(v as u32),
            None => None,
        }
    } else {
        proof {
            assert(t@.subrange(0, t@.len() as int) == t@);
        }
        match digits_at_most(t, 0, 4294967295) {
            Some(v) => Some(v as u32),
            None => None,
        }
    }
}

/// Trims `s` and reads it as an `i32`. Returns the value when it lies in
/// `min..=max`, and the unknown value `0` when `s` is not a number or the
/// number lies outside those bounds.
pub fn verify_number(s: &str, min: i32, max: i32) -> (r: i32)
    ensures
        r == verified_value(s@, min as int, max as int),
        i32_text(trimmed(s@)) is None ==> r == 0,
        forall|v: int| i32_text(trimmed(s@)) == Some(v) && !(min <= v <= max) ==> r == 0,
        forall|v: int| i32_text(trimmed(s@)) == Some(v) && min <= v <= max ==> r == v,
{
    let t = remove_whitespace(s);
    let chars = char_vec(t.as_str());
    match parse_i32(chars.as_slice()) {
        Some(v) => if min <= v && v <= max {
            v
        } else {
            0
        },
        None => 0,
    }
}

/// Holds at the ends of the runs of exactly `size` digits in `s` whose value
/// lies in `min..=max` and is not zero.
pub open spec fn accepted_run_end(s: Seq<char>, min: int, max: int, size: int) -> spec_fn(
    int,
) -> bool {
    |e: int|
        run_ends_at(s, 0, size, e) && verified_value(s.subrange(e - size, e), min, max) != 0
}

/// Start of the first run of exactly `size` digits in `s`, closed by a
/// non-digit, whose value lies in `min..=max` and is not zero.
pub open spec fn verified_run(s: Seq<char>, min: int, max: int, size: int) -> Option<int> {
    match first_where(accepted_run_end(s, min, max, size), 0, s.len() as int) {
        Some(e) => Some(e - size),
        None => None,
    }
}

/// Runs found from a position that follows a non-digit are the runs found
/// from the start.
pub proof fn lemma_run_from(s: Seq<char>, start: int, size: int, e: int)
    requires
        0 <= start <= e,
        start == 0 || (start <= s.len() && !is_digit(s[start - 1])),
    ensures
        run_ends_at(s, start, size, e) <==> run_ends_at(s, 0, size, e),
{
    if run_ends_at(s, 0, size, e) && e - size < start {
        assert(is_digit(s[start - 1]));
    }
}

/// Finds the first run of exactly `size` digits, closed by a non-digit, whose
/// value lies in `min..=max` and is not zero, and returns where it begins.
/// Runs that fail the bounds are passed over and the search goes on after them.
pub fn find_verified_number(s: &str, min: i32, max: i32, size: usize) -> (r: Option<usize>)
    ensures
        as_index(r) == verified_run(s@, min as int, max as int, size as int),
{
    let chars = char_vec(s);
    let ghost p = accepted_run_end(s@, min as int, max as int, size as int);
    let n = chars.len();
    let mut start: usize = 0;
    loop
        invariant
            chars@ == s@,
            n == s@.len(),
            p == accepted_run_end(s@, min as int, max as int, size as int),
            start <= s@.len() + 1,
            start == 0 || (start <= s@.len() && !is_digit(s@[start - 1])),
            forall|e: int| 0 <= e < start ==> !#[trigger] p(e),
        decreases s@.len() + 1 - start,
    {
        let found = find_number(chars.as_slice(), start, size);
        let ghost q = run_end(s@, start as int, size as int);
        proof {
            lemma_first_where_found(q, start as int, s@.len() as int);
        }
        match found {
            None => {
                proof {
                    assert forall|e: int| 0 <= e < s@.len() implies !#[trigger] p(e) by {
                        if e >= start {
                            lemma_run_from(s@, start as int, size as int, e);
                        }
                    }
                    lemma_first_where_skip(p, 0, s@.len() as int, s@.len() as int);
                }
                return None;
            },
            Some(pos) => {
                proof {
                    assert(first_where(q, start as int, s@.len() as int) == Some(pos + size));
                }
                let end = pos + size;
                proof {
                    assert(q(end as int));
                    lemma_run_from(s@, start as int, size as int, end as int);
                    assert forall|e: int| 0 <= e < end implies !#[trigger] p(e) by {
                        if e >= start {
                            lemma_run_from(s@, start as int, size as int, e);
                            assert(!q(e));
                        }
                    }
                }
                let text = get_string_between(s, pos, end);
                if verify_number(text.as_str(), min, max) != 0 {
                    proof {
                        assert(p(end as int));
                        lemma_first_where_skip(p, 0, end as int, s@.len() as int);
                    }
                    return Some(pos);
                }
                start = end + 1;
            },
        }
    }
}

} // verus!
