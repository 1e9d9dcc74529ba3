//! Character-level scanning primitives over a path or a piece of it.

use vstd::prelude::*;

verus! {

/// The least index in `lo..hi` at which `p` holds, if any.
pub open spec fn first_where(p: spec_fn(int) -> bool, lo: int, hi: int) -> Option<int>
    decreases hi - lo,
{
    if lo >= hi {
        None
    } else if p(lo) {
        Some(lo)
    } else {
        first_where(p, lo + 1, hi)
    }
}

/// The greatest index in `lo..hi` at which `p` holds, if any.
pub open spec fn last_where(p: spec_fn(int) -> bool, lo: int, hi: int) -> Option<int>
    decreases hi - lo,
{
    if lo >= hi {
        None
    } else if p(hi - 1) {
        Some(hi - 1)
    } else {
        last_where(p, lo, hi - 1)
    }
}

/// How many indices in `lo..hi` satisfy `p`.
pub open spec fn count_where(p: spec_fn(int) -> bool, lo: int, hi: int) -> nat
    decreases hi - lo,
{
    if lo >= hi {
        0
    } else {
        count_where(p, lo, hi - 1) + if p(hi - 1) { 1nat } else { 0nat }
    }
}

/// Skipping a stretch where `p` fails does not change the first match.
pub proof fn lemma_first_where_skip(p: spec_fn(int) -> bool, lo: int, mid: int, hi: int)
    requires
        lo <= mid <= hi,
        forall|j: int| lo <= j < mid ==> !#[trigger] p(j),
    ensures
        first_where(p, lo, hi) == first_where(p, mid, hi),
    decreases mid - lo,
{
    if lo < mid {
        lemma_first_where_skip(p, lo + 1, mid, hi);
    }
}

/// What `first_where` returns is a match, and none comes before it.
pub proof fn lemma_first_where_found(p: spec_fn(int) -> bool, lo: int, hi: int)
    ensures
        match first_where(p, lo, hi) {
            Some(i) => lo <= i < hi && p(i) && forall|j: int| lo <= j < i ==> !#[trigger] p(j),
            None => forall|j: int| lo <= j < hi ==> !#[trigger] p(j),
        },
    decreases hi - lo,
{
    if lo < hi && !p(lo) {
        lemma_first_where_found(p, lo + 1, hi);
    }
}

/// What `last_where` returns is a match, and none comes after it.
pub proof fn lemma_last_where_found(p: spec_fn(int) -> bool, lo: int, hi: int)
    ensures
        match last_where(p, lo, hi) {
            Some(i) => lo <= i < hi && p(i) && forall|j: int| i < j < hi ==> !#[trigger] p(j),
            None => forall|j: int| lo <= j < hi ==> !#[trigger] p(j),
        },
    decreases hi - lo,
{
    if lo < hi && !p(hi - 1) {
        lemma_last_where_found(p, lo, hi - 1);
    }
}

/// Where `p` holds nowhere in `lo..hi`, it is counted zero times there.
pub proof fn lemma_count_where_none(p: spec_fn(int) -> bool, lo: int, hi: int)
    requires
        forall|j: int| lo <= j < hi ==> !#[trigger] p(j),
    ensures
        count_where(p, lo, hi) == 0,
    decreases hi - lo,
{
    if lo < hi {
        lemma_count_where_none(p, lo, hi - 1);
    }
}

/// Where `p` holds at `f` alone in `lo..hi`, it is counted once there.
pub proof fn lemma_count_where_one(p: spec_fn(int) -> bool, lo: int, hi: int, f: int)
    requires
        lo <= f < hi,
        p(f),
        forall|j: int| lo <= j < hi && j != f ==> !#[trigger] p(j),
    ensures
        count_where(p, lo, hi) == 1,
    decreases hi - lo,
{
    if hi - 1 == f {
        lemma_count_where_none(p, lo, hi - 1);
    } else {
        lemma_count_where_one(p, lo, hi - 1, f);
    }
}

/// Holds at the indices of `s` where `c` stands.
pub open spec fn at_char(s: Seq<char>, c: char) -> spec_fn(int) -> bool {
    |j: int| s[j] == c
}

/// Skipping a stretch at the top where `p` fails does not change the last match.
pub proof fn lemma_last_where_skip(p: spec_fn(int) -> bool, lo: int, mid: int, hi: int)
    requires
        lo <= mid <= hi,
        forall|j: int| mid <= j < hi ==> !#[trigger] p(j),
    ensures
        last_where(p, lo, hi) == last_where(p, lo, mid),
    decreases hi - mid,
{
    if mid < hi {
        lemma_last_where_skip(p, lo, mid, hi - 1);
    }
}

/// Index of the first `c` in `s`.
pub open spec fn first_index(s: Seq<char>, c: char) -> Option<int> {
    first_where(at_char(s, c), 0, s.len() as int)
}

/// Index of the last `c` in `s`.
pub open spec fn last_index(s: Seq<char>, c: char) -> Option<int> {
    last_where(at_char(s, c), 0, s.len() as int)
}

/// Number of times `c` occurs in `s`.
pub open spec fn occurrences(s: Seq<char>, c: char) -> nat {
    count_where(at_char(s, c), 0, s.len() as int)
}

/// An index found by an executable search, read as a mathematical index.
pub open spec fn as_index(r: Option<usize>) -> Option<int> {
    match r {
        Some(i) => Some(i as int),
        None => None,
    }
}

/// The leftmost position of `c` in `s`, or `None` when `c` does not occur.
pub fn find_first_char(s: &[char], c: char) -> (r: Option<usize>)
    ensures
        as_index(r) == first_index(s@, c),
        r matches Some(i) ==> i < s@.len() && s@[i as int] == c,
{
    let mut i: usize = 0;
    while i < s.len()
        invariant
            i <= s@.len(),
            forall|j: int| 0 <= j < i ==> !#[trigger] at_char(s@, c)(j),
        decreases s@.len() - i,
    {
        if s[i] == c {
            proof {
                lemma_first_where_skip(at_char(s@, c), 0, i as int, s@.len() as int);
            }
            return Some(i);
        }
        i = i + 1;
    }
    proof {
        lemma_first_where_skip(at_char(s@, c), 0, i as int, s@.len() as int);
    }
    None
}

/// The rightmost position of `c` in `s`, or `None` when `c` does not occur.
pub fn find_last_char(s: &[char], c: char) -> (r: Option<usize>)
    ensures
        as_index(r) == last_index(s@, c),
        r matches Some(i) ==> i < s@.len() && s@[i as int] == c,
{
    let mut found: Option<usize> = None;
    let mut i: usize = 0;
    while i < s.len()
        invariant
            i <= s@.len(),
            as_index(found) == last_where(at_char(s@, c), 0, i as int),
        decreases s@.len() - i,
    {
        if s[i] == c {
            found = Some(i);
        }
        i = i + 1;
    }
    proof {
        lemma_last_where_found(at_char(s@, c), 0, s@.len() as int);
    }
    found
}

/// How many times `c` occurs in `s`.
pub fn get_char_count(s: &[char], c: char) -> (r: usize)
    ensures
        r == occurrences(s@, c),
{
    let mut count: usize = 0;
    let mut i: usize = 0;
    while i < s.len()
        invariant
            i <= s@.len(),
            count == count_where(at_char(s@, c), 0, i as int),
            count <= i,
        decreases s@.len() - i,
    {
        if s[i] == c {
            count = count + 1;
        }
        i = i + 1;
    }
    count
}

/// Whether `c` is an ASCII decimal digit.
pub open spec fn is_digit(c: char) -> bool {
    '0' <= c && c <= '9'
}

/// Whether `c` is an ASCII decimal digit.
pub fn is_digit_char(c: char) -> (r: bool)
    ensures
        r == is_digit(c),
{
    '0' <= c && c <= '9'
}

/// A run of exactly `size` digits ends at `e`: a non-digit stands at `e`, the
/// `size` characters before it are digits, and the run starts at `start` or
/// right after a non-digit.
pub open spec fn run_ends_at(s: Seq<char>, start: int, size: int, e: int) -> bool {
    &&& start + size <= e < s.len()
    &&& !is_digit(s[e])
    &&& forall|k: int| e - size <= k < e ==> #[trigger] is_digit(s[k])
    &&& (e - size == start || !is_digit(s[e - size - 1]))
}

/// Holds at the indices of `s` where a run of exactly `size` digits ends.
pub open spec fn run_end(s: Seq<char>, start: int, size: int) -> spec_fn(int) -> bool {
    |e: int| run_ends_at(s, start, size, e)
}

/// Start of the first run of exactly `size` digits in `s` at or after
/// `start` that a non-digit closes.
pub open spec fn numeric_run(s: Seq<char>, start: int, size: int) -> Option<int> {
    match first_where(run_end(s, start, size), start, s.len() as int) {
        Some(e) => Some(e - size),
        None => None,
    }
}

/// Finds the first run of exactly `size` digits at or after `start` that a
/// non-digit closes, and returns where it begins. Longer or shorter runs are
/// passed over, and a run that reaches the end of `s` is not counted.
pub fn find_number(s: &[char], start: usize, size: usize) -> (r: Option<usize>)
    ensures
        as_index(r) == numeric_run(s@, start as int, size as int),
        r is None <==> forall|e: int| !#[trigger] run_ends_at(s@, start as int, size as int, e),
        r matches Some(i) ==> i + size < s@.len() && run_ends_at(
            s@,
            start as int,
            size as int,
            i + size,
        ),
{
    let ghost p = run_end(s@, start as int, size as int);
    let mut count: usize = 0;
    let mut i: usize = start;
    while i < s.len()
        invariant
            p == run_end(s@, start as int, size as int),
            start <= i,
            i <= s@.len() || i == start,
            count <= i - start,
            forall|k: int| i - count <= k < i ==> #[trigger] is_digit(s@[k]),
            i - count == start || !is_digit(s@[i - count - 1]),
            forall|e: int| start <= e < i ==> !#[trigger] p(e),
        decreases s@.len() - i,
    {
        if is_digit_char(s[i]) {
            count = count + 1;
        } else {
            if count == size {
                assert(p(i as int));
                proof {
                    lemma_first_where_skip(p, start as int, i as int, s@.len() as int);
                }
                return Some(i - count);
            }
            assert(!p(i as int)) by {
                if run_ends_at(s@, start as int, size as int, i as int) {
                    if size < count {
                        assert(is_digit(s@[i - size - 1]));
                    } else {
                        assert(is_digit(s@[i - count - 1]));
                    }
                }
            }
            count = 0;
        }
        i = i + 1;
    }
    proof {
        if start < s@.len() {
            lemma_first_where_skip(p, start as int, i as int, s@.len() as int);
        }
        assert forall|e: int| !#[trigger] run_ends_at(s@, start as int, size as int, e) by {
            assert(!p(e));
        }
    }
    None
}

} // verus!
