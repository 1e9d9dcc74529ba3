//! Pieces of text: characters, substrings, and trimming of separators.

use vstd::prelude::*;
use crate::scan::{first_where, last_where, lemma_first_where_found, lemma_first_where_skip,
    lemma_last_where_found, lemma_last_where_skip};

verus! {

/// The characters of `s`, one per element.
pub fn char_vec(s: &str) -> (r: Vec<char>)
    ensures
        r@ == s@,
{
    let n = s.unicode_len();
    let mut r: Vec<char> = Vec::new();
    let mut i: usize = 0;
    while i < n
        invariant
            n == s@.len(),
            i <= n,
            r@ == s@.subrange(0, i as int),
        decreases n - i,
    {
        r.push(s.get_char(i));
        i = i + 1;
    }
    r
}

/// The characters of `s` from `first` up to, not including, `last`.
pub fn get_string_between(s: &str, first: usize, last: usize) -> (r: String)
    requires
        first <= last <= s@.len(),
    ensures
        r@ == s@.subrange(first as int, last as int),
{
    s.substring_char(first, last).to_owned()
}

/// The characters that separate the parts of a name: space, `-`, `_`, tab,
/// newline and `/`.
pub open spec fn is_separator(c: char) -> bool {
    c == ' ' || c == '-' || c == '_' || c == '\t' || c == '\n' || c == '/'
}

/// Whether `c` is a separator.
pub fn is_separator_char(c: char) -> (r: bool)
    ensures
        r == is_separator(c),
{
    c == ' ' || c == '-' || c == '_' || c == '\t' || c == '\n' || c == '/'
}

/// Holds at the indices of `s` where a character other than a separator stands.
pub open spec fn at_content(s: Seq<char>) -> spec_fn(int) -> bool {
    |j: int| !is_separator(s[j])
}

/// `s` without the separators at its start and at its end; empty when `s`
/// holds separators only.
pub open spec fn trimmed(s: Seq<char>) -> Seq<char> {
    match (first_where(at_content(s), 0, s.len() as int), last_where(at_content(s), 0, s.len() as int)) {
        (Some(a), Some(b)) => s.subrange(a, b + 1),
        _ => Seq::empty(),
    }
}

/// Removes the separators at both ends of `s`.
pub fn remove_whitespace(s: &str) -> (r: String)
    ensures
        r@ == trimmed(s@),
{
    let chars = char_vec(s);
    let n = chars.len();
    let mut a: usize = 0;
    while a < n && is_separator_char(chars[a])
        invariant
            chars@ == s@,
            n == s@.len(),
            a <= n,
            forall|j: int| 0 <= j < a ==> !#[trigger] at_content(s@)(j),
        decreases n - a,
    {
        a = a + 1;
    }
    proof {
        lemma_first_where_skip(at_content(s@), 0, a as int, n as int);
    }
    if a == n {
        proof {
            lemma_first_where_found(at_content(s@), 0, n as int);
            lemma_last_where_found(at_content(s@), 0, n as int);
        }
        return String::new();
    }
    let mut b: usize = n;
    while b > a && is_separator_char(chars[b - 1])
        invariant
            chars@ == s@,
            n == s@.len(),
            a < b <= n,
            !is_separator(s@[a as int]),
            forall|j: int| b <= j < n ==> !#[trigger] at_content(s@)(j),
        decreases b,
    {
        b = b - 1;
    }
    proof {
        lemma_last_where_skip(at_content(s@), 0, b as int, n as int);
        assert(at_content(s@)(b - 1));
    }
    get_string_between(s, a, b)
}

/// Trimming separators twice gives what trimming once gives.
pub proof fn lemma_trim_idempotent(s: Seq<char>)
    ensures
        trimmed(trimmed(s)) == trimmed(s),
{
    let n = s.len() as int;
    lemma_first_where_found(at_content(s), 0, n);
    lemma_last_where_found(at_content(s), 0, n);
    let t = trimmed(s);
    match (first_where(at_content(s), 0, n), last_where(at_content(s), 0, n)) {
        (Some(a), Some(b)) => {
            assert(at_content(s)(b));
            assert(a <= b);
            assert(at_content(t)(0));
            assert(at_content(t)(t.len() - 1));
            assert(t.subrange(0, t.len() as int) == t);
        },
        _ => {
            assert(t.len() == 0);
        },
    }
}

/// The text that marks a field as unknown.
pub open spec fn unknown_text() -> Seq<char> {
    seq!['e', 'm', 'p', 't', 'y']
}

/// The text that marks a field as unknown: `empty`.
pub fn unknown() -> (r: String)
    ensures
        r@ == unknown_text(),
{
    let r = "empty".to_owned();
    proof {
        reveal_strlit("empty");
        assert(r@ == unknown_text());
    }
    r
}

/// Whether `a` and `b` hold the same characters.
pub fn same_text(a: &str, b: &str) -> (r: bool)
    ensures
        r == (a@ == b@),
{
    let a_chars = char_vec(a);
    let b_chars = char_vec(b);
    if a_chars.len() != b_chars.len() {
        return false;
    }
    let mut i: usize = 0;
    while i < a_chars.len()
        invariant
            a_chars@ == a@,
            b_chars@ == b@,
            a@.len() == b@.len(),
            i <= a@.len(),
            forall|k: int| 0 <= k < i ==> a@[k] == b@[k],
        decreases a@.len() - i,
    {
        if a_chars[i] != b_chars[i] {
            return false;
        }
        i = i + 1;
    }
    proof {
        assert(a@ == b@);
    }
    true
}

/// A trimmed text, or the unknown text where nothing is left of it.
pub open spec fn known_text(t: Seq<char>) -> Seq<char> {
    if t.len() == 0 {
        unknown_text()
    } else {
        t
    }
}

/// A text field as the records hold it: the unknown text, or a non-empty
/// text without separators at either end.
pub open spec fn well_formed_text(t: Seq<char>) -> bool {
    t == unknown_text() || (t.len() > 0 && trimmed(t) == t)
}

/// Trims `s`; where nothing is left, gives the unknown text.
pub fn trim_or_unknown(s: &str) -> (r: String)
    ensures
        r@ == known_text(trimmed(s@)),
        well_formed_text(r@),
{
    let t = remove_whitespace(s);
    proof {
        lemma_known_text_well_formed(s@);
    }
    if t.as_str().is_empty() {
        unknown()
    } else {
        t
    }
}

/// A trimmed text, or the unknown text in its place, is well formed.
pub proof fn lemma_known_text_well_formed(s: Seq<char>)
    ensures
        well_formed_text(known_text(trimmed(s))),
{
    lemma_trim_idempotent(s);
}

} // verus!
