//! Verified text helpers: substring search and lexicographic comparison.
//!
//! Substring search backs the record search and the file-name match; the
//! lexicographic order backs the timestamp invariant of the entry store
//! (timestamps are kept in a fixed-width text form whose lexicographic order
//! agrees with chronological order).

use vstd::prelude::*;

verus! {

/// `needle` occurs contiguously somewhere in `hay`.
pub open spec fn is_substring(needle: Seq<char>, hay: Seq<char>) -> bool {
    exists|i: int|
        0 <= i && i + needle.len() <= hay.len() && #[trigger] hay.subrange(i, i + needle.len())
            == needle
}

/// `a` is lexicographically less than or equal to `b`, comparing characters
/// by their scalar values, with a proper prefix ordered before its extension.
pub open spec fn lex_leq(a: Seq<char>, b: Seq<char>) -> bool
    decreases a.len(),
{
    if a.len() == 0 {
        true
    } else if b.len() == 0 {
        false
    } else if a[0] == b[0] {
        lex_leq(a.skip(1), b.skip(1))
    } else {
        (a[0] as u32) < (b[0] as u32)
    }
}

/// The lexicographically larger of the two sequences.
pub open spec fn lex_max(a: Seq<char>, b: Seq<char>) -> Seq<char> {
    if lex_leq(a, b) {
        b
    } else {
        a
    }
}

/// The lexicographic order is reflexive.
pub proof fn lemma_lex_leq_refl(a: Seq<char>)
    ensures
        lex_leq(a, a),
    decreases a.len(),
{
    if a.len() > 0 {
        lemma_lex_leq_refl(a.skip(1));
    }
}

/// The lexicographic order is total.
pub proof fn lemma_lex_leq_total(a: Seq<char>, b: Seq<char>)
    ensures
        lex_leq(a, b) || lex_leq(b, a),
    decreases a.len(),
{
    if a.len() == 0 || b.len() == 0 {
    } else if a[0] == b[0] {
        lemma_lex_leq_total(a.skip(1), b.skip(1));
    } else {
        if (a[0] as u32) == (b[0] as u32) {
            vstd::utf8::char_u32_cast(a[0], a[0] as u32);
            vstd::utf8::char_u32_cast(b[0], b[0] as u32);
        }
    }
}

/// Taking the maximum never goes below either operand: the maximum of the
/// previous timestamp and the clock reading is at least the previous
/// timestamp, and at least the clock reading.
pub proof fn lemma_lex_max_upper(a: Seq<char>, b: Seq<char>)
    ensures
        lex_leq(a, lex_max(a, b)),
        lex_leq(b, lex_max(a, b)),
{
    if lex_leq(a, b) {
        lemma_lex_leq_refl(b);
    } else {
        lemma_lex_leq_total(a, b);
        lemma_lex_leq_refl(a);
    }
}

fn matches_at(hay: &str, needle: &str, pos: usize, hay_len: usize, needle_len: usize) -> (r: bool)
    requires
        hay_len == hay@.len(),
        needle_len == needle@.len(),
        pos + needle_len <= hay_len,
    ensures
        r == (hay@.subrange(pos as int, pos + needle@.len()) == needle@),
{
    let mut j: usize = 0;
    while j < needle_len
        invariant
            0 <= j <= needle_len,
            hay_len == hay@.len(),
            needle_len == needle@.len(),
            pos + needle_len <= hay_len,
            forall|k: int| 0 <= k < j ==> hay@[pos + k] == needle@[k],
        decreases needle_len - j,
    {
        if hay.get_char(pos + j) != needle.get_char(j) {
            proof {
                assert(hay@.subrange(pos as int, pos + needle@.len())[j as int] == hay@[pos + j]);
            }
            return false;
        }
        j += 1;
    }
    proof {
        assert(hay@.subrange(pos as int, pos + needle@.len()) =~= needle@);
    }
    true
}

/// True exactly when `needle` occurs in `hay` as a contiguous substring.
/// The comparison is case-sensitive.
pub fn contains_substring(hay: &str, needle: &str) -> (r: bool)
    ensures
        r == is_substring(needle@, hay@),
{
    let hay_len = hay.unicode_len();
    let needle_len = needle.unicode_len();
    if needle_len > hay_len {
        return false;
    }
    if needle_len == 0 {
        proof {
            assert(hay@.subrange(0, 0 + needle@.len() as int) =~= needle@);
        }
        return true;
    }
    let mut i: usize = 0;
    while i <= hay_len - needle_len
        invariant
            hay_len == hay@.len(),
            needle_len == needle@.len(),
            1 <= needle_len <= hay_len,
            0 <= i <= hay_len - needle_len + 1,
            forall|k: int|
                0 <= k < i ==> #[trigger] hay@.subrange(k, k + needle@.len()) != needle@,
        decreases hay_len - needle_len - i + 1,
    {
        if matches_at(hay, needle, i, hay_len, needle_len) {
            proof {
                assert(0 <= i as int && i as int + needle@.len() <= hay@.len() && hay@.subrange(
                    i as int,
                    i as int + needle@.len(),
                ) == needle@);
            }
            return true;
        }
        i += 1;
    }
    false
}

/// True exactly when the two strings hold the same characters.
pub fn str_eq(a: &str, b: &str) -> (r: bool)
    ensures
        r == (a@ == b@),
{
    let la = a.unicode_len();
    let lb = b.unicode_len();
    if la != lb {
        return false;
    }
    let mut i: usize = 0;
    while i < la
        invariant
            la == a@.len(),
            la == b@.len(),
            0 <= i <= la,
            forall|k: int| 0 <= k < i ==> a@[k] == b@[k],
        decreases la - i,
    {
        if a.get_char(i) != b.get_char(i) {
            return false;
        }
        i += 1;
    }
    proof {
        assert(a@ =~= b@);
    }
    true
}

fn lex_leq_rec(a: &str, b: &str, i: usize, la: usize, lb: usize) -> (r: bool)
    requires
        la == a@.len(),
        lb == b@.len(),
        i <= la,
        i <= lb,
    ensures
        r == lex_leq(a@.skip(i as int), b@.skip(i as int)),
    decreases la - i,
{
    if i == la {
        true
    } else if i == lb {
        false
    } else {
        let ca = a.get_char(i);
        let cb = b.get_char(i);
        proof {
            assert(a@.skip(i as int)[0] == a@[i as int]);
            assert(b@.skip(i as int)[0] == b@[i as int]);
            assert(a@.skip(i as int).skip(1) =~= a@.skip(i + 1));
            assert(b@.skip(i as int).skip(1) =~= b@.skip(i + 1));
        }
        if ca == cb {
            lex_leq_rec(a, b, i + 1, la, lb)
        } else {
            (ca as u32) < (cb as u32)
        }
    }
}

/// True exactly when `a` is lexicographically less than or equal to `b`.
pub fn str_lex_leq(a: &str, b: &str) -> (r: bool)
    ensures
        r == lex_leq(a@, b@),
{
    let la = a.unicode_len();
    let lb = b.unicode_len();
    let r = lex_leq_rec(a, b, 0, la, lb);
    proof {
        assert(a@.skip(0) =~= a@);
        assert(b@.skip(0) =~= b@);
    }
    r
}

/// The lexicographically larger of the two strings, as a fresh `String`.
pub fn str_lex_max(a: &str, b: &str) -> (r: String)
    ensures
        r@ == lex_max(a@, b@),
{
    if str_lex_leq(a, b) {
        String::from_str(b)
    } else {
        String::from_str(a)
    }
}

} // verus!
