//! Character-level groundwork: byte lengths of UTF-8 characters, the
//! character classes the scanner and the tokenizer split on, and the
//! uppercase transform.
//!
//! Document positions are byte offsets into UTF-8 text, while Verus views
//! a string as its sequence of characters, so the byte length of a
//! character prefix ([`blen`]) is the bridge the contracts are written
//! over.

use vstd::prelude::*;

verus! {

use vstd::utf8::encode_utf8;
use vstd::utf8::encode_scalar;

broadcast use vstd::utf8::char_is_scalar;

/// The byte length of the UTF-8 encoding of one character.
pub open spec fn char_len(c: char) -> int {
    if c as u32 <= 0x7F {
        1
    } else if c as u32 <= 0x7FF {
        2
    } else if c as u32 <= 0xFFFF {
        3
    } else {
        4
    }
}

/// Relies on `char::len_utf8`: the number of bytes the character occupies
/// when encoded as UTF-8, which is determined by its scalar value range.
pub assume_specification[ char::len_utf8 ](c: char) -> (r: usize)
    ensures
        r == char_len(c),
;

/// Whether the character counts as whitespace for word-boundary scanning.
/// Named for the result of `char::is_whitespace` (the Unicode
/// `White_Space` property), which depends on the character alone.
pub uninterp spec fn whitespace_char(c: char) -> bool;

/// Relies on `char::is_whitespace`: true exactly for characters with the
/// Unicode `White_Space` property.
pub assume_specification[ char::is_whitespace ](c: char) -> (r: bool)
    ensures
        r == whitespace_char(c),
;

/// Whether the character counts as alphanumeric for tokenization.
/// Named for the result of `char::is_alphanumeric` (the Unicode
/// `Alphabetic` and number categories), which depends on the character
/// alone.
pub uninterp spec fn alnum_char(c: char) -> bool;

/// Relies on `char::is_alphanumeric`: true exactly for characters in the
/// Unicode `Alphabetic` class or one of the number categories.
pub assume_specification[ char::is_alphanumeric ](c: char) -> (r: bool)
    ensures
        r == alnum_char(c),
;

/// The uppercase transform of a character sequence.  Named for the result
/// of `str::to_uppercase`, which depends on the characters alone.  The
/// transform may change the number of characters and the byte length.
pub uninterp spec fn upper_of(s: Seq<char>) -> Seq<char>;

/// Relies on `str::to_uppercase`: the Unicode uppercase equivalent of the
/// string, a function of its characters alone.
#[verifier::external_body]
pub(crate) fn uppercase(s: &str) -> (r: String)
    ensures
        r@ == upper_of(s@),
{
    s.to_uppercase()
}

/// The byte length of the UTF-8 encoding of a character sequence.
pub open spec fn blen(s: Seq<char>) -> int
    decreases s.len(),
{
    if s.len() == 0 {
        0
    } else {
        char_len(s[0]) + blen(s.drop_first())
    }
}

/// True when byte offset `k` falls on a character boundary of `s`:
/// some character prefix of `s` encodes to exactly `k` bytes.
pub open spec fn char_boundary(s: Seq<char>, k: int) -> bool {
    exists|n: int| 0 <= n <= s.len() && blen(#[trigger] s.take(n)) == k
}

/// Byte length distributes over concatenation.
pub proof fn lemma_blen_add(a: Seq<char>, b: Seq<char>)
    ensures
        blen(a + b) == blen(a) + blen(b),
    decreases a.len(),
{
    if a.len() == 0 {
        assert(a + b =~= b);
    } else {
        assert((a + b).drop_first() =~= a.drop_first() + b);
        lemma_blen_add(a.drop_first(), b);
    }
}

/// A sequence of `n` characters occupies at least `n` bytes.
pub proof fn lemma_blen_ge_len(s: Seq<char>)
    ensures
        blen(s) >= s.len(),
    decreases s.len(),
{
    if s.len() > 0 {
        lemma_blen_ge_len(s.drop_first());
    }
}

/// Consuming one more character adds that character's byte length.
pub proof fn lemma_blen_take_succ(s: Seq<char>, n: int)
    requires
        0 <= n < s.len(),
    ensures
        blen(s.take(n + 1)) == blen(s.take(n)) + char_len(s[n]),
{
    let t = s.subrange(n, n + 1);
    assert(s.take(n + 1) =~= s.take(n) + t);
    lemma_blen_add(s.take(n), t);
    assert(t.len() == 1 && t[0] == s[n]);
    assert(t.drop_first() =~= Seq::<char>::empty());
    assert(blen(t.drop_first()) == 0);
    assert(blen(t) == char_len(s[n]));
}

/// Byte offsets of character prefixes grow strictly with the prefix.
pub proof fn lemma_blen_take_mono(s: Seq<char>, m: int, n: int)
    requires
        0 <= m <= n <= s.len(),
    ensures
        blen(s.take(m)) <= blen(s.take(n)),
        m < n ==> blen(s.take(m)) + (n - m) <= blen(s.take(n)),
{
    assert(s.take(n) =~= s.take(m) + s.subrange(m, n));
    lemma_blen_add(s.take(m), s.subrange(m, n));
    lemma_blen_ge_len(s.subrange(m, n));
}

/// At most one character prefix ends at a given byte offset.
pub proof fn lemma_boundary_unique(s: Seq<char>, n1: int, n2: int)
    requires
        0 <= n1 <= s.len(),
        0 <= n2 <= s.len(),
        blen(s.take(n1)) == blen(s.take(n2)),
    ensures
        n1 == n2,
{
    if n1 < n2 {
        lemma_blen_take_mono(s, n1, n2);
    }
    if n2 < n1 {
        lemma_blen_take_mono(s, n2, n1);
    }
}

/// The byte length of a subrange is the difference of the prefix byte
/// lengths at its two ends.
pub proof fn lemma_blen_subrange(s: Seq<char>, a: int, b: int)
    requires
        0 <= a <= b <= s.len(),
    ensures
        blen(s.subrange(a, b)) == blen(s.take(b)) - blen(s.take(a)),
{
    assert(s.take(b) =~= s.take(a) + s.subrange(a, b));
    lemma_blen_add(s.take(a), s.subrange(a, b));
}

/// `blen` agrees with the length of the UTF-8 encoding that vstd's
/// string specifications are phrased over, so `str::len` returns
/// `blen` of the string's characters.
pub proof fn lemma_blen_is_encoding_len(s: Seq<char>)
    ensures
        blen(s) == encode_utf8(s).len(),
    decreases s.len(),
{
    if s.len() > 0 {
        vstd::utf8::char_is_scalar(s[0]);
        assert(encode_scalar(s[0] as u32).len() == char_len(s[0]));
        lemma_blen_is_encoding_len(s.drop_first());
    }
}

} // verus!
