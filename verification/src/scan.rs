//! The word-boundary scanner: given a line of text and a byte offset into
//! it, find where the word ending at that offset begins.
//!
//! The scanner walks the line's characters left to right, accumulating
//! consumed byte length; each whitespace character moves the candidate
//! word start to the position immediately after it, and the walk stops
//! once the accumulated length reaches the target offset.

use vstd::prelude::*;

verus! {

use vstd::string::StrSliceExecFns;
use crate::plugin::SamplePlugin;
use crate::text::{
    blen, char_boundary, char_len, lemma_blen_ge_len, lemma_blen_take_mono, lemma_blen_take_succ,
    lemma_boundary_unique, whitespace_char,
};

/// Number of characters of `s` up to and including its last whitespace
/// character, or 0 when `s` holds no whitespace.
pub open spec fn last_ws_end(s: Seq<char>) -> int
    decreases s.len(),
{
    if s.len() == 0 {
        0
    } else if whitespace_char(s.last()) {
        s.len() as int
    } else {
        last_ws_end(s.drop_last())
    }
}

/// The count of characters of `s` that occupy its first `k` bytes;
/// meaningful when `k` is a character boundary of `s`.
pub open spec fn boundary_chars(s: Seq<char>, k: int) -> int {
    choose|n: int| 0 <= n <= s.len() && blen(#[trigger] s.take(n)) == k
}

/// Character index where the word ending at byte offset `k` begins.
pub open spec fn word_begin(s: Seq<char>, k: int) -> int {
    last_ws_end(s.take(boundary_chars(s, k)))
}

/// Byte offset, from the start of the line, where the word ending at
/// byte offset `k` begins.
pub open spec fn word_start_bytes(s: Seq<char>, k: int) -> int {
    blen(s.take(word_begin(s, k)))
}

/// The characters of the word ending at byte offset `k`: everything
/// between the word's start and the offset.
pub open spec fn word_chars(s: Seq<char>, k: int) -> Seq<char> {
    s.subrange(word_begin(s, k), boundary_chars(s, k))
}

/// `last_ws_end` names a position within the sequence that is 0 or
/// immediately follows a whitespace character, with no whitespace at or
/// after it.
pub proof fn lemma_last_ws_end_props(s: Seq<char>)
    ensures
        0 <= last_ws_end(s) <= s.len(),
        forall|i: int| last_ws_end(s) <= i < s.len() ==> !whitespace_char(s[i]),
        last_ws_end(s) == 0 || whitespace_char(s[last_ws_end(s) - 1]),
    decreases s.len(),
{
    if s.len() == 0 {
    } else if whitespace_char(s.last()) {
    } else {
        lemma_last_ws_end_props(s.drop_last());
        assert forall|i: int| last_ws_end(s) <= i < s.len() implies !whitespace_char(s[i]) by {
            if i < s.len() - 1 {
                assert(s.drop_last()[i] == s[i]);
            }
        }
    }
}

/// The word found at byte offset `k` starts at or before `k`: its start
/// is 0 when no whitespace precedes the offset, and otherwise lies
/// immediately after the nearest whitespace character before it; the
/// word itself holds no whitespace.
pub proof fn lemma_word_start_after_nearest_whitespace(s: Seq<char>, k: int)
    requires
        char_boundary(s, k),
    ensures
        0 <= word_start_bytes(s, k) <= k,
        forall|i: int| word_begin(s, k) <= i < boundary_chars(s, k) ==> !whitespace_char(s[i]),
        word_begin(s, k) == 0 || whitespace_char(s[word_begin(s, k) - 1]),
{
    let n = boundary_chars(s, k);
    assert(0 <= n <= s.len() && blen(s.take(n)) == k);
    let p = s.take(n);
    lemma_last_ws_end_props(p);
    let w = last_ws_end(p);
    lemma_blen_take_mono(s, 0, w);
    assert(s.take(w) =~= p.take(w));
    lemma_blen_take_mono(s, w, n);
    assert forall|i: int| w <= i < n implies !whitespace_char(s[i]) by {
        assert(p[i] == s[i]);
    }
    if w != 0 {
        assert(p[w - 1] == s[w - 1]);
    }
}

impl SamplePlugin {
    /// Finds the word ending at the absolute byte offset `offset`, where
    /// `line` is the line containing that offset and `line_start` is the
    /// line's own absolute byte offset.  Returns the word's absolute
    /// start offset and its text.
    pub fn get_word_at_offset(line: &str, line_start: usize, offset: usize) -> (r: (usize, String))
        requires
            line_start <= offset,
            char_boundary(line@, offset - line_start),
        ensures
            r.0 == line_start + word_start_bytes(line@, offset - line_start),
            r.1@ == word_chars(line@, offset - line_start),
            line_start <= r.0 <= offset,
    {
        let k = offset - line_start;
        let mut ci: usize = 0;
        let mut bi: usize = 0;
        let mut ws_ci: usize = 0;
        let mut ws_bi: usize = 0;
        while bi < k
            invariant
                line_start <= offset,
                k == offset - line_start,
                char_boundary(line@, k as int),
                0 <= ci <= line@.len(),
                bi == blen(line@.take(ci as int)),
                ci <= bi <= k,
                ws_ci == last_ws_end(line@.take(ci as int)),
                ws_bi == blen(line@.take(ws_ci as int)),
                ws_ci <= ci,
                ws_bi <= bi,
            decreases k - bi,
        {
            proof {
                let n = choose|n: int|
                    0 <= n <= line@.len() && blen(#[trigger] line@.take(n)) == k as int;
                if n <= ci {
                    lemma_blen_take_mono(line@, n, ci as int);
                }
                assert(ci < n);
                lemma_blen_take_succ(line@, ci as int);
                lemma_blen_take_mono(line@, ci as int + 1, n);
                lemma_blen_ge_len(line@.take(ci as int + 1));
            }
            let c = line.get_char(ci);
            let cl = c.len_utf8();
            proof {
                assert(line@.take(ci as int + 1).last() == line@[ci as int]);
                assert(line@.take(ci as int + 1).drop_last() =~= line@.take(ci as int));
            }
            ci = ci + 1;
            bi = bi + cl;
            if c.is_whitespace() {
                ws_ci = ci;
                ws_bi = bi;
            }
        }
        proof {
            let n = boundary_chars(line@, k as int);
            assert(0 <= n <= line@.len() && blen(line@.take(n)) == k as int);
            lemma_boundary_unique(line@, n, ci as int);
        }
        let word = line.substring_char(ws_ci, ci);
        (line_start + ws_bi, word.to_owned())
    }
}

} // verus!
