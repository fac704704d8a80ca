//! The plugin itself: the dispatcher-level decisions behind each host
//! callback, phrased over the plain values the host hands in.

use vstd::prelude::*;

verus! {

use vstd::string::StrSliceExecFns;
use crate::complete::{is_candidate, lex_lt};
use crate::edit::{CompletionItem, CompletionResponse};
use crate::scan::{boundary_chars, lemma_last_ws_end_props, word_begin, word_chars, word_start_bytes};
use crate::text::{blen, char_boundary, lemma_blen_subrange};

/// The word-completion plugin.  It keeps no state of its own: every
/// callback re-derives what it needs from the values the host supplies.
///
/// The behaviour lives in associated functions spread over the modules
/// of this crate: word scanning in [`crate::scan`], completion candidates
/// in [`crate::complete`], and edit construction in [`crate::edit`].
pub struct SamplePlugin;

/// What a well-formed completion reply holds, for a request on `line`
/// (whose absolute byte offset is `line_start`) at cursor byte offset
/// `pos`, against the document text `doc` of `buf_size` bytes: every
/// item's label is a candidate for the word ending at `pos`, the labels
/// are strictly ascending, every candidate appears, each item's edit
/// replaces the word's span with the label, and an empty query word
/// yields no items.
pub open spec fn completion_items_ok(
    items: Seq<CompletionItem>,
    line: Seq<char>,
    line_start: int,
    pos: int,
    doc: Seq<char>,
    buf_size: int,
) -> bool {
    let k = pos - line_start;
    let word = word_chars(line, k);
    let ws = line_start + word_start_bytes(line, k);
    &&& (forall|p: int|
        0 <= p < items.len() ==> {
            &&& is_candidate(word, doc, (#[trigger] items[p]).label@)
            &&& items[p].edit matches Some(e) && e.start == ws && e.end == pos && e.text@
                == items[p].label@ && e.base_len == buf_size && e.wf()
        })
    &&& (forall|p: int, q: int|
        0 <= p < q < items.len() ==> lex_lt(
            (#[trigger] items[p]).label@,
            (#[trigger] items[q]).label@,
        ))
    &&& (word.len() > 0 ==> (forall|w: Seq<char>|
        is_candidate(word, doc, w) ==> exists|p: int|
            0 <= p < items.len() && (#[trigger] items[p]).label@ == w))
    &&& (word.len() == 0 ==> items.len() == 0)
}

impl SamplePlugin {
    /// The decision behind the `update` callback: an edit is issued if
    /// and only if the triggering insertion is exactly the single
    /// character `!`, and then the capitalization runs at the
    /// insertion's end offset.  `inserted` is the text of a simple
    /// insertion, if the update was one.
    pub fn update_action(inserted: Option<&str>, end_offset: usize) -> (r: Option<usize>)
        ensures
            (r is Some) <==> (inserted matches Some(s) && s@ == seq!['!']),
            r matches Some(e) ==> e == end_offset,
    {
        match inserted {
            Some(s) => {
                if s.unicode_len() == 1 && s.get_char(0) == '!' {
                    proof {
                        assert(s@ =~= seq!['!']);
                    }
                    Some(end_offset)
                } else {
                    proof {
                        if s@ == seq!['!'] {
                            assert(s@.len() == 1 && s@[0] == '!');
                        }
                    }
                    None
                }
            },
            None => None,
        }
    }

    /// The completion engine: the completion items for a request on
    /// `line` at cursor byte offset `pos`, drawn from the document text
    /// `doc`.  Each item pairs a candidate with the edit that replaces
    /// the query word's span by that candidate.
    pub fn word_completions(
        line: &str,
        line_start: usize,
        pos: usize,
        doc: &str,
        buf_size: usize,
    ) -> (r: Vec<CompletionItem>)
        requires
            line_start <= pos,
            char_boundary(line@, pos - line_start),
            pos <= buf_size,
        ensures
            completion_items_ok(r@, line@, line_start as int, pos as int, doc@, buf_size as int),
    {
        let ghost k = pos - line_start;
        let ghost wd = word_chars(line@, k as int);
        let (word_off, word) = Self::get_word_at_offset(line, line_start, pos);
        proof {
            let n = boundary_chars(line@, k as int);
            assert(0 <= n <= line@.len() && blen(line@.take(n)) == k as int);
            lemma_last_ws_end_props(line@.take(n));
            lemma_blen_subrange(line@, word_begin(line@, k as int), n);
            assert(word_off + blen(wd) == pos);
        }
        let cands = Self::complete_word(word.as_str(), doc);
        let items = Self::make_completions(cands, word.as_str(), word_off, buf_size);
        proof {
            let itemsv = items@;
            let candsv = cands@;
            assert forall|w: Seq<char>|
                wd.len() > 0 && is_candidate(wd, doc@, w) implies exists|p: int|
                0 <= p < itemsv.len() && (#[trigger] itemsv[p]).label@ == w by {
                assert(crate::complete::contains_view(candsv, w));
                let p = choose|p: int| 0 <= p < candsv.len() && #[trigger] candsv[p]@ == w;
                assert(itemsv[p].label@ == w);
            }
        }
        items
    }

    /// The reply to a completion request: the items from
    /// [`Self::word_completions`], marked complete (`is_incomplete`
    /// false) and immediately usable (`can_resolve` false).
    pub fn completions(line: &str, line_start: usize, pos: usize, doc: &str, buf_size: usize) -> (r:
        CompletionResponse)
        requires
            line_start <= pos,
            char_boundary(line@, pos - line_start),
            pos <= buf_size,
        ensures
            r.is_incomplete == false,
            r.can_resolve == false,
            completion_items_ok(
                r.items@,
                line@,
                line_start as int,
                pos as int,
                doc@,
                buf_size as int,
            ),
    {
        let items = Self::word_completions(line, line_start, pos, doc, buf_size);
        CompletionResponse { is_incomplete: false, can_resolve: false, items }
    }
}

} // verus!
