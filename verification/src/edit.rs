//! Edit construction: the plain description of a document mutation, the
//! completion items that carry one, and the builders that produce them.
//!
//! An edit names a half-open byte range of the document and the text
//! that replaces it, against a stated base document length.  The host
//! turns these descriptions into its own delta representation when it
//! applies them.

use vstd::prelude::*;

verus! {

use crate::plugin::SamplePlugin;
use crate::scan::{word_chars, word_start_bytes};
use crate::text::{blen, char_boundary, lemma_blen_is_encoding_len, upper_of, uppercase};

/// A document mutation: replace the half-open byte range
/// `[start, end)` with `text`, stated against a document of `base_len`
/// bytes.  The replacement text's byte length may differ from the
/// range's length; in particular uppercasing non-ASCII text can change
/// the byte length.
pub struct Edit {
    /// Byte offset where the replaced range begins.
    pub start: usize,
    /// Byte offset just past the replaced range.
    pub end: usize,
    /// The text that replaces the range.
    pub text: String,
    /// Byte length of the document the edit is stated against.
    pub base_len: usize,
}

impl Edit {
    /// The replaced range is ordered and lies within the document.
    pub open spec fn wf(self) -> bool {
        self.start <= self.end <= self.base_len
    }
}

/// A completion candidate: a label, with the edit that applies it when
/// the candidate is accepted.
pub struct CompletionItem {
    /// The candidate text offered to the user.
    pub label: String,
    /// The edit that replaces the query word with the label.
    pub edit: Option<Edit>,
}

/// The reply to a completion request.  The item list is always complete
/// and immediately usable: no further round trip refines it.
pub struct CompletionResponse {
    /// Whether further requests could add items; always false here.
    pub is_incomplete: bool,
    /// Whether items need a resolve round trip; always false here.
    pub can_resolve: bool,
    /// The candidates, each with its own precomputed edit.
    pub items: Vec<CompletionItem>,
}

impl SamplePlugin {
    /// The edit that capitalizes the word ending at `end_offset`: it
    /// replaces the word's span with the word's uppercase transform.
    /// `line` is the line containing the offset, `line_start` the
    /// line's absolute byte offset, and `buf_size` the document's byte
    /// length.
    pub fn capitalize_word(line: &str, line_start: usize, end_offset: usize, buf_size: usize) -> (r:
        Edit)
        requires
            line_start <= end_offset,
            char_boundary(line@, end_offset - line_start),
            end_offset <= buf_size,
        ensures
            r.start == line_start + word_start_bytes(line@, end_offset - line_start),
            r.end == end_offset,
            r.text@ == upper_of(word_chars(line@, end_offset - line_start)),
            r.base_len == buf_size,
            r.wf(),
    {
        let (word_off, word) = Self::get_word_at_offset(line, line_start, end_offset);
        let new_text = uppercase(word.as_str());
        Edit { start: word_off, end: end_offset, text: new_text, base_len: buf_size }
    }

    /// Builds one completion item per candidate label: the label itself,
    /// and an edit replacing the query word's span `[word_off,
    /// word_off + word byte length)` with the label, against a document
    /// of `buf_size` bytes.
    pub fn make_completions(words: Vec<String>, word: &str, word_off: usize, buf_size: usize) -> (r:
        Vec<CompletionItem>)
        requires
            word_off + blen(word@) <= buf_size,
        ensures
            r@.len() == words@.len(),
            forall|p: int|
                0 <= p < r@.len() ==> {
                    &&& (#[trigger] r@[p]).label@ == words@[p]@
                    &&& r@[p].edit matches Some(e) && e.start == word_off && e.end == word_off
                        + blen(word@) && e.text@ == words@[p]@ && e.base_len == buf_size && e.wf()
                },
    {
        proof {
            lemma_blen_is_encoding_len(word@);
        }
        let wlen: usize = word.len();
        let n: usize = words.len();
        let mut items: Vec<CompletionItem> = Vec::new();
        let mut p: usize = 0;
        while p < n
            invariant
                n == words@.len(),
                0 <= p <= n,
                wlen == blen(word@),
                word_off + wlen <= buf_size,
                items@.len() == p,
                forall|q: int|
                    0 <= q < p ==> {
                        &&& (#[trigger] items@[q]).label@ == words@[q]@
                        &&& items@[q].edit matches Some(e) && e.start == word_off && e.end
                            == word_off + wlen && e.text@ == words@[q]@ && e.base_len == buf_size
                            && e.wf()
                    },
            decreases n - p,
        {
            let label = words[p].clone();
            let replacement = words[p].clone();
            let edit = Edit {
                start: word_off,
                end: word_off + wlen,
                text: replacement,
                base_len: buf_size,
            };
            items.push(CompletionItem { label, edit: Some(edit) });
            p = p + 1;
        }
        items
    }
}

} // verus!
