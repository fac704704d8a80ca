//! The completion engine: tokenize the document text by splitting on
//! non-alphanumeric characters, keep the tokens that extend the query
//! word, and hand them back deduplicated in ascending lexicographic
//! order.

use vstd::prelude::*;

verus! {

use vstd::string::StrSliceExecFns;
use crate::plugin::SamplePlugin;
use crate::text::alnum_char;

/// `p` is a prefix of `w`.  Over valid UTF-8 text a character-wise
/// prefix is the same thing as a byte-wise prefix.
pub open spec fn is_prefix(p: Seq<char>, w: Seq<char>) -> bool {
    p.len() <= w.len() && p == w.subrange(0, p.len() as int)
}

/// `[i, j)` spans a maximal alphanumeric run of `t`: every character
/// inside is alphanumeric and the run can be extended on neither side.
pub open spec fn is_token_at(t: Seq<char>, i: int, j: int) -> bool {
    &&& 0 <= i < j <= t.len()
    &&& (forall|x: int| i <= x < j ==> alnum_char(#[trigger] t[x]))
    &&& (i == 0 || !alnum_char(t[i - 1]))
    &&& (j == t.len() || !alnum_char(t[j]))
}

/// `w` is a completion candidate for the query `word` in `text`: a token
/// of `text` that `word` prefixes and that is strictly longer than
/// `word`.
pub open spec fn is_candidate(word: Seq<char>, text: Seq<char>, w: Seq<char>) -> bool {
    &&& exists|i: int, j: int| #[trigger] is_token_at(text, i, j) && w == text.subrange(i, j)
    &&& is_prefix(word, w)
    &&& w.len() > word.len()
}

/// Lexicographic order on character sequences, by scalar value.  Over
/// valid UTF-8 this agrees with byte-wise lexicographic order on the
/// encoded strings.
pub open spec fn lex_lt(a: Seq<char>, b: Seq<char>) -> bool
    decreases a.len(),
{
    if b.len() == 0 {
        false
    } else if a.len() == 0 {
        true
    } else if (a[0] as u32) < (b[0] as u32) {
        true
    } else if a[0] == b[0] {
        lex_lt(a.drop_first(), b.drop_first())
    } else {
        false
    }
}

/// The labels of `v` are in strictly ascending lexicographic order.
pub open spec fn sorted_strict(v: Seq<String>) -> bool {
    forall|p: int, q: int| 0 <= p < q < v.len() ==> lex_lt(#[trigger] v[p]@, #[trigger] v[q]@)
}

/// Some element of `v` reads `w`.
pub open spec fn contains_view(v: Seq<String>, w: Seq<char>) -> bool {
    exists|p: int| 0 <= p < v.len() && #[trigger] v[p]@ == w
}

/// Nothing is lexicographically below itself.
pub proof fn lemma_lex_lt_irrefl(a: Seq<char>)
    ensures
        !lex_lt(a, a),
    decreases a.len(),
{
    if a.len() > 0 {
        lemma_lex_lt_irrefl(a.drop_first());
    }
}

/// Two sequences are lexicographically ordered one way or the other, or
/// they are equal.
pub proof fn lemma_lex_lt_trichotomy(a: Seq<char>, b: Seq<char>)
    ensures
        lex_lt(a, b) || lex_lt(b, a) || a == b,
    decreases a.len(),
{
    if a.len() == 0 && b.len() == 0 {
        assert(a =~= b);
    } else if a.len() > 0 && b.len() > 0 {
        if (a[0] as u32) == (b[0] as u32) {
            vstd::utf8::char_u32_cast(a[0], a[0] as u32);
            vstd::utf8::char_u32_cast(b[0], b[0] as u32);
            assert(a[0] == b[0]);
            lemma_lex_lt_trichotomy(a.drop_first(), b.drop_first());
            if a.drop_first() == b.drop_first() {
                assert(a.drop_first().len() == b.drop_first().len());
                assert(a.len() == b.len());
                assert forall|x: int| 0 <= x < a.len() implies a[x] == b[x] by {
                    if x > 0 {
                        assert(a.drop_first()[x - 1] == a[x]);
                        assert(b.drop_first()[x - 1] == b[x]);
                    }
                }
                assert(a =~= b);
            }
        }
    }
}

/// Lexicographic order is transitive.
pub proof fn lemma_lex_lt_trans(a: Seq<char>, b: Seq<char>, c: Seq<char>)
    requires
        lex_lt(a, b),
        lex_lt(b, c),
    ensures
        lex_lt(a, c),
    decreases a.len(),
{
    if a.len() > 0 && b.len() > 0 && c.len() > 0 {
        if a[0] == b[0] && b[0] == c[0] {
            lemma_lex_lt_trans(a.drop_first(), b.drop_first(), c.drop_first());
        }
    }
}

/// A strictly sorted label list holds no duplicates: distinct positions
/// hold distinct labels.
pub proof fn lemma_sorted_strict_distinct(v: Seq<String>)
    requires
        sorted_strict(v),
    ensures
        forall|p: int, q: int| 0 <= p < q < v.len() ==> #[trigger] v[p]@ != #[trigger] v[q]@,
{
    assert forall|p: int, q: int| 0 <= p < q < v.len() implies #[trigger] v[p]@ != #[trigger] v[q]@ by {
        if v[p]@ == v[q]@ {
            lemma_lex_lt_irrefl(v[p]@);
        }
    }
}

/// When the first `i` characters agree, the order of two sequences is
/// the order of their remainders.
proof fn lemma_lex_lt_skip(a: Seq<char>, b: Seq<char>, i: int)
    requires
        0 <= i <= a.len(),
        i <= b.len(),
        forall|j: int| 0 <= j < i ==> a[j] == b[j],
    ensures
        lex_lt(a, b) == lex_lt(a.skip(i), b.skip(i)),
    decreases i,
{
    if i > 0 {
        assert(a[0] == b[0]);
        lemma_lex_lt_skip(a.drop_first(), b.drop_first(), i - 1);
        assert(a.drop_first().skip(i - 1) =~= a.skip(i));
        assert(b.drop_first().skip(i - 1) =~= b.skip(i));
    } else {
        assert(a.skip(0) =~= a);
        assert(b.skip(0) =~= b);
    }
}

/// Decides the lexicographic order of two strings.
fn str_lt(a: &str, b: &str) -> (r: bool)
    ensures
        r == lex_lt(a@, b@),
{
    let an: usize = a.unicode_len();
    let bn: usize = b.unicode_len();
    let mut i: usize = 0;
    while i < an && i < bn
        invariant
            an == a@.len(),
            bn == b@.len(),
            0 <= i <= an,
            i <= bn,
            forall|j: int| 0 <= j < i ==> a@[j] == b@[j],
        decreases an - i,
    {
        let ca = a.get_char(i);
        let cb = b.get_char(i);
        if ca != cb {
            proof {
                lemma_lex_lt_skip(a@, b@, i as int);
                vstd::utf8::char_u32_cast(ca, ca as u32);
                vstd::utf8::char_u32_cast(cb, cb as u32);
                assert(a@.skip(i as int)[0] == ca);
                assert(b@.skip(i as int)[0] == cb);
            }
            return (ca as u32) < (cb as u32);
        }
        i = i + 1;
    }
    proof {
        lemma_lex_lt_skip(a@, b@, i as int);
    }
    an < bn
}

/// Decides whether `p` is a prefix of `w`.
fn is_prefix_of(p: &str, w: &str) -> (r: bool)
    ensures
        r == is_prefix(p@, w@),
{
    let pn: usize = p.unicode_len();
    let wn: usize = w.unicode_len();
    if pn > wn {
        return false;
    }
    let mut i: usize = 0;
    while i < pn
        invariant
            pn == p@.len(),
            wn == w@.len(),
            pn <= wn,
            0 <= i <= pn,
            forall|j: int| 0 <= j < i ==> p@[j] == w@[j],
        decreases pn - i,
    {
        if p.get_char(i) != w.get_char(i) {
            proof {
                if is_prefix(p@, w@) {
                    assert(p@[i as int] == w@.subrange(0, p@.len() as int)[i as int]);
                }
            }
            return false;
        }
        i = i + 1;
    }
    proof {
        assert(p@ =~= w@.subrange(0, p@.len() as int));
    }
    true
}

/// Inserts `s` into the strictly sorted list `v`, keeping it strictly
/// sorted; a label already present is not added again.
fn insert_sorted(v: &mut Vec<String>, s: String)
    requires
        sorted_strict(old(v)@),
    ensures
        sorted_strict(final(v)@),
        forall|w: Seq<char>|
            #[trigger] contains_view(final(v)@, w) == (contains_view(old(v)@, w) || w == s@),
{
    let ghost v0 = v@;
    let n: usize = v.len();
    let mut i: usize = 0;
    let mut found_ge: bool = false;
    while !found_ge && i < n
        invariant
            v@ == v0,
            n == v0.len(),
            0 <= i <= n,
            forall|p: int| 0 <= p < i ==> lex_lt(#[trigger] v0[p]@, s@),
            found_ge ==> i < n && !lex_lt(v0[i as int]@, s@),
        decreases n - i, (if found_ge { 0int } else { 1int }),
    {
        if str_lt(v[i].as_str(), s.as_str()) {
            i = i + 1;
        } else {
            found_ge = true;
        }
    }
    if found_ge && v[i] == s {
        assert(contains_view(v@, s@));
        assert forall|w: Seq<char>|
            #[trigger] contains_view(v@, w) == (contains_view(v0, w) || w == s@) by {};
        return ;
    }
    proof {
        if found_ge {
            lemma_lex_lt_trichotomy(v0[i as int]@, s@);
            assert(lex_lt(s@, v0[i as int]@));
        }
    }
    let ghost inserted_at = i as int;
    v.insert(i, s);
    proof {
        assert forall|p: int, q: int| 0 <= p < q < v@.len() implies lex_lt(
            #[trigger] v@[p]@,
            #[trigger] v@[q]@,
        ) by {
            if q < inserted_at {
                assert(v@[p]@ == v0[p]@ && v@[q]@ == v0[q]@);
            } else if p < inserted_at && q == inserted_at {
                assert(v@[p]@ == v0[p]@);
            } else if p < inserted_at && q > inserted_at {
                assert(v@[p]@ == v0[p]@ && v@[q]@ == v0[q - 1]@);
                assert(0 <= p < q - 1 < v0.len());
            } else if p == inserted_at {
                assert(v@[q]@ == v0[q - 1]@);
                if inserted_at < q - 1 {
                    lemma_lex_lt_trans(s@, v0[inserted_at]@, v0[q - 1]@);
                }
            } else {
                assert(v@[p]@ == v0[p - 1]@ && v@[q]@ == v0[q - 1]@);
            }
        }
        assert forall|w: Seq<char>|
            #[trigger] contains_view(v@, w) == (contains_view(v0, w) || w == s@) by {
            if contains_view(v@, w) {
                let p = choose|p: int| 0 <= p < v@.len() && #[trigger] v@[p]@ == w;
                if p < inserted_at {
                    assert(v0[p]@ == w);
                } else if p > inserted_at {
                    assert(v0[p - 1]@ == w);
                }
            }
            if w == s@ {
                assert(v@[inserted_at]@ == w);
            }
            if contains_view(v0, w) {
                let p = choose|p: int| 0 <= p < v0.len() && #[trigger] v0[p]@ == w;
                if p < inserted_at {
                    assert(v@[p]@ == w);
                } else {
                    assert(v@[p + 1]@ == w);
                }
            }
        }
    }
}

impl SamplePlugin {
    /// Completion candidates for the query `word` within `text`: the
    /// tokens of `text` (maximal alphanumeric runs) that `word`
    /// prefixes and that are strictly longer than `word`, without
    /// duplicates, in ascending lexicographic order.  An empty query
    /// always yields an empty result.
    pub fn complete_word(word: &str, text: &str) -> (r: Vec<String>)
        ensures
            word@.len() == 0 ==> r@.len() == 0,
            sorted_strict(r@),
            forall|p: int| 0 <= p < r@.len() ==> is_candidate(word@, text@, #[trigger] r@[p]@),
            word@.len() > 0 ==> (forall|w: Seq<char>|
                is_candidate(word@, text@, w) ==> contains_view(r@, w)),
    {
        let mut out: Vec<String> = Vec::new();
        if word.is_empty() {
            return out;
        }
        let wn: usize = word.unicode_len();
        let n: usize = text.unicode_len();
        let mut i: usize = 0;
        while i < n
            invariant
                wn == word@.len(),
                n == text@.len(),
                word@.len() > 0,
                0 <= i <= n,
                sorted_strict(out@),
                forall|p: int|
                    0 <= p < out@.len() ==> is_candidate(word@, text@, #[trigger] out@[p]@),
                i == 0 || i == n || !alnum_char(text@[i - 1]) || !alnum_char(text@[i as int]),
                forall|i2: int, j2: int|
                    #[trigger] is_token_at(text@, i2, j2) ==> j2 <= i || i2 >= i,
                forall|i2: int, j2: int|
                    #[trigger] is_token_at(text@, i2, j2) && j2 <= i && is_prefix(
                        word@,
                        text@.subrange(i2, j2),
                    ) && j2 - i2 > word@.len() ==> contains_view(out@, text@.subrange(i2, j2)),
            decreases n - i,
        {
            if text.get_char(i).is_alphanumeric() {
                let ghost start = i as int;
                let mut j: usize = i + 1;
                let mut done: bool = false;
                while !done
                    invariant
                        n == text@.len(),
                        start == i,
                        0 <= i < n,
                        i < j <= n,
                        forall|x: int| i <= x < j ==> alnum_char(#[trigger] text@[x]),
                        done ==> j == n || !alnum_char(text@[j as int]),
                    decreases n - j, (if done { 0int } else { 1int }),
                {
                    if j < n {
                        if text.get_char(j).is_alphanumeric() {
                            j = j + 1;
                        } else {
                            done = true;
                        }
                    } else {
                        done = true;
                    }
                }
                proof {
                    assert(is_token_at(text@, i as int, j as int));
                }
                let token = text.substring_char(i, j);
                let ghost tok = token@;
                let ghost out0 = out@;
                let long_enough = j - i > wn;
                let pref = is_prefix_of(word, token);
                let qual = long_enough && pref;
                proof {
                    assert(tok == text@.subrange(start, j as int));
                    assert(tok.len() == j as int - start);
                    assert(qual == (is_prefix(word@, tok) && tok.len() > word@.len()));
                }
                if qual {
                    insert_sorted(&mut out, token.to_owned());
                    proof {
                        assert(is_candidate(word@, text@, tok)) by {
                            assert(is_token_at(text@, start, j as int) && tok == text@.subrange(
                                start,
                                j as int,
                            ));
                        }
                        assert forall|p: int| 0 <= p < out@.len() implies is_candidate(
                            word@,
                            text@,
                            #[trigger] out@[p]@,
                        ) by {
                            assert(contains_view(out@, out@[p]@));
                            if contains_view(out0, out@[p]@) {
                                let p0 = choose|p0: int|
                                    0 <= p0 < out0.len() && #[trigger] out0[p0]@ == out@[p]@;
                            }
                        }
                    }
                }
                proof {
                    let t = text@;
                    assert forall|i2: int, j2: int|
                        #[trigger] is_token_at(t, i2, j2) implies j2 <= j as int || i2
                        >= j as int by {
                        if i2 < j as int && j2 > start {
                            if i2 > start && i2 < j as int {
                                assert(alnum_char(t[i2 - 1]));
                            }
                            if i2 < start {
                                assert(j2 <= start || i2 >= start);
                            }
                            if i2 == start && j2 != j as int {
                                if j2 < j as int {
                                    assert(alnum_char(t[j2]));
                                } else {
                                    assert(alnum_char(t[j as int]));
                                }
                            }
                        }
                    }
                    assert forall|i2: int, j2: int|
                        #[trigger] is_token_at(t, i2, j2) && j2 <= j as int && is_prefix(
                            word@,
                            t.subrange(i2, j2),
                        ) && j2 - i2 > word@.len() implies contains_view(
                        out@,
                        t.subrange(i2, j2),
                    ) by {
                        if j2 > start {
                            if i2 > start && i2 < j2 {
                                assert(alnum_char(t[i2 - 1]));
                            }
                            if i2 < start {
                                assert(j2 <= start || i2 >= start);
                            }
                            assert(i2 == start && j2 == j as int);
                            assert(t.subrange(i2, j2).len() == j as int - start);
                        }
                    }
                }
                i = j;
            } else {
                proof {
                    let t = text@;
                    assert forall|i2: int, j2: int|
                        #[trigger] is_token_at(t, i2, j2) implies j2 <= i + 1 || i2 >= i
                        + 1 by {
                        if i2 == i as int {
                            assert(alnum_char(t[i as int]));
                        }
                    }
                    assert forall|i2: int, j2: int|
                        #[trigger] is_token_at(t, i2, j2) && j2 <= i + 1 && is_prefix(
                            word@,
                            t.subrange(i2, j2),
                        ) && j2 - i2 > word@.len() implies contains_view(
                        out@,
                        t.subrange(i2, j2),
                    ) by {
                        if j2 == i + 1 {
                            assert(alnum_char(t[i as int]));
                        }
                    }
                }
                i = i + 1;
            }
        }
        proof {
            assert forall|w: Seq<char>| is_candidate(word@, text@, w) implies contains_view(
                out@,
                w,
            ) by {
                let (i2, j2) = choose|i2: int, j2: int|
                    #[trigger] is_token_at(text@, i2, j2) && w == text@.subrange(i2, j2);
                assert(w.len() == j2 - i2);
            }
        }
        out
    }
}

} // verus!
