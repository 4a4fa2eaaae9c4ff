//! The textual model: whitespace trimming, comma splitting, and the
//! normalization of a raw delimited text into its ordered list of non-empty
//! trimmed tokens.

use vstd::prelude::*;
use vstd::string::*;

verus! {

/// What `char::is_whitespace` returns for a character; the result depends on
/// the character alone.
pub uninterp spec fn is_unicode_space(c: char) -> bool;

/// Relies on `char::is_whitespace`: whether the character has the Unicode
/// `White_Space` property.
#[verifier::external_body]
fn is_space_char(c: char) -> (r: bool)
    ensures
        r == is_unicode_space(c),
{
    c.is_whitespace()
}

/// The sequence with its leading whitespace removed.
pub open spec fn trim_start(s: Seq<char>) -> Seq<char>
    decreases s.len(),
{
    if s.len() > 0 && is_unicode_space(s[0]) {
        trim_start(s.drop_first())
    } else {
        s
    }
}

/// The sequence with its trailing whitespace removed.
pub open spec fn trim_end(s: Seq<char>) -> Seq<char>
    decreases s.len(),
{
    if s.len() > 0 && is_unicode_space(s.last()) {
        trim_end(s.drop_last())
    } else {
        s
    }
}

/// The sequence with both leading and trailing whitespace removed.
pub open spec fn trim(s: Seq<char>) -> Seq<char> {
    trim_end(trim_start(s))
}

/// The segments of `s` between its commas, in order. An input without commas
/// is a single segment; every comma separates two (possibly empty) segments,
/// so the result always holds at least one segment.
pub open spec fn split_commas(s: Seq<char>) -> Seq<Seq<char>>
    decreases s.len(),
{
    if s.len() == 0 {
        seq![Seq::<char>::empty()]
    } else if s.last() == ',' {
        split_commas(s.drop_last()).push(Seq::<char>::empty())
    } else {
        let rest = split_commas(s.drop_last());
        rest.update(rest.len() - 1, rest.last().push(s.last()))
    }
}

/// Each token of the list, trimmed.
pub open spec fn seq_trim(ts: Seq<Seq<char>>) -> Seq<Seq<char>> {
    ts.map_values(|t: Seq<char>| trim(t))
}

/// Every comma-separated segment of `s`, trimmed, empties included.
pub open spec fn trimmed_segments(s: Seq<char>) -> Seq<Seq<char>> {
    seq_trim(split_commas(s))
}

/// Trims each token and keeps, in order, those that are non-empty afterwards.
pub open spec fn normalize_tokens(ts: Seq<Seq<char>>) -> Seq<Seq<char>>
    decreases ts.len(),
{
    if ts.len() == 0 {
        Seq::<Seq<char>>::empty()
    } else {
        let rest = normalize_tokens(ts.drop_last());
        let t = trim(ts.last());
        if t.len() > 0 {
            rest.push(t)
        } else {
            rest
        }
    }
}

/// The normalized list of a raw delimited text: split on commas, trim each
/// segment, drop the segments that are empty after trimming.
pub open spec fn normalize(s: Seq<char>) -> Seq<Seq<char>> {
    normalize_tokens(split_commas(s))
}

/// `split_commas` never yields an empty list of segments.
pub proof fn lemma_split_commas_len(s: Seq<char>)
    ensures
        split_commas(s).len() >= 1,
    decreases s.len(),
{
    if s.len() > 0 {
        lemma_split_commas_len(s.drop_last());
    }
}

/// The sequence neither starts nor ends with whitespace.
pub open spec fn is_trimmed(s: Seq<char>) -> bool {
    &&& (s.len() == 0 || !is_unicode_space(s[0]))
    &&& (s.len() == 0 || !is_unicode_space(s.last()))
}

proof fn lemma_trim_start_props(s: Seq<char>)
    ensures
        trim_start(s).len() == 0 || !is_unicode_space(trim_start(s)[0]),
        (s.len() == 0 || !is_unicode_space(s[0])) ==> trim_start(s) == s,
    decreases s.len(),
{
    if s.len() > 0 && is_unicode_space(s[0]) {
        lemma_trim_start_props(s.drop_first());
    }
}

proof fn lemma_trim_end_props(s: Seq<char>)
    ensures
        trim_end(s).len() == 0 || !is_unicode_space(trim_end(s).last()),
        (s.len() == 0 || !is_unicode_space(s.last())) ==> trim_end(s) == s,
        trim_end(s).len() <= s.len(),
        trim_end(s) == s.take(trim_end(s).len() as int),
    decreases s.len(),
{
    if s.len() > 0 && is_unicode_space(s.last()) {
        lemma_trim_end_props(s.drop_last());
        assert(s.drop_last() =~= s.take(s.len() - 1));
        assert(s.drop_last().take(trim_end(s).len() as int) =~= s.take(
            trim_end(s).len() as int,
        ));
    } else {
        assert(s =~= s.take(s.len() as int));
    }
}

/// A trimmed sequence trims to itself; trimming is idempotent.
pub proof fn lemma_trim_idempotent(s: Seq<char>)
    ensures
        is_trimmed(trim(s)),
        trim(trim(s)) == trim(s),
{
    let t1 = trim_start(s);
    let t = trim_end(t1);
    lemma_trim_start_props(s);
    lemma_trim_end_props(t1);
    if t.len() > 0 {
        assert(t1.take(t.len() as int)[0] == t1[0]);
    }
    lemma_trim_start_props(t);
    lemma_trim_end_props(t);
}

proof fn lemma_normalize_tokens_elems(ts: Seq<Seq<char>>)
    ensures
        forall|i: int|
            0 <= i < normalize_tokens(ts).len() ==> {
                let t = #[trigger] normalize_tokens(ts)[i];
                t.len() > 0 && trim(t) == t
            },
    decreases ts.len(),
{
    if ts.len() > 0 {
        lemma_normalize_tokens_elems(ts.drop_last());
        lemma_trim_idempotent(ts.last());
        let rest = normalize_tokens(ts.drop_last());
        let t = trim(ts.last());
        if t.len() > 0 {
            assert forall|i: int| 0 <= i < normalize_tokens(ts).len() implies {
                let u = #[trigger] normalize_tokens(ts)[i];
                u.len() > 0 && trim(u) == u
            } by {
                if i < rest.len() {
                    assert(normalize_tokens(ts)[i] == rest[i]);
                } else {
                    assert(normalize_tokens(ts)[i] == t);
                }
            }
        }
    }
}

proof fn lemma_normalize_tokens_fixed(ts: Seq<Seq<char>>)
    requires
        forall|i: int|
            0 <= i < ts.len() ==> {
                let t = #[trigger] ts[i];
                t.len() > 0 && trim(t) == t
            },
    ensures
        normalize_tokens(ts) == ts,
    decreases ts.len(),
{
    if ts.len() > 0 {
        lemma_normalize_tokens_fixed(ts.drop_last());
        assert(normalize_tokens(ts) =~= ts);
    } else {
        assert(normalize_tokens(ts) =~= ts);
    }
}

/// Normalization is idempotent: the tokens of a normalized list are already
/// trimmed and non-empty, so trimming each again and dropping the empties
/// again changes nothing.
pub proof fn lemma_normalize_idempotent(s: Seq<char>)
    ensures
        normalize_tokens(normalize(s)) == normalize(s),
{
    lemma_normalize_tokens_elems(split_commas(s));
    lemma_normalize_tokens_fixed(normalize(s));
}

/// The bounds of the trimmed part of `input[a..b]` (in characters).
fn trim_bounds(input: &str, a: usize, b: usize) -> (r: (usize, usize))
    requires
        a <= b <= input@.len(),
    ensures
        a <= r.0 <= r.1 <= b,
        input@.subrange(r.0 as int, r.1 as int) == trim(input@.subrange(a as int, b as int)),
{
    let whole = Ghost(input@.subrange(a as int, b as int));
    let mut lo = a;
    while lo < b && is_space_char(input.get_char(lo))
        invariant
            a <= lo <= b <= input@.len(),
            trim_start(input@.subrange(a as int, b as int)) == trim_start(
                input@.subrange(lo as int, b as int),
            ),
        decreases b - lo,
    {
        proof {
            let cur = input@.subrange(lo as int, b as int);
            assert(cur.drop_first() =~= input@.subrange(lo + 1, b as int));
        }
        lo = lo + 1;
    }
    proof {
        let cur = input@.subrange(lo as int, b as int);
        assert(trim_start(cur) == cur);
    }
    let mut hi = b;
    while hi > lo && is_space_char(input.get_char(hi - 1))
        invariant
            a <= lo <= hi <= b <= input@.len(),
            trim_end(input@.subrange(lo as int, b as int)) == trim_end(
                input@.subrange(lo as int, hi as int),
            ),
        decreases hi,
    {
        proof {
            let cur = input@.subrange(lo as int, hi as int);
            assert(cur.drop_last() =~= input@.subrange(lo as int, hi - 1));
        }
        hi = hi - 1;
    }
    proof {
        let cur = input@.subrange(lo as int, hi as int);
        assert(trim_end(cur) == cur);
    }
    (lo, hi)
}

/// Every comma-separated segment of `input`, trimmed, empties included, as
/// owned strings in source order.
pub fn split_segments(input: &str) -> (r: Vec<String>)
    ensures
        r.deep_view() == trimmed_segments(input@),
{
    let len = input.unicode_len();
    let mut r: Vec<String> = Vec::new();
    let mut seg_start: usize = 0;
    let mut i: usize = 0;
    let ghost mut toks: Seq<Seq<char>> = Seq::empty();
    proof {
        assert(input@.take(0) =~= Seq::<char>::empty());
        assert(input@.subrange(0, 0) =~= Seq::<char>::empty());
        assert(split_commas(input@.take(0)) =~= toks.push(input@.subrange(0, 0)));
    }
    while i < len
        invariant
            seg_start <= i <= len,
            len as nat == input@.len(),
            forall|j: int| seg_start <= j < i ==> input@[j] != ',',
            split_commas(input@.take(i as int)) == toks.push(
                input@.subrange(seg_start as int, i as int),
            ),
            r@.len() == toks.len(),
            forall|j: int| 0 <= j < toks.len() ==> r@[j]@ == trim(#[trigger] toks[j]),
        decreases len - i,
    {
        let ghost seg = input@.subrange(seg_start as int, i as int);
        let c = input.get_char(i);
        proof {
            assert(input@.take(i + 1).drop_last() =~= input@.take(i as int));
            assert(input@.take(i + 1).last() == input@[i as int]);
        }
        if c == ',' {
            let (lo, hi) = trim_bounds(input, seg_start, i);
            let piece = input.substring_char(lo, hi);
            r.push(piece.to_owned());
            proof {
                let prev = split_commas(input@.take(i as int));
                assert(split_commas(input@.take(i + 1)) == prev.push(Seq::<char>::empty()));
                toks = toks.push(seg);
                assert(input@.subrange(i + 1, i + 1) =~= Seq::<char>::empty());
                assert(split_commas(input@.take(i + 1)) =~= toks.push(
                    input@.subrange(i + 1, i + 1),
                ));
            }
            seg_start = i + 1;
        } else {
            proof {
                let prev = split_commas(input@.take(i as int));
                assert(prev.len() == toks.len() + 1);
                assert(prev.last() == seg);
                assert(split_commas(input@.take(i + 1)) == prev.update(
                    prev.len() - 1,
                    seg.push(input@[i as int]),
                ));
                assert(prev.update(prev.len() - 1, seg.push(input@[i as int])) =~= toks.push(
                    seg.push(input@[i as int]),
                ));
                assert(seg.push(input@[i as int]) =~= input@.subrange(seg_start as int, i + 1));
            }
        }
        i = i + 1;
    }
    let (lo, hi) = trim_bounds(input, seg_start, len);
    let piece = input.substring_char(lo, hi);
    r.push(piece.to_owned());
    proof {
        assert(input@.take(len as int) =~= input@);
        toks = toks.push(input@.subrange(seg_start as int, len as int));
        assert(toks == split_commas(input@));
        assert(r.deep_view() =~= trimmed_segments(input@));
    }
    r
}

/// The normalized list of a raw delimited text: its trimmed comma-separated
/// segments, the empty ones dropped, in source order.
pub fn normalize_list(input: &str) -> (r: Vec<String>)
    ensures
        r.deep_view() == normalize(input@),
{
    let segs = split_segments(input);
    let mut r: Vec<String> = Vec::new();
    let mut i: usize = 0;
    while i < segs.len()
        invariant
            i <= segs.len(),
            segs.deep_view() == trimmed_segments(input@),
            r.deep_view() == normalize_tokens(split_commas(input@).take(i as int)),
        decreases segs.len() - i,
    {
        let ghost split = split_commas(input@);
        proof {
            lemma_trim_idempotent(split[i as int]);
            assert(segs.deep_view().len() == split.len());
            assert(segs.deep_view()[i as int] == trim(split[i as int]));
            assert(segs[i as int]@ == trim(split[i as int]));
            assert(split.take(i + 1).drop_last() =~= split.take(i as int));
            assert(split.take(i + 1).last() == split[i as int]);
        }
        if !segs[i].as_str().is_empty() {
            r.push(segs[i].clone());
            proof {
                assert(r.deep_view() =~= normalize_tokens(split.take(i + 1)));
            }
        } else {
            proof {
                assert(r.deep_view() =~= normalize_tokens(split.take(i + 1)));
            }
        }
        i = i + 1;
    }
    proof {
        assert(split_commas(input@).take(segs.deep_view().len() as int) =~= split_commas(input@));
    }
    r
}

} // verus!
