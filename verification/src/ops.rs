use vstd::prelude::*;
use crate::engine::CompiledPattern;
use crate::engine::caps_ok;
use crate::engine::caps_seq_ok;
use crate::engine::captures_all_spec;
use crate::engine::captures_spec;
use crate::engine::engine_escape;
use crate::engine::engine_find;
use crate::engine::engine_find_all;
use crate::engine::engine_replace;
use crate::engine::escape_spec;
use crate::engine::replaced_spec;
use crate::engine::span0;
use crate::matching::Match;
use crate::matching::make_match;
use crate::text::bytes_thru;
use crate::text::char_index_of;
use crate::text::char_offset_of;
use crate::text::lemma_boundary_index;
use crate::text::lemma_char_index_mono;
use crate::text::lemma_char_index_of_bytes_thru;

verus! {

/// The characters of `text` covered by the byte span `sp`.
pub open spec fn matched_text(text: Seq<char>, sp: (usize, usize)) -> Seq<char> {
    text.subrange(char_index_of(text, sp.0 as int), char_index_of(text, sp.1 as int))
}

/// The whole-match byte spans of a run of matches.
pub open spec fn spans0_of(rows: Seq<Seq<Option<(usize, usize)>>>) -> Seq<(usize, usize)> {
    Seq::new(rows.len(), |i: int| span0(rows[i]))
}

/// The characters of `text` between match `i - 1` and match `i` of the given
/// whole-match byte spans; the run's ends stand in for the missing
/// neighbours.
pub open spec fn piece(text: Seq<char>, spans: Seq<(usize, usize)>, i: int) -> Seq<char> {
    let lo = if i == 0 {
        0
    } else {
        char_index_of(text, spans[i - 1].1 as int)
    };
    let hi = if i == spans.len() {
        text.len() as int
    } else {
        char_index_of(text, spans[i].0 as int)
    };
    text.subrange(lo, hi)
}

proof fn lemma_rows_caps_seq_ok(
    text: Seq<char>,
    rows: Seq<Vec<Option<(usize, usize)>>>,
    caps: Seq<Seq<Option<(usize, usize)>>>,
)
    requires
        rows.len() == caps.len(),
        forall|j: int| 0 <= j < rows.len() ==> (#[trigger] rows[j])@ == caps[j],
        forall|j: int| 0 <= j < rows.len() ==> caps_ok(text, (#[trigger] rows[j])@),
        forall|j: int|
            0 <= j < rows.len() - 1 ==> span0((#[trigger] rows[j])@).1 <= span0(rows[j + 1]@).0,
    ensures
        caps_seq_ok(text, caps),
{
    assert forall|i: int| 0 <= i < caps.len() implies caps_ok(text, #[trigger] caps[i]) by {
        assert(rows[i]@ == caps[i]);
    }
    assert forall|i: int| 0 <= i < caps.len() - 1 implies span0(#[trigger] caps[i]).1 <= span0(
        caps[i + 1],
    ).0 by {
        assert(rows[i]@ == caps[i] && rows[i + 1]@ == caps[i + 1]);
    }
}

/// Leftmost match of the pattern anywhere in `text`, or `None`.
pub fn search(p: &CompiledPattern, text: &str) -> (r: Option<Match>)
    ensures
        r is Some <==> captures_spec(*p, text@) is Some,
        r matches Some(m) ==> (captures_spec(*p, text@) matches Some(cs) && m.spans_view() == cs
            && m.text_view() == text@),
        r matches Some(m) ==> m.spans_view().len() >= 1 && m.spans_view()[0] is Some,
{
    match engine_find(p, text) {
        None => None,
        Some(v) => Some(make_match(text, v)),
    }
}

/// Like `search`, but only a match that begins at the start of `text` counts.
pub fn fmatch(p: &CompiledPattern, text: &str) -> (r: Option<Match>)
    ensures
        r is Some <==> (captures_spec(*p, text@) matches Some(cs) && span0(cs).0 == 0),
        r matches Some(m) ==> (captures_spec(*p, text@) matches Some(cs) && m.spans_view() == cs
            && m.text_view() == text@),
        r matches Some(m) ==> m.spans_view().len() >= 1 && m.spans_view()[0] is Some,
{
    match engine_find(p, text) {
        None => None,
        Some(v) => {
            let sp = v[0].unwrap();
            if sp.0 == 0 {
                Some(make_match(text, v))
            } else {
                None
            }
        },
    }
}

/// Like `search`, but only a match that covers the whole of `text` counts.
pub fn fullmatch(p: &CompiledPattern, text: &str) -> (r: Option<Match>)
    ensures
        r is Some <==> (captures_spec(*p, text@) matches Some(cs) && span0(cs).0 == 0 && span0(
            cs,
        ).1 == bytes_thru(text@, text@.len() as int)),
        r matches Some(m) ==> (captures_spec(*p, text@) matches Some(cs) && m.spans_view() == cs
            && m.text_view() == text@),
        r matches Some(m) ==> m.spans_view().len() >= 1 && m.spans_view()[0] is Some,
{
    match engine_find(p, text) {
        None => None,
        Some(v) => {
            let sp = v[0].unwrap();
            proof {
                lemma_boundary_index(text@, sp.1 as int);
                lemma_char_index_of_bytes_thru(text@, text@.len() as int);
            }
            let ce = char_offset_of(text, sp.1);
            let n = text.unicode_len();
            if sp.0 == 0 && ce == n {
                Some(make_match(text, v))
            } else {
                None
            }
        },
    }
}

/// The substring of every non-overlapping match, left to right.
pub fn findall(p: &CompiledPattern, text: &str) -> (r: Vec<String>)
    ensures
        r@.len() == captures_all_spec(*p, text@).len(),
        forall|i: int|
            0 <= i < r@.len() ==> (#[trigger] r@[i])@ == matched_text(
                text@,
                span0(captures_all_spec(*p, text@)[i]),
            ),
        caps_seq_ok(text@, captures_all_spec(*p, text@)),
{
    let rows = engine_find_all(p, text);
    proof {
        lemma_rows_caps_seq_ok(text@, rows@, captures_all_spec(*p, text@));
    }
    let mut out: Vec<String> = Vec::new();
    let mut i: usize = 0;
    while i < rows.len()
        invariant
            0 <= i <= rows@.len(),
            rows@.len() == captures_all_spec(*p, text@).len(),
            forall|j: int|
                0 <= j < rows@.len() ==> (#[trigger] rows@[j])@ == captures_all_spec(*p, text@)[j],
            forall|j: int| 0 <= j < rows@.len() ==> caps_ok(text@, (#[trigger] rows@[j])@),
            caps_seq_ok(text@, captures_all_spec(*p, text@)),
            out@.len() == i,
            forall|j: int|
                0 <= j < i as int ==> (#[trigger] out@[j])@ == matched_text(
                    text@,
                    span0(captures_all_spec(*p, text@)[j]),
                ),
        decreases rows@.len() - i,
    {
        let row = &rows[i];
        let sp = row[0].unwrap();
        proof {
            lemma_char_index_mono(text@, sp.0 as int, sp.1 as int);
            lemma_boundary_index(text@, sp.1 as int);
        }
        let cs = char_offset_of(text, sp.0);
        let ce = char_offset_of(text, sp.1);
        out.push(text.substring_char(cs, ce).to_owned());
        i = i + 1;
    }
    out
}

/// Every non-overlapping match, left to right, each a self-contained
/// `Match`.
pub fn finditer(p: &CompiledPattern, text: &str) -> (r: Vec<Match>)
    ensures
        r@.len() == captures_all_spec(*p, text@).len(),
        forall|i: int|
            0 <= i < r@.len() ==> (#[trigger] r@[i]).spans_view() == captures_all_spec(
                *p,
                text@,
            )[i] && r@[i].text_view() == text@,
{
    let rows = engine_find_all(p, text);
    let mut out: Vec<Match> = Vec::new();
    let mut i: usize = 0;
    while i < rows.len()
        invariant
            0 <= i <= rows@.len(),
            rows@.len() == captures_all_spec(*p, text@).len(),
            forall|j: int|
                0 <= j < rows@.len() ==> (#[trigger] rows@[j])@ == captures_all_spec(*p, text@)[j],
            forall|j: int| 0 <= j < rows@.len() ==> caps_ok(text@, (#[trigger] rows@[j])@),
            out@.len() == i,
            forall|j: int|
                0 <= j < i as int ==> (#[trigger] out@[j]).spans_view() == captures_all_spec(
                    *p,
                    text@,
                )[j] && out@[j].text_view() == text@,
        decreases rows@.len() - i,
    {
        let row = &rows[i];
        let mut spans: Vec<Option<(usize, usize)>> = Vec::new();
        let mut j: usize = 0;
        while j < row.len()
            invariant
                0 <= j <= row@.len(),
                spans@ == row@.take(j as int),
            decreases row@.len() - j,
        {
            spans.push(row[j]);
            proof {
                assert(spans@ =~= row@.take(j as int + 1));
            }
            j = j + 1;
        }
        proof {
            assert(spans@ =~= row@);
        }
        out.push(make_match(text, spans));
        i = i + 1;
    }
    out
}

/// `text` divided at every non-overlapping match, the matches removed; with
/// no match the result is `text` alone.
pub fn split(p: &CompiledPattern, text: &str) -> (r: Vec<String>)
    ensures
        r@.len() == captures_all_spec(*p, text@).len() + 1,
        forall|i: int|
            0 <= i < r@.len() ==> (#[trigger] r@[i])@ == piece(
                text@,
                spans0_of(captures_all_spec(*p, text@)),
                i,
            ),
        caps_seq_ok(text@, captures_all_spec(*p, text@)),
{
    let rows = engine_find_all(p, text);
    proof {
        lemma_rows_caps_seq_ok(text@, rows@, captures_all_spec(*p, text@));
    }
    let ghost bspans = spans0_of(captures_all_spec(*p, text@));
    let mut out: Vec<String> = Vec::new();
    let mut prev: usize = 0;
    let mut i: usize = 0;
    proof {
        lemma_char_index_of_bytes_thru(text@, 0);
    }
    while i < rows.len()
        invariant
            0 <= i <= rows@.len(),
            rows@.len() == captures_all_spec(*p, text@).len(),
            bspans == spans0_of(captures_all_spec(*p, text@)),
            forall|j: int|
                0 <= j < rows@.len() ==> (#[trigger] rows@[j])@ == captures_all_spec(*p, text@)[j],
            forall|j: int| 0 <= j < rows@.len() ==> caps_ok(text@, (#[trigger] rows@[j])@),
            forall|j: int|
                0 <= j < rows@.len() - 1 ==> span0((#[trigger] rows@[j])@).1 <= span0(
                    rows@[j + 1]@,
                ).0,
            caps_seq_ok(text@, captures_all_spec(*p, text@)),
            out@.len() == i,
            prev as int == if i == 0 {
                0
            } else {
                char_index_of(text@, bspans[i as int - 1].1 as int)
            },
            prev <= text@.len(),
            i > 0 ==> crate::text::is_boundary(text@, bspans[i as int - 1].1 as int),
            forall|j: int|
                0 <= j < i as int ==> (#[trigger] out@[j])@ == piece(text@, bspans, j),
        decreases rows@.len() - i,
    {
        let row = &rows[i];
        let sp = row[0].unwrap();
        proof {
            assert(rows@[i as int]@ == captures_all_spec(*p, text@)[i as int]);
            assert(rows@[i as int]@[0] == Some(sp));
            assert(bspans[i as int] == sp);
            if i > 0 {
                assert(span0(rows@[i as int - 1]@).1 <= span0(rows@[i as int]@).0);
                assert(bspans[i as int - 1] == span0(rows@[i as int - 1]@));
                lemma_char_index_mono(text@, bspans[i as int - 1].1 as int, sp.0 as int);
            }
            lemma_char_index_mono(text@, sp.0 as int, sp.1 as int);
            lemma_boundary_index(text@, sp.0 as int);
            lemma_boundary_index(text@, sp.1 as int);
        }
        let cs = char_offset_of(text, sp.0);
        let ce = char_offset_of(text, sp.1);
        out.push(text.substring_char(prev, cs).to_owned());
        prev = ce;
        i = i + 1;
    }
    let n = text.unicode_len();
    out.push(text.substring_char(prev, n).to_owned());
    out
}

/// Every non-overlapping match replaced by the replacement template `rep`,
/// the engine's template conventions honoured.
pub fn sub(p: &CompiledPattern, rep: &str, text: &str) -> (r: String)
    ensures
        r@ == replaced_spec(*p, text@, rep@),
        captures_all_spec(*p, text@).len() == 0 ==> r@ == text@,
{
    engine_replace(p, text, rep)
}

/// Like `sub`, together with the number of matches that were replaced.
pub fn subn(p: &CompiledPattern, rep: &str, text: &str) -> (r: (String, usize))
    ensures
        r.0@ == replaced_spec(*p, text@, rep@),
        r.1 == captures_all_spec(*p, text@).len(),
        captures_all_spec(*p, text@).len() == 0 ==> r.0@ == text@,
{
    let s = engine_replace(p, text, rep);
    let rows = engine_find_all(p, text);
    (s, rows.len())
}

/// `text` with a backslash put before every regex metacharacter, safe to use
/// as a literal pattern.
pub fn escape(text: &str) -> (r: String)
    ensures
        r@ == escape_spec(text@),
{
    engine_escape(text)
}

} // verus!
