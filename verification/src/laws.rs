use vstd::prelude::*;
use crate::engine::CompiledPattern;
use crate::engine::caps_ok;
use crate::engine::caps_seq_ok;
use crate::engine::captures_all_spec;
use crate::engine::captures_spec;
use crate::engine::escape_spec;
use crate::engine::is_meta;
use crate::engine::replaced_spec;
use crate::engine::span0;
use crate::engine::span_ok;
use crate::matching::Match;
use crate::matching::span_spec;
use crate::ops::matched_text;
use crate::ops::piece;
use crate::ops::spans0_of;
use crate::text::bytes_thru;
use crate::text::char_index_of;
use crate::text::lemma_boundary_index;
use crate::text::lemma_bytes_thru_zero;
use crate::text::lemma_char_index_mono;
use crate::text::lemma_char_index_of_bytes_thru;

verus! {

/// Two handles compiled from the same pattern text with the same options
/// behave identically on every operation: each operation's outcome is a
/// function of the pattern, the options and the inputs alone. In particular
/// a handle served from the cache behaves as a freshly compiled one, and no
/// outcome depends on the cache's state, so a purge never affects a handle
/// already given out.
pub proof fn lemma_same_key_same_behaviour(
    p1: CompiledPattern,
    p2: CompiledPattern,
    text: Seq<char>,
    rep: Seq<char>,
)
    requires
        p1.pat() == p2.pat(),
        p1.options() == p2.options(),
    ensures
        captures_spec(p1, text) == captures_spec(p2, text),
        captures_all_spec(p1, text) == captures_all_spec(p2, text),
        replaced_spec(p1, text, rep) == replaced_spec(p2, text, rep),
{
}

/// On a match that covers the whole text, the character-offset span of the
/// whole match is exactly (0, number of characters of the text), whatever
/// multi-byte characters the text holds.
pub proof fn lemma_whole_match_span(m: Match, text: Seq<char>)
    requires
        m.text_view() == text,
        m.spans_view().len() >= 1,
        m.spans_view()[0] matches Some(sp) && sp.0 == 0 && sp.1 == bytes_thru(
            text,
            text.len() as int,
        ),
    ensures
        span_spec(m, 0) == Some((0int, text.len() as int)),
{
    lemma_bytes_thru_zero(text);
    lemma_char_index_of_bytes_thru(text, 0);
    lemma_char_index_of_bytes_thru(text, text.len() as int);
}

/// Escaping text that holds no metacharacter leaves it unchanged; together
/// with `escape`'s contract, such text is its own escaped pattern.
pub proof fn lemma_escape_literal(s: Seq<char>)
    requires
        forall|i: int| 0 <= i < s.len() ==> !is_meta(#[trigger] s[i]),
    ensures
        escape_spec(s) == s,
    decreases s.len(),
{
    if s.len() == 0 {
        assert(escape_spec(s) =~= s);
    } else {
        lemma_escape_literal(s.drop_first());
        assert(escape_spec(s) =~= s);
    }
}

/// A run of whole-match byte spans is well formed: each span is a valid
/// boundary pair of the text and successive spans come left to right without
/// overlapping.
pub open spec fn spans_wf(text: Seq<char>, spans: Seq<(usize, usize)>) -> bool {
    &&& forall|i: int| 0 <= i < spans.len() ==> span_ok(text, #[trigger] spans[i])
    &&& forall|i: int| 0 <= i < spans.len() - 1 ==> (#[trigger] spans[i]).1 <= spans[i + 1].0
}

/// The separators the spans match: the text of each match, left to right.
pub open spec fn seps_of(text: Seq<char>, spans: Seq<(usize, usize)>) -> Seq<Seq<char>> {
    Seq::new(spans.len(), |i: int| matched_text(text, spans[i]))
}

/// The pieces `split` yields for the spans.
pub open spec fn splits_of(text: Seq<char>, spans: Seq<(usize, usize)>) -> Seq<Seq<char>> {
    Seq::new(spans.len() + 1, |i: int| piece(text, spans, i))
}

/// `pieces` interleaved with `seps`: the first piece, then sep and piece in
/// turn.
pub open spec fn interleave(pieces: Seq<Seq<char>>, seps: Seq<Seq<char>>) -> Seq<char>
    decreases pieces.len(),
{
    if pieces.len() == 0 {
        Seq::empty()
    } else if pieces.len() == 1 {
        pieces[0]
    } else {
        pieces[0] + seps[0] + interleave(pieces.drop_first(), seps.drop_first())
    }
}

spec fn pieces_from(text: Seq<char>, spans: Seq<(usize, usize)>, start: int) -> Seq<Seq<char>> {
    Seq::new(
        spans.len() + 1,
        |i: int|
            text.subrange(
                if i == 0 {
                    start
                } else {
                    char_index_of(text, spans[i - 1].1 as int)
                },
                if i == spans.len() {
                    text.len() as int
                } else {
                    char_index_of(text, spans[i].0 as int)
                },
            ),
    )
}

proof fn lemma_join_from(text: Seq<char>, spans: Seq<(usize, usize)>, start: int)
    requires
        spans_wf(text, spans),
        0 <= start <= text.len(),
        spans.len() > 0 ==> start <= char_index_of(text, spans[0].0 as int),
    ensures
        interleave(pieces_from(text, spans, start), seps_of(text, spans)) == text.subrange(
            start,
            text.len() as int,
        ),
    decreases spans.len(),
{
    let p = pieces_from(text, spans, start);
    let s = seps_of(text, spans);
    if spans.len() == 0 {
        assert(interleave(p, s) == p[0]);
    } else {
        let sp = spans[0];
        lemma_boundary_index(text, sp.0 as int);
        lemma_boundary_index(text, sp.1 as int);
        lemma_char_index_mono(text, sp.0 as int, sp.1 as int);
        let cs = char_index_of(text, sp.0 as int);
        let ce = char_index_of(text, sp.1 as int);
        let rest = spans.drop_first();
        assert(forall|j: int| 0 <= j < rest.len() ==> rest[j] == spans[j + 1]);
        assert(spans_wf(text, rest));
        if rest.len() > 0 {
            assert(sp.1 <= rest[0].0);
            lemma_char_index_mono(text, sp.1 as int, rest[0].0 as int);
        }
        lemma_join_from(text, rest, ce);
        assert(p.drop_first() =~= pieces_from(text, rest, ce)) by {
            assert(forall|i: int|
                0 <= i < p.drop_first().len() ==> p.drop_first()[i] == p[i + 1]);
        }
        assert(s.drop_first() =~= seps_of(text, rest)) by {
            assert(forall|i: int|
                0 <= i < s.drop_first().len() ==> s.drop_first()[i] == s[i + 1]);
        }
        assert(interleave(p, s) == p[0] + s[0] + text.subrange(ce, text.len() as int));
        assert(p[0] == text.subrange(start, cs));
        assert(s[0] == text.subrange(cs, ce));
        assert(text.subrange(start, cs) + text.subrange(cs, ce) + text.subrange(
            ce,
            text.len() as int,
        ) =~= text.subrange(start, text.len() as int));
    }
}

/// Splitting a text at a well-formed run of match spans and joining the
/// pieces back with the matched separators reconstructs the text: the
/// outputs of `split` interleaved with those of `findall`.
pub proof fn lemma_split_join(text: Seq<char>, spans: Seq<(usize, usize)>)
    requires
        spans_wf(text, spans),
    ensures
        interleave(splits_of(text, spans), seps_of(text, spans)) == text,
{
    if spans.len() > 0 {
        lemma_boundary_index(text, spans[0].0 as int);
    }
    lemma_join_from(text, spans, 0);
    assert(splits_of(text, spans) =~= pieces_from(text, spans, 0));
    assert(text.subrange(0, text.len() as int) =~= text);
}

/// The whole-match spans of any run of matches the engine yields are well
/// formed, so `lemma_split_join` applies to every `split` / `findall`
/// outcome on one pattern and text.
pub proof fn lemma_engine_spans_wf(text: Seq<char>, rows: Seq<Seq<Option<(usize, usize)>>>)
    requires
        caps_seq_ok(text, rows),
    ensures
        spans_wf(text, spans0_of(rows)),
{
    let spans = spans0_of(rows);
    assert forall|i: int| 0 <= i < spans.len() implies span_ok(text, #[trigger] spans[i]) by {
        assert(caps_ok(text, rows[i]));
        assert(rows[i][0] matches Some(sp) && span_ok(text, sp));
        assert(spans[i] == span0(rows[i]));
    }
    assert forall|i: int| 0 <= i < spans.len() - 1 implies (#[trigger] spans[i]).1 <= spans[i
        + 1].0 by {
        assert(span0(rows[i]).1 <= span0(rows[i + 1]).0);
    }
}

} // verus!
