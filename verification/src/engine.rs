use vstd::prelude::*;
use vstd::utf8::encode_utf8;
use crate::EngineOptions;
use crate::text::is_boundary;

verus! {

/// Whether the matching engine accepts a pattern compiled with the given
/// case-insensitive, multi-line and dot-matches-newline options.
pub uninterp spec fn engine_accepts(pattern: Seq<char>, ci: bool, ml: bool, dot: bool) -> bool;

/// The byte spans of the leftmost match of the pattern in the text: entry 0 is
/// the whole match, entries 1.. the capture groups, `None` for a group that
/// did not participate.
pub uninterp spec fn engine_captures(
    pattern: Seq<char>,
    ci: bool,
    ml: bool,
    dot: bool,
    text: Seq<char>,
) -> Option<Seq<Option<(usize, usize)>>>;

/// The capture spans of every non-overlapping match of the pattern in the
/// text, leftmost first.
pub uninterp spec fn engine_captures_all(
    pattern: Seq<char>,
    ci: bool,
    ml: bool,
    dot: bool,
    text: Seq<char>,
) -> Seq<Seq<Option<(usize, usize)>>>;

/// The text with every non-overlapping match of the pattern replaced by the
/// replacement template, the engine's template syntax honoured.
pub uninterp spec fn engine_replaced(
    pattern: Seq<char>,
    ci: bool,
    ml: bool,
    dot: bool,
    text: Seq<char>,
    rep: Seq<char>,
) -> Seq<char>;

#[verifier::external_type_specification]
#[verifier::external_body]
pub struct ExRegex(regex::Regex);

/// An immutable, shareable handle to one pattern compiled by the matching
/// engine, together with the pattern text and the options it was built with.
pub struct CompiledPattern {
    regex: regex::Regex,
    pattern: String,
    opts: EngineOptions,
}

impl CompiledPattern {
    /// The pattern text this handle was compiled from.
    pub closed spec fn pat(self) -> Seq<char> {
        self.pattern@
    }

    /// The options this handle was compiled with.
    pub closed spec fn options(self) -> EngineOptions {
        self.opts
    }
}

/// `engine_accepts` applied to a pattern and decoded options.
pub open spec fn accepts_spec(pattern: Seq<char>, o: EngineOptions) -> bool {
    engine_accepts(pattern, o.case_insensitive, o.multi_line, o.dot_all)
}

/// The leftmost match's capture spans for a compiled pattern on a text.
pub open spec fn captures_spec(p: CompiledPattern, text: Seq<char>) -> Option<
    Seq<Option<(usize, usize)>>,
> {
    engine_captures(
        p.pat(),
        p.options().case_insensitive,
        p.options().multi_line,
        p.options().dot_all,
        text,
    )
}

/// The capture spans of every non-overlapping match for a compiled pattern.
pub open spec fn captures_all_spec(p: CompiledPattern, text: Seq<char>) -> Seq<
    Seq<Option<(usize, usize)>>,
> {
    engine_captures_all(
        p.pat(),
        p.options().case_insensitive,
        p.options().multi_line,
        p.options().dot_all,
        text,
    )
}

/// The replacement result for a compiled pattern on a text.
pub open spec fn replaced_spec(p: CompiledPattern, text: Seq<char>, rep: Seq<char>) -> Seq<char> {
    engine_replaced(
        p.pat(),
        p.options().case_insensitive,
        p.options().multi_line,
        p.options().dot_all,
        text,
        rep,
    )
}

/// A byte span lies within the text, start before end, both ends on
/// character boundaries.
pub open spec fn span_ok(text: Seq<char>, sp: (usize, usize)) -> bool {
    &&& sp.0 <= sp.1
    &&& sp.1 <= encode_utf8(text).len()
    &&& is_boundary(text, sp.0 as int)
    &&& is_boundary(text, sp.1 as int)
}

/// One match's capture spans are well formed: group 0 participates and every
/// participating span is a valid boundary pair of the text.
pub open spec fn caps_ok(text: Seq<char>, caps: Seq<Option<(usize, usize)>>) -> bool {
    &&& caps.len() >= 1
    &&& caps[0] is Some
    &&& forall|j: int|
        0 <= j < caps.len() ==> (#[trigger] caps[j] matches Some(sp) ==> span_ok(text, sp))
}

/// The whole-match span of one match's capture spans.
pub open spec fn span0(caps: Seq<Option<(usize, usize)>>) -> (usize, usize) {
    match caps[0] {
        Some(sp) => sp,
        None => (0usize, 0usize),
    }
}

/// A run of matches is well formed: each one is, and successive whole-match
/// spans do not overlap and come left to right.
pub open spec fn caps_seq_ok(text: Seq<char>, rows: Seq<Seq<Option<(usize, usize)>>>) -> bool {
    &&& forall|i: int| 0 <= i < rows.len() ==> caps_ok(text, #[trigger] rows[i])
    &&& forall|i: int|
        0 <= i < rows.len() - 1 ==> span0(#[trigger] rows[i]).1 <= span0(rows[i + 1]).0
}

/// Relies on `RegexBuilder::new`, its `case_insensitive`, `multi_line` and
/// `dot_matches_new_line` switches, and `RegexBuilder::build`: whether a
/// pattern compiles, and how the compiled program matches, depend only on the
/// pattern text and these three options; a build error renders to a non-empty
/// diagnostic.
#[verifier::external_body]
pub(crate) fn engine_compile(pattern: &str, o: EngineOptions) -> (r: Result<CompiledPattern, String>)
    ensures
        r is Ok <==> engine_accepts(pattern@, o.case_insensitive, o.multi_line, o.dot_all),
        r matches Ok(p) ==> p.pat() == pattern@ && p.options() == o,
        r matches Err(e) ==> e@.len() > 0,
{
    let mut b = regex::RegexBuilder::new(pattern);
    b.case_insensitive(o.case_insensitive);
    b.multi_line(o.multi_line);
    b.dot_matches_new_line(o.dot_all);
    match b.build() {
        Ok(re) => Ok(CompiledPattern { regex: re, pattern: pattern.to_string(), opts: o }),
        Err(e) => Err(e.to_string()),
    }
}

/// Relies on `Regex::captures`: the leftmost match's capture spans are a
/// function of the pattern, its options and the haystack; the spans are byte
/// offsets on valid UTF-8 boundaries within the haystack, start not after
/// end, and group 0 always participates.
#[verifier::external_body]
pub(crate) fn engine_find(p: &CompiledPattern, text: &str) -> (r: Option<
    Vec<Option<(usize, usize)>>,
>)
    ensures
        r is Some <==> engine_captures(
            p.pat(),
            p.options().case_insensitive,
            p.options().multi_line,
            p.options().dot_all,
            text@,
        ) is Some,
        r matches Some(v) ==> engine_captures(
            p.pat(),
            p.options().case_insensitive,
            p.options().multi_line,
            p.options().dot_all,
            text@,
        ) == Some(v@) && caps_ok(text@, v@),
{
    p.regex.captures(text).map(|c| c.iter().map(|m| m.map(|x| (x.start(), x.end()))).collect())
}

/// Relies on `Regex::captures_iter`: it yields the capture spans of the
/// successive non-overlapping matches, leftmost first, each with the span
/// guarantees of `Regex::captures`.
#[verifier::external_body]
pub(crate) fn engine_find_all(p: &CompiledPattern, text: &str) -> (r: Vec<
    Vec<Option<(usize, usize)>>,
>)
    ensures
        r@.len() == engine_captures_all(
            p.pat(),
            p.options().case_insensitive,
            p.options().multi_line,
            p.options().dot_all,
            text@,
        ).len(),
        forall|i: int| 0 <= i < r@.len() ==> (#[trigger] r@[i])@ == captures_all_spec(*p, text@)[i],
        forall|i: int| 0 <= i < r@.len() ==> caps_ok(text@, (#[trigger] r@[i])@),
        forall|i: int| 0 <= i < r@.len() - 1 ==> span0((#[trigger] r@[i])@).1 <= span0(r@[i + 1]@).0,
{
    p.regex.captures_iter(text).map(
        |c| c.iter().map(|m| m.map(|x| (x.start(), x.end()))).collect(),
    ).collect()
}

/// Relies on `Regex::replace_all`: the result is a function of the pattern,
/// its options, the haystack and the replacement template; with no match the
/// haystack comes back unchanged.
#[verifier::external_body]
pub(crate) fn engine_replace(p: &CompiledPattern, text: &str, rep: &str) -> (r: String)
    ensures
        r@ == engine_replaced(
            p.pat(),
            p.options().case_insensitive,
            p.options().multi_line,
            p.options().dot_all,
            text@,
            rep@,
        ),
        captures_all_spec(*p, text@).len() == 0 ==> r@ == text@,
{
    p.regex.replace_all(text, rep).into_owned()
}

/// A character the regex syntax gives significance to.
pub open spec fn is_meta(c: char) -> bool {
    ||| c == '\\'
    ||| c == '.'
    ||| c == '+'
    ||| c == '*'
    ||| c == '?'
    ||| c == '('
    ||| c == ')'
    ||| c == '|'
    ||| c == '['
    ||| c == ']'
    ||| c == '{'
    ||| c == '}'
    ||| c == '^'
    ||| c == '$'
    ||| c == '#'
    ||| c == '&'
    ||| c == '-'
    ||| c == '~'
}

/// The text with a backslash put before every metacharacter.
pub open spec fn escape_spec(s: Seq<char>) -> Seq<char>
    decreases s.len(),
{
    if s.len() == 0 {
        Seq::empty()
    } else {
        (if is_meta(s[0]) {
            seq!['\\', s[0]]
        } else {
            seq![s[0]]
        }) + escape_spec(s.drop_first())
    }
}

/// Relies on `regex::escape`: it puts a backslash before exactly the
/// characters its `is_meta_character` lists and keeps every other character.
#[verifier::external_body]
pub(crate) fn engine_escape(text: &str) -> (r: String)
    ensures
        r@ == escape_spec(text@),
{
    regex::escape(text)
}

/// Relies on `Regex::clone`: a clone shares the same compiled program and
/// matches exactly as the original.
impl Clone for CompiledPattern {
    #[verifier::external_body]
    fn clone(&self) -> (r: Self)
        ensures
            r.pat() == self.pat(),
            r.options() == self.options(),
    {
        CompiledPattern {
            regex: self.regex.clone(),
            pattern: self.pattern.clone(),
            opts: self.opts,
        }
    }
}

} // verus!
