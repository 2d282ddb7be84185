use vstd::prelude::*;
use crate::engine::caps_ok;
use crate::text::char_index_of;
use crate::text::char_offset_of;
use crate::text::lemma_boundary_index;
use crate::text::lemma_char_index_mono;

verus! {

/// The self-contained result of one match: an owned copy of the searched
/// text, and the byte spans of the whole match (entry 0) and of each capture
/// group (entries 1..), `None` for a group that did not participate.
pub struct Match {
    text: String,
    spans: Vec<Option<(usize, usize)>>,
}

impl Match {
    #[verifier::type_invariant]
    spec fn inv(self) -> bool {
        caps_ok(self.text@, self.spans@)
    }

    /// The owned copy of the text the match was found in.
    pub closed spec fn text_view(self) -> Seq<char> {
        self.text@
    }

    /// The stored byte spans, whole match first.
    pub closed spec fn spans_view(self) -> Seq<Option<(usize, usize)>> {
        self.spans@
    }
}

/// The stored byte span of group `idx`, `None` when out of range or when the
/// group did not participate.
pub open spec fn group_byte_span(m: Match, idx: int) -> Option<(usize, usize)> {
    if 0 <= idx < m.spans_view().len() {
        m.spans_view()[idx]
    } else {
        None
    }
}

/// The character-offset span of group `idx`.
pub open spec fn span_spec(m: Match, idx: int) -> Option<(int, int)> {
    match group_byte_span(m, idx) {
        Some(sp) => Some(
            (
                char_index_of(m.text_view(), sp.0 as int),
                char_index_of(m.text_view(), sp.1 as int),
            ),
        ),
        None => None,
    }
}

/// The matched text of group `idx`.
pub open spec fn group_spec(m: Match, idx: int) -> Option<Seq<char>> {
    match span_spec(m, idx) {
        Some(cs) => Some(m.text_view().subrange(cs.0, cs.1)),
        None => None,
    }
}

pub(crate) fn make_match(text: &str, spans: Vec<Option<(usize, usize)>>) -> (m: Match)
    requires
        caps_ok(text@, spans@),
    ensures
        m.text_view() == text@,
        m.spans_view() == spans@,
{
    Match { text: text.to_owned(), spans }
}

impl Match {
    /// The substring matched by group `idx` (0 is the whole match), or `None`
    /// when the group did not participate or `idx` is out of range.
    pub fn group(&self, idx: usize) -> (r: Option<String>)
        ensures
            r is Some <==> group_spec(*self, idx as int) is Some,
            r matches Some(s) ==> group_spec(*self, idx as int) == Some(s@),
    {
        proof {
            use_type_invariant(&*self);
        }
        if idx >= self.spans.len() {
            None
        } else {
            match self.spans[idx] {
                None => None,
                Some(sp) => {
                    proof {
                        lemma_char_index_mono(self.text@, sp.0 as int, sp.1 as int);
                        lemma_boundary_index(self.text@, sp.1 as int);
                    }
                    let cs = char_offset_of(self.text.as_str(), sp.0);
                    let ce = char_offset_of(self.text.as_str(), sp.1);
                    Some(self.text.as_str().substring_char(cs, ce).to_owned())
                },
            }
        }
    }

    /// The character offset where group `idx` starts.
    pub fn start(&self, idx: usize) -> (r: Option<usize>)
        ensures
            r is Some <==> span_spec(*self, idx as int) is Some,
            r matches Some(k) ==> (span_spec(*self, idx as int) matches Some(cs) && cs.0
                == k as int),
    {
        proof {
            use_type_invariant(&*self);
        }
        if idx >= self.spans.len() {
            None
        } else {
            match self.spans[idx] {
                None => None,
                Some(sp) => Some(char_offset_of(self.text.as_str(), sp.0)),
            }
        }
    }

    /// The character offset just past the end of group `idx`.
    pub fn end(&self, idx: usize) -> (r: Option<usize>)
        ensures
            r is Some <==> span_spec(*self, idx as int) is Some,
            r matches Some(k) ==> (span_spec(*self, idx as int) matches Some(cs) && cs.1
                == k as int),
    {
        proof {
            use_type_invariant(&*self);
        }
        if idx >= self.spans.len() {
            None
        } else {
            match self.spans[idx] {
                None => None,
                Some(sp) => Some(char_offset_of(self.text.as_str(), sp.1)),
            }
        }
    }

    /// Both character offsets of group `idx`.
    pub fn span(&self, idx: usize) -> (r: Option<(usize, usize)>)
        ensures
            r is Some <==> span_spec(*self, idx as int) is Some,
            r matches Some(sp) ==> span_spec(*self, idx as int) == Some(
                (sp.0 as int, sp.1 as int),
            ),
    {
        proof {
            use_type_invariant(&*self);
        }
        if idx >= self.spans.len() {
            None
        } else {
            match self.spans[idx] {
                None => None,
                Some(sp) => Some(
                    (
                        char_offset_of(self.text.as_str(), sp.0),
                        char_offset_of(self.text.as_str(), sp.1),
                    ),
                ),
            }
        }
    }

    /// The capture groups 1.., each `None` where the group did not
    /// participate.
    pub fn groups(&self) -> (r: Vec<Option<String>>)
        ensures
            r@.len() + 1 == self.spans_view().len(),
            forall|j: int|
                0 <= j < r@.len() ==> ((#[trigger] r@[j]) is Some <==> group_spec(*self, j + 1)
                    is Some),
            forall|j: int|
                0 <= j < r@.len() ==> ((#[trigger] r@[j]) matches Some(s) ==> group_spec(
                    *self,
                    j + 1,
                ) == Some(s@)),
    {
        proof {
            use_type_invariant(&*self);
        }
        let n = self.spans.len();
        let mut r: Vec<Option<String>> = Vec::new();
        let mut i: usize = 1;
        while i < n
            invariant
                1 <= i <= n,
                n == self.spans_view().len(),
                r@.len() == i - 1,
                forall|j: int|
                    0 <= j < r@.len() ==> ((#[trigger] r@[j]) is Some <==> group_spec(*self, j + 1)
                        is Some),
                forall|j: int|
                    0 <= j < r@.len() ==> ((#[trigger] r@[j]) matches Some(s) ==> group_spec(
                        *self,
                        j + 1,
                    ) == Some(s@)),
            decreases n - i,
        {
            let g = self.group(i);
            r.push(g);
            i = i + 1;
        }
        r
    }
}

} // verus!
