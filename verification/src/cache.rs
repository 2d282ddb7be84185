use vstd::prelude::*;
use crate::spec_decode;
use crate::engine::CompiledPattern;
use crate::engine::accepts_spec;
use crate::engine::engine_compile;

verus! {

/// The one recoverable error: the engine rejected the pattern text; carries
/// the engine's diagnostic.
#[derive(Debug)]
pub struct CompileError {
    message: String,
}

impl CompileError {
    /// The engine's diagnostic text.
    pub closed spec fn message_view(self) -> Seq<char> {
        self.message@
    }

    /// The engine's diagnostic text.
    pub fn message(&self) -> (r: &str)
        ensures
            r@ == self.message_view(),
    {
        self.message.as_str()
    }
}

struct CacheEntry {
    pattern: String,
    flags: u32,
    compiled: CompiledPattern,
}

/// A memoized store of compiled patterns keyed by (pattern text, flag bits).
/// It holds only patterns the engine accepted, each compiled with exactly the
/// options its flag bits decode to, one entry per key.
pub struct PatternCache {
    entries: Vec<CacheEntry>,
}

impl PatternCache {
    #[verifier::type_invariant]
    spec fn inv(self) -> bool {
        &&& forall|i: int|
            0 <= i < self.entries@.len() ==> {
                let e = #[trigger] self.entries@[i];
                &&& e.compiled.pat() == e.pattern@
                &&& e.compiled.options() == spec_decode(e.flags)
                &&& accepts_spec(e.pattern@, spec_decode(e.flags))
            }
        &&& forall|i: int, j: int|
            0 <= i < j < self.entries@.len() ==> !((#[trigger] self.entries@[i]).pattern@ == (
            #[trigger] self.entries@[j]).pattern@ && self.entries@[i].flags
                == self.entries@[j].flags)
    }

    /// The cache holds an entry for this (pattern text, flag bits) key.
    pub closed spec fn has_key(self, pat: Seq<char>, flags: u32) -> bool {
        exists|i: int|
            0 <= i < self.entries@.len() && (#[trigger] self.entries@[i]).pattern@ == pat
                && self.entries@[i].flags == flags
    }

    /// How many patterns the cache holds.
    pub closed spec fn key_count(self) -> nat {
        self.entries@.len()
    }

    /// An empty cache.
    pub fn new() -> (c: Self)
        ensures
            c.key_count() == 0,
            forall|q: Seq<char>, f: u32| !c.has_key(q, f),
    {
        PatternCache { entries: Vec::new() }
    }

    /// A handle to the pattern compiled from `pattern` with the options
    /// `flags` decodes to: the cached one on a hit, a newly compiled and
    /// newly cached one on a miss. A pattern the engine rejects yields the
    /// engine's diagnostic and leaves the cache unchanged.
    pub fn compile(&mut self, pattern: &str, flags: u32) -> (r: Result<
        CompiledPattern,
        CompileError,
    >)
        ensures
            r is Ok <==> accepts_spec(pattern@, spec_decode(flags)),
            r matches Ok(p) ==> p.pat() == pattern@ && p.options() == spec_decode(flags),
            r is Ok ==> final(self).has_key(pattern@, flags),
            r is Err ==> *final(self) == *old(self),
            r matches Err(e) ==> e.message_view().len() > 0,
            forall|q: Seq<char>, f: u32|
                old(self).has_key(q, f) ==> final(self).has_key(q, f),
            forall|q: Seq<char>, f: u32|
                final(self).has_key(q, f) ==> (old(self).has_key(q, f) || (q == pattern@ && f
                    == flags)),
    {
        proof {
            use_type_invariant(&*self);
        }
        let pat_owned = pattern.to_owned();
        let n = self.entries.len();
        let mut i: usize = 0;
        while i < n
            invariant
                0 <= i <= n,
                n == self.entries@.len(),
                self == old(self),
                pat_owned@ == pattern@,
                self.inv(),
                forall|j: int|
                    0 <= j < i as int ==> !((#[trigger] self.entries@[j]).pattern@ == pattern@
                        && self.entries@[j].flags == flags),
            decreases n - i,
        {
            let e = &self.entries[i];
            if e.flags == flags && e.pattern == pat_owned {
                return Ok(e.compiled.clone());
            }
            i = i + 1;
        }
        let o = crate::decode(flags);
        match engine_compile(pattern, o) {
            Ok(c) => {
                let out = c.clone();
                let mut entries: Vec<CacheEntry> = Vec::new();
                std::mem::swap(&mut entries, &mut self.entries);
                entries.push(CacheEntry { pattern: pat_owned, flags, compiled: c });
                self.entries = entries;
                proof {
                    let ghost m = self.entries@.len() - 1;
                    assert(self.entries@[m].pattern@ == pattern@ && self.entries@[m].flags
                        == flags);
                    assert forall|q: Seq<char>, f: u32| old(self).has_key(q, f) implies self
                        .has_key(q, f) by {
                        let i = choose|i: int|
                            0 <= i < old(self).entries@.len() && (#[trigger] old(
                                self,
                            ).entries@[i]).pattern@ == q && old(self).entries@[i].flags == f;
                        assert(self.entries@[i].pattern@ == q && self.entries@[i].flags == f);
                    }
                    assert forall|q: Seq<char>, f: u32|
                        self.has_key(q, f) && !(q == pattern@ && f == flags) implies old(
                        self,
                    ).has_key(q, f) by {
                        let i = choose|i: int|
                            0 <= i < self.entries@.len() && (#[trigger] self.entries@[i]).pattern@
                                == q && self.entries@[i].flags == f;
                        assert(0 <= i < old(self).entries@.len() && old(self).entries@[i].pattern@
                            == q && old(self).entries@[i].flags == f);
                    }
                }
                Ok(out)
            },
            Err(msg) => Err(CompileError { message: msg }),
        }
    }

    /// Removes every entry. Handles already given out stay valid: the cache
    /// drops only its own references.
    pub fn purge(&mut self)
        ensures
            final(self).key_count() == 0,
            forall|q: Seq<char>, f: u32| !final(self).has_key(q, f),
    {
        self.entries = Vec::new();
    }
}

} // verus!
