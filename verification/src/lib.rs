use vstd::prelude::*;

pub mod cache;
pub mod engine;
pub mod laws;
pub mod matching;
pub mod ops;
pub mod text;

pub use cache::CompileError;
pub use cache::PatternCache;
pub use engine::CompiledPattern;
pub use matching::Match;
pub use ops::escape;
pub use ops::findall;
pub use ops::finditer;
pub use ops::fmatch;
pub use ops::fullmatch;
pub use ops::search;
pub use ops::split;
pub use ops::sub;
pub use ops::subn;

verus! {

/// Matching options decoded from a raw flag bit-field.
#[derive(Clone, Copy, PartialEq, Eq, Structural, Debug)]
pub struct EngineOptions {
    pub case_insensitive: bool,
    pub multi_line: bool,
    pub dot_all: bool,
}

/// Flag bit: case-insensitive matching.
pub const CASE_INSENSITIVE: u32 = 1;

/// Flag bit: `^` and `$` also match around line breaks.
pub const MULTILINE: u32 = 2;

/// Flag bit: `.` also matches a line break.
pub const DOTALL: u32 = 4;

/// The options encoded by a raw flag bit-field; unknown bits are ignored.
pub open spec fn spec_decode(bits: u32) -> EngineOptions {
    EngineOptions {
        case_insensitive: bits & 1 != 0,
        multi_line: bits & 2 != 0,
        dot_all: bits & 4 != 0,
    }
}

/// Decodes a raw flag bit-field into matching options; total, never fails.
pub fn decode(bits: u32) -> (r: EngineOptions)
    ensures
        r == spec_decode(bits),
{
    EngineOptions {
        case_insensitive: bits & 1 != 0,
        multi_line: bits & 2 != 0,
        dot_all: bits & 4 != 0,
    }
}

} // verus!
