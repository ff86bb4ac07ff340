//! The three independent switches of a search.

use vstd::prelude::*;

verus! {

/// Whether letter case matters when a line is tested.
#[derive(Debug, Clone, Copy, PartialEq, Eq, Structural)]
pub enum CaseMode {
    /// The pattern and the line are compared as they are.
    Sensitive,
    /// The pattern and the line are both lower-cased before they are compared.
    Insensitive,
}

/// Which lines a search keeps.
#[derive(Debug, Clone, Copy, PartialEq, Eq, Structural)]
pub enum MatchMode {
    /// The lines in which the pattern occurs.
    Default,
    /// The lines in which the pattern does not occur.
    Invert,
}

/// What a run reports.
#[derive(Debug, Clone, Copy, PartialEq, Eq, Structural)]
pub enum OutputMode {
    /// The kept lines themselves.
    Default,
    /// Only how many lines were kept.
    Count,
}

/// The switches of one search, fixed when the search is set up.
#[derive(Debug, Clone, Copy, PartialEq, Eq, Structural)]
pub struct Arguments {
    pub case: CaseMode,
    pub invert: MatchMode,
    pub count: OutputMode,
}

} // verus!
