//! A pattern made ready for searching, and the test of one line against it.

use vstd::prelude::*;
use vstd::string::*;

use crate::options::{Arguments, CaseMode};
use crate::text::{contains, lowercased, occurs_in, to_lowercase};

verus! {

/// A pattern made ready for searching, with the switches and the input paths
/// of the run it belongs to.
#[derive(Debug, Clone)]
pub struct Query {
    needle: String,
    options: Arguments,
    path: Vec<String>,
}

/// What a [`Query`] holds, as mathematical values.
pub struct QueryView {
    /// The characters searched for: the pattern, lower-cased when case is
    /// ignored.
    pub needle: Seq<char>,
    /// The switches the query was built with.
    pub options: Arguments,
    /// The input paths, in the order given.
    pub paths: Seq<Seq<char>>,
}

/// A text as it is compared under a case mode: itself when case matters, its
/// lower-case form when it does not.
pub open spec fn folded(case: CaseMode, text: Seq<char>) -> Seq<char> {
    match case {
        CaseMode::Sensitive => text,
        CaseMode::Insensitive => lowercased(text),
    }
}

impl QueryView {
    /// The query was built from `pattern`: its needle is the pattern as it is
    /// compared under the query's case mode. The pattern is folded once, here,
    /// and never again.
    pub open spec fn built_from(self, pattern: Seq<char>) -> bool {
        self.needle == folded(self.options.case, pattern)
    }

    /// The needle occurs in the line, the line folded as the pattern was.
    pub open spec fn matches(self, line: Seq<char>) -> bool {
        occurs_in(self.needle, folded(self.options.case, line))
    }
}

/// Law of ignored case. When case is ignored, whether a line matches depends
/// on the pattern and on the line only through their lower-case forms: two
/// patterns with one lower-case form, tested on two lines with one lower-case
/// form, give one answer, which is whether the lower-cased pattern occurs in
/// the lower-cased line.
pub proof fn law_insensitive_ignores_case(
    first: QueryView,
    first_pattern: Seq<char>,
    first_line: Seq<char>,
    second: QueryView,
    second_pattern: Seq<char>,
    second_line: Seq<char>,
)
    requires
        first.options.case == CaseMode::Insensitive,
        second.options.case == CaseMode::Insensitive,
        first.built_from(first_pattern),
        second.built_from(second_pattern),
        lowercased(first_pattern) == lowercased(second_pattern),
        lowercased(first_line) == lowercased(second_line),
    ensures
        first.matches(first_line) == second.matches(second_line),
        first.matches(first_line) == occurs_in(lowercased(first_pattern), lowercased(first_line)),
{
}

impl View for Query {
    type V = QueryView;

    closed spec fn view(&self) -> QueryView {
        QueryView {
            needle: self.needle@,
            options: self.options,
            paths: self.path.deep_view(),
        }
    }
}

impl Query {
    /// Builds the query for `pattern`. The pattern is stored as given when
    /// case matters, and lower-cased when it does not.
    pub fn new(pattern: &str, arguments: Arguments, path: &[String]) -> (query: Query)
        ensures
            query@.built_from(pattern@),
            query@.options == arguments,
            query@.paths == path.deep_view(),
    {
        let needle = match arguments.case {
            CaseMode::Sensitive => String::from_str(pattern),
            CaseMode::Insensitive => to_lowercase(pattern),
        };
        let mut owned: Vec<String> = Vec::new();
        let mut i: usize = 0;
        while i < path.len()
            invariant
                i <= path.len(),
                owned.len() == i,
                forall|j: int| 0 <= j < i ==> owned@[j]@ == path@[j]@,
            decreases path.len() - i,
        {
            owned.push(path[i].clone());
            i += 1;
        }
        assert(owned.deep_view() =~= path.deep_view());
        Query { needle, options: arguments, path: owned }
    }

    /// Whether the needle occurs in `line`. When case is ignored the line is
    /// lower-cased first, as the pattern was when the query was built.
    pub fn match_lines(&self, line: &str) -> (found: bool)
        ensures
            found == self@.matches(line@),
    {
        match self.options.case {
            CaseMode::Sensitive => contains(line, self.needle.as_str()),
            CaseMode::Insensitive => {
                let lowered = to_lowercase(line);
                contains(lowered.as_str(), self.needle.as_str())
            },
        }
    }

    /// The switches the query was built with.
    pub fn options(&self) -> (options: Arguments)
        ensures
            options == self@.options,
    {
        self.options
    }

    /// The characters searched for.
    pub fn needle(&self) -> (needle: &str)
        ensures
            needle@ == self@.needle,
    {
        self.needle.as_str()
    }

    /// The input paths the query was built with.
    pub fn path(&self) -> (paths: &Vec<String>)
        ensures
            paths.deep_view() == self@.paths,
    {
        &self.path
    }
}

} // verus!
