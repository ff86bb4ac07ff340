//! What the command line asked for, and the check it has to pass before a
//! run starts.

use vstd::prelude::*;
use vstd::string::*;

use crate::errors::{AppError, ErrorView, EXIT_USAGE};
use crate::options::{Arguments, CaseMode, MatchMode, OutputMode};
use crate::text::{trim, trimmed};

verus! {

/// The parsed command line.
#[derive(Debug, Clone)]
pub struct Config {
    /// Ignore letter case when matching.
    pub ignore_case: bool,
    /// The pattern to search for.
    pub pattern: String,
    /// Report the number of kept lines in place of the lines.
    pub count: bool,
    /// Keep the lines in which the pattern does not occur.
    pub invert: bool,
    /// The files to search; `-` stands for the standard input.
    pub path: Vec<String>,
}

/// The path that stands for the standard input.
pub open spec fn dash() -> Seq<char> {
    "-"@
}

/// The path at `at` may be read: it is the dash, or `is_file` records it as
/// an existing regular file. A path beyond the end of `is_file` is not
/// recorded as one.
pub open spec fn readable(paths: Seq<Seq<char>>, is_file: Seq<bool>, at: int) -> bool {
    paths[at] == dash() || (at < is_file.len() && is_file[at])
}

/// The path at `at` may not be read, and every path before it may.
pub open spec fn refused_first_at(paths: Seq<Seq<char>>, is_file: Seq<bool>, at: int) -> bool {
    &&& 0 <= at < paths.len()
    &&& !readable(paths, is_file, at)
    &&& forall|earlier: int| 0 <= earlier < at ==> readable(paths, is_file, earlier)
}

/// The verdict on a command line. A pattern that is empty once surrounding
/// whitespace is removed is refused, whatever the paths are. Otherwise the
/// first path that may not be read is refused. Otherwise the command line
/// passes.
pub open spec fn validation(pattern: Seq<char>, paths: Seq<Seq<char>>, is_file: Seq<bool>) -> Result<
    (),
    ErrorView,
> {
    if trimmed(pattern).len() == 0 {
        Err(ErrorView::PatternRequired)
    } else if exists|at: int| refused_first_at(paths, is_file, at) {
        Err(ErrorView::InvalidFile(paths[choose|at: int| refused_first_at(paths, is_file, at)]))
    } else {
        Ok(())
    }
}

/// The switches that the flags of a command line select.
pub open spec fn arguments_of(ignore_case: bool, invert: bool, count: bool) -> Arguments {
    Arguments {
        case: if ignore_case {
            CaseMode::Insensitive
        } else {
            CaseMode::Sensitive
        },
        invert: if invert {
            MatchMode::Invert
        } else {
            MatchMode::Default
        },
        count: if count {
            OutputMode::Count
        } else {
            OutputMode::Default
        },
    }
}

/// A command line with a pattern is refused for the first path that may
/// not be read.
pub proof fn lemma_refused_at(
    pattern: Seq<char>,
    paths: Seq<Seq<char>>,
    is_file: Seq<bool>,
    at: int,
)
    requires
        trimmed(pattern).len() != 0,
        refused_first_at(paths, is_file, at),
    ensures
        validation(pattern, paths, is_file) == Err::<(), ErrorView>(
            ErrorView::InvalidFile(paths[at]),
        ),
{
    let chosen = choose|at: int| refused_first_at(paths, is_file, at);
    assert(refused_first_at(paths, is_file, chosen));
    if chosen < at {
        assert(readable(paths, is_file, chosen));
    }
    if at < chosen {
        assert(readable(paths, is_file, at));
    }
}

/// A command line with a pattern passes when every path may be read.
pub proof fn lemma_all_readable(pattern: Seq<char>, paths: Seq<Seq<char>>, is_file: Seq<bool>)
    requires
        trimmed(pattern).len() != 0,
        forall|at: int| 0 <= at < paths.len() ==> readable(paths, is_file, at),
    ensures
        validation(pattern, paths, is_file) == Ok::<(), ErrorView>(()),
{
    assert forall|at: int| !refused_first_at(paths, is_file, at) by {
        if 0 <= at < paths.len() {
            assert(readable(paths, is_file, at));
        }
    }
}

/// Law of the blank pattern. A pattern that is empty once surrounding
/// whitespace is removed is refused as a missing pattern whatever paths are
/// named and whatever is known of them, and the process ends with the status
/// of a refused command line.
pub proof fn law_blank_pattern_is_refused(
    pattern: Seq<char>,
    paths: Seq<Seq<char>>,
    is_file: Seq<bool>,
)
    requires
        trimmed(pattern).len() == 0,
    ensures
        validation(pattern, paths, is_file) == Err::<(), ErrorView>(ErrorView::PatternRequired),
        ErrorView::PatternRequired.status() == EXIT_USAGE,
{
}

impl Config {
    /// Checks the command line before anything is read. `is_file[i]` tells
    /// whether `self.path[i]` names an existing regular file.
    pub fn validate(&self, is_file: &[bool]) -> (verdict: Result<(), AppError>)
        ensures
            match verdict {
                Ok(()) => validation(self.pattern@, self.path.deep_view(), is_file@) == Ok::<
                    (),
                    ErrorView,
                >(()),
                Err(error) => validation(self.pattern@, self.path.deep_view(), is_file@) == Err::<
                    (),
                    ErrorView,
                >(error@),
            },
    {
        if trim(self.pattern.as_str()).is_empty() {
            return Err(AppError::PatternRequired);
        }
        let ghost paths = self.path.deep_view();
        let stdin_path = String::from_str("-");
        let mut i: usize = 0;
        while i < self.path.len()
            invariant
                i <= self.path.len(),
                paths == self.path.deep_view(),
                stdin_path@ == dash(),
                trimmed(self.pattern@).len() != 0,
                forall|j: int| 0 <= j < i ==> readable(paths, is_file@, j),
            decreases self.path.len() - i,
        {
            let path = &self.path[i];
            let exempt = *path == stdin_path;
            if !exempt && !(i < is_file.len() && is_file[i]) {
                proof {
                    lemma_refused_at(self.pattern@, paths, is_file@, i as int);
                }
                return Err(AppError::InvalidFile(path.clone()));
            }
            i += 1;
        }
        proof {
            lemma_all_readable(self.pattern@, paths, is_file@);
        }
        Ok(())
    }

    /// The switches that the flags select.
    pub fn get_arguments(&self) -> (arguments: Arguments)
        ensures
            arguments == arguments_of(self.ignore_case, self.invert, self.count),
    {
        Arguments {
            case: if self.ignore_case {
                CaseMode::Insensitive
            } else {
                CaseMode::Sensitive
            },
            invert: if self.invert {
                MatchMode::Invert
            } else {
                MatchMode::Default
            },
            count: if self.count {
                OutputMode::Count
            } else {
                OutputMode::Default
            },
        }
    }

    /// The pattern as it was given.
    pub fn get_pattern(&self) -> (pattern: &str)
        ensures
            pattern@ == self.pattern@,
    {
        self.pattern.as_str()
    }

    /// The paths as they were given.
    pub fn get_paths(&self) -> (paths: &Vec<String>)
        ensures
            *paths == self.path,
    {
        &self.path
    }
}

} // verus!
