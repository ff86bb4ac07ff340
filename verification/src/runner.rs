//! A whole run: which inputs are read, and what is written and returned once
//! they have been read.

use vstd::prelude::*;

use crate::errors::{AppError, ErrorView};
use crate::options::{Arguments, OutputMode};
use crate::query::{Query, QueryView};
use crate::search::{
    count_search, default_search, keeper, kept, lines_read, read_failure, reads_view, ReadView,
};

verus! {

/// One input of a run.
#[derive(Debug, Clone, PartialEq, Eq)]
pub enum Input {
    /// The standard input of the process.
    Stdin,
    /// The file at this path.
    File(String),
}

/// An [`Input`] with its path as a character sequence.
pub enum InputView {
    Stdin,
    File(Seq<char>),
}

impl View for Input {
    type V = InputView;

    open spec fn view(&self) -> InputView {
        match self {
            Input::Stdin => InputView::Stdin,
            Input::File(path) => InputView::File(path@),
        }
    }
}

/// The inputs read for a list of paths: the standard input alone when no path
/// is given, and otherwise the file at each path, in the order given.
pub open spec fn input_plan(paths: Seq<Seq<char>>) -> Seq<InputView> {
    if paths.len() == 0 {
        seq![InputView::Stdin]
    } else {
        Seq::new(paths.len(), |i: int| InputView::File(paths[i]))
    }
}

/// The inputs of a sequence as mathematical values.
pub open spec fn inputs_view(inputs: Seq<Input>) -> Seq<InputView> {
    Seq::new(inputs.len(), |i: int| inputs[i]@)
}

/// Which inputs a run reads for the given paths, in reading order.
pub fn inputs(paths: &[String]) -> (plan: Vec<Input>)
    ensures
        inputs_view(plan@) == input_plan(paths.deep_view()),
{
    let mut plan: Vec<Input> = Vec::new();
    if paths.len() == 0 {
        plan.push(Input::Stdin);
        assert(inputs_view(plan@) =~= input_plan(paths.deep_view()));
        return plan;
    }
    let mut i: usize = 0;
    while i < paths.len()
        invariant
            i <= paths.len(),
            plan.len() == i,
            forall|j: int| 0 <= j < i ==> plan@[j]@ == InputView::File(paths@[j]@),
        decreases paths.len() - i,
    {
        plan.push(Input::File(paths[i].clone()));
        i += 1;
    }
    assert(inputs_view(plan@) =~= input_plan(paths.deep_view()));
    plan
}

/// What became of one input when it was opened and read.
#[derive(Debug, Clone, PartialEq, Eq)]
pub enum Source {
    /// The input could not be opened; holds the message of the failure.
    Unopened(String),
    /// The input was opened; holds what each attempt to read a line gave, in
    /// order.
    Opened(Vec<Result<String, String>>),
}

/// A [`Source`] as mathematical values.
pub enum SourceView {
    Unopened(Seq<char>),
    Opened(Seq<ReadView>),
}

impl View for Source {
    type V = SourceView;

    open spec fn view(&self) -> SourceView {
        match self {
            Source::Unopened(message) => SourceView::Unopened(message@),
            Source::Opened(reads) => SourceView::Opened(reads_view(reads@)),
        }
    }
}

impl SourceView {
    /// The message with which the input failed: that of opening it, or that
    /// of the first read that failed.
    pub open spec fn failure(self) -> Option<Seq<char>> {
        match self {
            SourceView::Unopened(message) => Some(message),
            SourceView::Opened(reads) => read_failure(reads),
        }
    }

    /// The lines of the input that the search keeps, for an input that was
    /// opened and read to its end.
    pub open spec fn kept(self, query: QueryView, options: Arguments) -> Seq<Seq<char>> {
        match self {
            SourceView::Unopened(_) => Seq::empty(),
            SourceView::Opened(reads) => kept(query, options, lines_read(reads)),
        }
    }
}

/// The sources of a sequence as mathematical values.
pub open spec fn sources_view(sources: Seq<Source>) -> Seq<SourceView> {
    Seq::new(sources.len(), |i: int| sources[i]@)
}

/// The source at `at` failed, and no source before it did.
pub open spec fn stops_at(sources: Seq<SourceView>, at: int) -> bool {
    &&& 0 <= at < sources.len()
    &&& sources[at].failure() is Some
    &&& forall|earlier: int| 0 <= earlier < at ==> sources[earlier].failure() is None
}

/// How many sources a run gets through: those before the first that failed,
/// or all of them.
pub open spec fn reached(sources: Seq<SourceView>) -> int {
    if exists|at: int| stops_at(sources, at) {
        choose|at: int| stops_at(sources, at)
    } else {
        sources.len() as int
    }
}

/// The kept lines of each source, one source after the other.
pub open spec fn printed(query: QueryView, options: Arguments, sources: Seq<SourceView>) -> Seq<
    Seq<char>,
>
    decreases sources.len(),
{
    if sources.len() == 0 {
        Seq::empty()
    } else {
        printed(query, options, sources.drop_last()) + sources.last().kept(query, options)
    }
}

/// The number of kept lines, summed over the sources.
pub open spec fn counted(query: QueryView, options: Arguments, sources: Seq<SourceView>) -> nat
    decreases sources.len(),
{
    if sources.len() == 0 {
        0
    } else {
        counted(query, options, sources.drop_last()) + sources.last().kept(query, options).len()
    }
}

/// What a run leaves behind.
#[derive(Debug, PartialEq, Eq)]
pub struct Report {
    /// The lines to write to the output, each on a line of its own.
    pub lines: Vec<String>,
    /// The number to write after them on a line of its own, if there is one.
    pub total: Option<u128>,
    /// How the run ended.
    pub result: Result<(), AppError>,
}

/// A [`Report`] as mathematical values.
pub struct ReportView {
    pub lines: Seq<Seq<char>>,
    pub total: Option<nat>,
    pub result: Result<(), ErrorView>,
}

impl View for Report {
    type V = ReportView;

    open spec fn view(&self) -> ReportView {
        ReportView {
            lines: self.lines.deep_view(),
            total: match self.total {
                Some(total) => Some(total as nat),
                None => None,
            },
            result: match self.result {
                Ok(()) => Ok(()),
                Err(error) => Err(error@),
            },
        }
    }
}

/// How a run over the sources ends: with the failure of the first source that
/// failed, or well.
pub open spec fn run_result(sources: Seq<SourceView>) -> Result<(), ErrorView> {
    if reached(sources) < sources.len() {
        Err(ErrorView::Io(sources[reached(sources)].failure()->0))
    } else {
        Ok(())
    }
}

/// What a run over the sources leaves behind.
///
/// When lines are asked for, the kept lines of every source before the first
/// that failed are written, source after source, and no number. When the
/// count is asked for, no line is written, and the number of kept lines of
/// all sources together is written only if no source failed.
pub open spec fn run_report(
    query: QueryView,
    options: Arguments,
    sources: Seq<SourceView>,
) -> ReportView {
    match options.count {
        OutputMode::Default => ReportView {
            lines: printed(query, options, sources.take(reached(sources))),
            total: None,
            result: run_result(sources),
        },
        OutputMode::Count => ReportView {
            lines: Seq::empty(),
            total: if run_result(sources) is Ok {
                Some(counted(query, options, sources))
            } else {
                None
            },
            result: run_result(sources),
        },
    }
}

/// The run stops where the first failed source stands.
pub proof fn lemma_reached_at(sources: Seq<SourceView>, at: int)
    requires
        stops_at(sources, at),
    ensures
        reached(sources) == at,
{
    let chosen = choose|at: int| stops_at(sources, at);
    assert(stops_at(sources, chosen));
    if chosen < at {
        assert(sources[chosen].failure() is None);
    }
    if at < chosen {
        assert(sources[at].failure() is None);
    }
}

/// Where no source failed the run gets through all of them.
pub proof fn lemma_reached_all(sources: Seq<SourceView>)
    requires
        forall|i: int| 0 <= i < sources.len() ==> sources[i].failure() is None,
    ensures
        reached(sources) == sources.len(),
{
    assert forall|at: int| !stops_at(sources, at) by {
        if 0 <= at < sources.len() {
            assert(sources[at].failure() is None);
        }
    }
}

/// What is kept of the sources depends on the switches only through the
/// invert switch.
proof fn lemma_printed_by_invert(
    query: QueryView,
    first: Arguments,
    second: Arguments,
    sources: Seq<SourceView>,
)
    requires
        first.invert == second.invert,
    ensures
        printed(query, first, sources) == printed(query, second, sources),
        counted(query, first, sources) == printed(query, second, sources).len(),
    decreases sources.len(),
{
    assert(keeper(query, first) =~= keeper(query, second));
    if sources.len() > 0 {
        lemma_printed_by_invert(query, first, second, sources.drop_last());
    }
}

/// Law of the total. Over sources that were all opened and read to their
/// end, the number that a counting run writes is the number of lines that the
/// same run writes when it is asked for the lines.
pub proof fn law_total_is_number_of_lines(
    query: QueryView,
    listing: Arguments,
    counting: Arguments,
    sources: Seq<SourceView>,
)
    requires
        listing.count == OutputMode::Default,
        counting.count == OutputMode::Count,
        listing.invert == counting.invert,
        run_result(sources) is Ok,
    ensures
        run_report(query, counting, sources).total == Some(
            run_report(query, listing, sources).lines.len(),
        ),
{
    lemma_printed_by_invert(query, counting, listing, sources);
    assert(sources.take(reached(sources)) =~= sources);
}

/// Runs the search over the sources, which hold what opening and reading each
/// input gave, in the order in which the inputs were read. Sources after the
/// first that failed are not looked at.
pub fn run(query: &Query, options: Arguments, sources: &[Source]) -> (report: Report)
    ensures
        report@ == run_report(query@, options, sources_view(sources@)),
{
    let ghost model = sources_view(sources@);
    let mut lines: Vec<String> = Vec::new();
    let mut total: u128 = 0;
    let mut i: usize = 0;
    while i < sources.len()
        invariant
            i <= sources.len(),
            model == sources_view(sources@),
            forall|j: int| 0 <= j < i ==> model[j].failure() is None,
            options.count == OutputMode::Default ==> lines.deep_view() == printed(
                query@,
                options,
                model.take(i as int),
            ),
            options.count == OutputMode::Count ==> lines@.len() == 0,
            options.count == OutputMode::Count ==> total == counted(
                query@,
                options,
                model.take(i as int),
            ),
            total <= i * usize::MAX,
        decreases sources.len() - i,
    {
        let ghost before = lines.deep_view();
        assert(model.take(i as int + 1).drop_last() =~= model.take(i as int));
        assert(model.take(i as int + 1).last() == model[i as int]);
        let failed: Option<AppError> = match &sources[i] {
            Source::Unopened(message) => Some(AppError::Io(message.clone())),
            Source::Opened(reads) => match options.count {
                OutputMode::Default => match default_search(query, options, reads.as_slice()) {
                    Ok(mut found) => {
                        let ghost added = found.deep_view();
                        lines.append(&mut found);
                        assert(lines.deep_view() =~= before + added);
                        None
                    },
                    Err(error) => Some(error),
                },
                OutputMode::Count => match count_search(query, options, reads.as_slice()) {
                    Ok(count) => {
                        assert(total + count <= (i + 1) * usize::MAX) by (nonlinear_arith)
                            requires
                                total <= i * usize::MAX,
                                count <= usize::MAX,
                        ;
                        assert((i + 1) * usize::MAX <= u128::MAX) by (nonlinear_arith)
                            requires
                                i + 1 <= usize::MAX,
                                usize::MAX <= 0xffff_ffff_ffff_ffff,
                                u128::MAX == 0xffff_ffff_ffff_ffff_ffff_ffff_ffff_ffff,
                        ;
                        total = total + count as u128;
                        None
                    },
                    Err(error) => Some(error),
                },
            },
        };
        match failed {
            Some(error) => {
                proof {
                    lemma_reached_at(model, i as int);
                }
                if let OutputMode::Count = options.count {
                    assert(lines.deep_view() =~= Seq::<Seq<char>>::empty());
                }
                return Report { lines, total: None, result: Err(error) };
            },
            None => {},
        }
        i += 1;
    }
    proof {
        lemma_reached_all(model);
        assert(model.take(i as int) =~= model);
    }
    match options.count {
        OutputMode::Default => Report { lines, total: None, result: Ok(()) },
        OutputMode::Count => {
            assert(lines.deep_view() =~= Seq::<Seq<char>>::empty());
            Report { lines, total: Some(total), result: Ok(()) }
        },
    }
}

} // verus!
