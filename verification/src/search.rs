//! Searching the lines of one input: which lines a query keeps, and what a
//! search returns when the lines arrive as the results of reading them.

use vstd::prelude::*;
use vstd::utf8::encode_utf8;

use crate::errors::{AppError, ErrorView};
use crate::options::{Arguments, CaseMode, MatchMode};
use crate::query::{Query, QueryView};
use crate::text::{law_occurrence_is_byte_exact, occurs_in};

verus! {

/// What one attempt to read a line gave: the line without its terminator, or
/// the message of the failure.
pub type ReadView = Result<Seq<char>, Seq<char>>;

/// The reads of an input as mathematical values.
pub open spec fn reads_view(reads: Seq<Result<String, String>>) -> Seq<ReadView> {
    Seq::new(
        reads.len(),
        |i: int|
            match reads[i] {
                Ok(line) => Ok(line@),
                Err(message) => Err(message@),
            },
    )
}

/// The read at `at` failed, and no read before it did.
pub open spec fn fails_first_at(reads: Seq<ReadView>, at: int) -> bool {
    &&& 0 <= at < reads.len()
    &&& reads[at] is Err
    &&& forall|earlier: int| 0 <= earlier < at ==> reads[earlier] is Ok
}

/// The message of the first read that failed, if any read failed.
pub open spec fn read_failure(reads: Seq<ReadView>) -> Option<Seq<char>> {
    if exists|at: int| fails_first_at(reads, at) {
        Some(reads[choose|at: int| fails_first_at(reads, at)]->Err_0)
    } else {
        None
    }
}

/// The lines that the reads gave, in order. A failed read counts as an empty
/// line, so the result means something only where no read failed.
pub open spec fn lines_read(reads: Seq<ReadView>) -> Seq<Seq<char>> {
    Seq::new(
        reads.len(),
        |i: int|
            match reads[i] {
                Ok(line) => line,
                Err(_) => Seq::empty(),
            },
    )
}

/// The search keeps the line: the needle occurs in it and the search is not
/// inverted, or the needle does not occur in it and the search is inverted.
pub open spec fn keeps(query: QueryView, options: Arguments, line: Seq<char>) -> bool {
    (options.invert == MatchMode::Invert) != query.matches(line)
}

/// [`keeps`] as a predicate on lines.
pub open spec fn keeper(query: QueryView, options: Arguments) -> spec_fn(Seq<char>) -> bool {
    |line: Seq<char>| keeps(query, options, line)
}

/// The lines that the search keeps, in the order in which they stand.
pub open spec fn kept(query: QueryView, options: Arguments, lines: Seq<Seq<char>>) -> Seq<
    Seq<char>,
> {
    lines.filter(keeper(query, options))
}

/// What a search of the reads returns: the failure of the first read that
/// failed, and nothing of the lines before it; the kept lines when every read
/// succeeded.
pub open spec fn search_outcome(
    query: QueryView,
    options: Arguments,
    reads: Seq<ReadView>,
) -> Result<Seq<Seq<char>>, ErrorView> {
    match read_failure(reads) {
        Some(message) => Err(ErrorView::Io(message)),
        None => Ok(kept(query, options, lines_read(reads))),
    }
}

/// What a count of the reads returns: the failure of the first read that
/// failed; the number of kept lines when every read succeeded.
pub open spec fn count_outcome(
    query: QueryView,
    options: Arguments,
    reads: Seq<ReadView>,
) -> Result<nat, ErrorView> {
    match read_failure(reads) {
        Some(message) => Err(ErrorView::Io(message)),
        None => Ok(kept(query, options, lines_read(reads)).len()),
    }
}

/// The first failure is where the first failed read stands.
pub proof fn lemma_failure_at(reads: Seq<ReadView>, at: int)
    requires
        fails_first_at(reads, at),
    ensures
        read_failure(reads) == Some(reads[at]->Err_0),
{
    let chosen = choose|at: int| fails_first_at(reads, at);
    assert(fails_first_at(reads, chosen));
    assert(chosen == at) by {
        if chosen < at {
            assert(reads[chosen] is Ok);
        }
        if at < chosen {
            assert(reads[at] is Ok);
        }
    }
}

/// Where every read succeeded there is no failure.
pub proof fn lemma_no_failure(reads: Seq<ReadView>)
    requires
        forall|i: int| 0 <= i < reads.len() ==> reads[i] is Ok,
    ensures
        read_failure(reads) is None,
{
    assert forall|at: int| !fails_first_at(reads, at) by {
        if 0 <= at < reads.len() {
            assert(reads[at] is Ok);
        }
    }
}

/// One more line at the end is kept, or not, without a change to what was
/// kept of the lines before it.
pub proof fn lemma_kept_push(
    query: QueryView,
    options: Arguments,
    lines: Seq<Seq<char>>,
    line: Seq<char>,
)
    ensures
        kept(query, options, lines.push(line)) == if keeps(query, options, line) {
            kept(query, options, lines).push(line)
        } else {
            kept(query, options, lines)
        },
{
    reveal(Seq::filter);
    assert(lines.push(line).drop_last() =~= lines);
}

/// Law of the case-sensitive search. A query built from `pattern` with case
/// sensitivity, searched without inversion, returns exactly the lines in which
/// `pattern` occurs, in the order in which they were read; where a read fails
/// it returns that failure. A line is kept exactly when the pattern occurs in
/// it character for character, which is exactly when the bytes of the pattern
/// occur among the bytes of the line.
pub proof fn law_sensitive_search_finds_pattern(
    query: QueryView,
    pattern: Seq<char>,
    options: Arguments,
    reads: Seq<ReadView>,
)
    requires
        query.built_from(pattern),
        query.options.case == CaseMode::Sensitive,
        options.invert == MatchMode::Default,
    ensures
        search_outcome(query, options, reads) == match read_failure(reads) {
            Some(message) => Err::<Seq<Seq<char>>, ErrorView>(ErrorView::Io(message)),
            None => Ok(lines_read(reads).filter(|line: Seq<char>| occurs_in(pattern, line))),
        },
        forall|line: Seq<char>| keeps(query, options, line) <==> occurs_in(pattern, line),
        forall|line: Seq<char>|
            keeps(query, options, line) <==> occurs_in(
                encode_utf8(pattern),
                #[trigger] encode_utf8(line),
            ),
{
    let occurs = |line: Seq<char>| occurs_in(pattern, line);
    assert(keeper(query, options) =~= occurs);
    assert forall|line: Seq<char>|
        keeps(query, options, line) <==> occurs_in(
            encode_utf8(pattern),
            #[trigger] encode_utf8(line),
        ) by {
        law_occurrence_is_byte_exact(pattern, line);
    }
}

/// Law of inversion. Over the same lines, the inverted search keeps a line
/// exactly when the plain search does not: its result is the lines that the
/// plain search leaves out, in order, and the two results together are the
/// lines of the input, each as often as it stands there.
pub proof fn law_invert_is_complement(
    query: QueryView,
    plain: Arguments,
    inverted: Arguments,
    lines: Seq<Seq<char>>,
)
    requires
        plain.invert == MatchMode::Default,
        inverted.invert == MatchMode::Invert,
    ensures
        forall|line: Seq<char>| keeps(query, inverted, line) <==> !keeps(query, plain, line),
        kept(query, inverted, lines) == lines.filter(
            |line: Seq<char>| !keeps(query, plain, line),
        ),
        kept(query, plain, lines).to_multiset().add(kept(query, inverted, lines).to_multiset())
            == lines.to_multiset(),
        kept(query, plain, lines).len() + kept(query, inverted, lines).len() == lines.len(),
    decreases lines.len(),
{
    let left_out = |line: Seq<char>| !keeps(query, plain, line);
    assert(keeper(query, inverted) =~= left_out);
    broadcast use vstd::seq_lib::group_to_multiset_ensures;

    if lines.len() == 0 {
        reveal(Seq::filter);
        assert(kept(query, plain, lines) =~= lines);
        assert(kept(query, inverted, lines) =~= lines);
        assert(lines.to_multiset().add(lines.to_multiset()) =~= lines.to_multiset());
    } else {
        let front = lines.drop_last();
        let last = lines.last();
        law_invert_is_complement(query, plain, inverted, front);
        assert(lines =~= front.push(last));
        lemma_kept_push(query, plain, front, last);
        lemma_kept_push(query, inverted, front, last);
        let p = kept(query, plain, front);
        let v = kept(query, inverted, front);
        if keeps(query, plain, last) {
            assert(p.push(last).to_multiset().add(v.to_multiset()) =~= p.to_multiset().add(
                v.to_multiset(),
            ).insert(last));
        } else {
            assert(p.to_multiset().add(v.push(last).to_multiset()) =~= p.to_multiset().add(
                v.to_multiset(),
            ).insert(last));
        }
    }
}

/// Law of counting. For the same query, switches and reads, a count returns
/// the length of what a search returns, and fails exactly when the search
/// fails, with the same failure.
pub proof fn law_count_is_search_length(
    query: QueryView,
    options: Arguments,
    reads: Seq<ReadView>,
)
    ensures
        count_outcome(query, options, reads) == match search_outcome(query, options, reads) {
            Ok(lines) => Ok::<nat, ErrorView>(lines.len()),
            Err(error) => Err(error),
        },
{
}

/// Searches the lines of one input. `reads` holds what each attempt to read a
/// line gave, in order. The result is the kept lines in that order, or the
/// failure of the first read that failed; of a failed input no line is
/// returned.
pub fn default_search(query: &Query, options: Arguments, reads: &[Result<String, String>]) -> (found:
    Result<Vec<String>, AppError>)
    ensures
        match found {
            Ok(lines) => search_outcome(query@, options, reads_view(reads@)) == Ok::<
                Seq<Seq<char>>,
                ErrorView,
            >(lines.deep_view()),
            Err(error) => search_outcome(query@, options, reads_view(reads@)) == Err::<
                Seq<Seq<char>>,
                ErrorView,
            >(error@),
        },
{
    let invert: bool = match options.invert {
        MatchMode::Default => false,
        MatchMode::Invert => true,
    };
    let ghost model = reads_view(reads@);
    let ghost lines = lines_read(model);
    let mut out: Vec<String> = Vec::new();
    let mut i: usize = 0;
    while i < reads.len()
        invariant
            i <= reads.len(),
            model == reads_view(reads@),
            lines == lines_read(model),
            invert == (options.invert == MatchMode::Invert),
            forall|j: int| 0 <= j < i ==> model[j] is Ok,
            out.deep_view() == kept(query@, options, lines.take(i as int)),
        decreases reads.len() - i,
    {
        match &reads[i] {
            Err(message) => {
                proof {
                    lemma_failure_at(model, i as int);
                }
                return Err(AppError::Io(message.clone()));
            },
            Ok(line) => {
                let matched = query.match_lines(line.as_str());
                let ghost before = out.deep_view();
                if invert ^ matched {
                    out.push(line.clone());
                    assert(out.deep_view() =~= before.push(line@));
                }
                proof {
                    lemma_kept_push(query@, options, lines.take(i as int), line@);
                    assert(lines.take(i as int + 1) =~= lines.take(i as int).push(line@));
                }
            },
        }
        i += 1;
    }
    proof {
        lemma_no_failure(model);
        assert(lines.take(i as int) =~= lines);
    }
    Ok(out)
}

/// Counts the kept lines of one input. `reads` holds what each attempt to
/// read a line gave, in order. The result is the number of lines that
/// [`default_search`] would return, or the failure of the first read that
/// failed.
pub fn count_search(query: &Query, options: Arguments, reads: &[Result<String, String>]) -> (found:
    Result<usize, AppError>)
    ensures
        match found {
            Ok(count) => count_outcome(query@, options, reads_view(reads@)) == Ok::<nat, ErrorView>(
                count as nat,
            ),
            Err(error) => count_outcome(query@, options, reads_view(reads@)) == Err::<
                nat,
                ErrorView,
            >(error@),
        },
{
    let invert: bool = match options.invert {
        MatchMode::Default => false,
        MatchMode::Invert => true,
    };
    let ghost model = reads_view(reads@);
    let ghost lines = lines_read(model);
    let mut count: usize = 0;
    let mut i: usize = 0;
    while i < reads.len()
        invariant
            i <= reads.len(),
            model == reads_view(reads@),
            lines == lines_read(model),
            invert == (options.invert == MatchMode::Invert),
            forall|j: int| 0 <= j < i ==> model[j] is Ok,
            count == kept(query@, options, lines.take(i as int)).len(),
            count <= i,
        decreases reads.len() - i,
    {
        match &reads[i] {
            Err(message) => {
                proof {
                    lemma_failure_at(model, i as int);
                }
                return Err(AppError::Io(message.clone()));
            },
            Ok(line) => {
                let matched = query.match_lines(line.as_str());
                proof {
                    lemma_kept_push(query@, options, lines.take(i as int), line@);
                    assert(lines.take(i as int + 1) =~= lines.take(i as int).push(line@));
                }
                if invert ^ matched {
                    count += 1;
                }
            },
        }
        i += 1;
    }
    proof {
        lemma_no_failure(model);
        assert(lines.take(i as int) =~= lines);
    }
    Ok(count)
}

} // verus!
