//! Whole listings: what the steps of a run come to, from the provider's
//! answers alone.

use crate::listing::{first_step, names_region, next_step, proceed, LookupView, StepView};
use crate::decimal::decimal;
use crate::report::{full_report, labels, region_report, Bucket, ReportView};
use crate::summary::{all_regions_summary, region_summary};
use vstd::prelude::*;

verus! {

/// The failure of the first failed request among the first `n` location
/// answers, if any of them failed.
pub open spec fn first_failure<E>(answers: Seq<Result<Seq<char>, E>>, n: nat) -> Option<E>
    decreases n,
{
    if n == 0 {
        None
    } else {
        match first_failure(answers, (n - 1) as nat) {
            Some(failure) => Some(failure),
            None => match answers[n - 1] {
                Err(failure) => Some(failure),
                Ok(_) => None,
            },
        }
    }
}

/// The labels, in order, of those of the first `n` buckets whose location
/// answer is the region.
pub open spec fn found_among<E>(
    names: Seq<Seq<char>>,
    answers: Seq<Result<Seq<char>, E>>,
    region: Seq<char>,
    n: nat,
) -> Seq<Seq<char>>
    decreases n,
{
    if n == 0 {
        Seq::empty()
    } else {
        let before = found_among(names, answers, region, (n - 1) as nat);
        if names_region(answers[n - 1], region) {
            before.push(names[n - 1])
        } else {
            before
        }
    }
}

/// The positions, in rising order, of those of the first `n` buckets whose
/// location answer is the region.
pub open spec fn found_positions<E>(
    answers: Seq<Result<Seq<char>, E>>,
    region: Seq<char>,
    n: nat,
) -> Seq<int>
    decreases n,
{
    if n == 0 {
        Seq::empty()
    } else {
        let before = found_positions(answers, region, (n - 1) as nat);
        if names_region(answers[n - 1], region) {
            before.push(n - 1)
        } else {
            before
        }
    }
}

/// The step that a listing has reached from `first` once the first `n`
/// location answers have been handed to it, each to the lookup that was then
/// waiting. A listing that is complete or given up takes no more answers.
pub open spec fn step_after<E>(
    first: StepView<E>,
    answers: Seq<Result<Seq<char>, E>>,
    n: nat,
) -> StepView<E>
    decreases n,
{
    if n == 0 {
        first
    } else {
        match step_after(first, answers, (n - 1) as nat) {
            StepView::Locate(state) => next_step(state, answers[n - 1]),
            ended => ended,
        }
    }
}

/// What a listing comes to: its report, or the failure of the first request
/// that failed. `answers[i]` is the provider's answer about the location of
/// bucket `i`; a listing of all buckets asks for none.
pub open spec fn outcome<E>(
    strict: bool,
    listed: Result<Seq<Seq<char>>, E>,
    answers: Seq<Result<Seq<char>, E>>,
    region: Seq<char>,
) -> Result<ReportView, E> {
    match listed {
        Err(failure) => Err(failure),
        Ok(names) => if strict {
            match first_failure(answers, names.len()) {
                Some(failure) => Err(failure),
                None => Ok(
                    region_report(
                        found_among(names, answers, region, names.len()),
                        region,
                        names.len(),
                    ),
                ),
            }
        } else {
            Ok(full_report(names))
        },
    }
}

/// The last step of a listing with the given outcome.
pub open spec fn last_step<E>(outcome: Result<ReportView, E>) -> StepView<E> {
    match outcome {
        Ok(report) => StepView::Done(report),
        Err(failure) => StepView::Failed(failure),
    }
}

/// A listing that is complete or given up stays as it is, whatever answers
/// follow.
pub proof fn lemma_ended_stays<E>(first: StepView<E>, answers: Seq<Result<Seq<char>, E>>, n: nat)
    requires
        !(first is Locate),
    ensures
        step_after(first, answers, n) == first,
    decreases n,
{
    if n > 0 {
        lemma_ended_stays(first, answers, (n - 1) as nat);
    }
}

/// A listing held to a region goes through the buckets in the provider's
/// order. After `n` answers it has failed with the first failure among them;
/// or, none having failed, it has kept exactly the buckets among the first
/// `n` whose answer is the region, and waits for bucket `n` or, if there is
/// none, reports.
pub proof fn lemma_steps_held_to_region<E>(
    names: Seq<Seq<char>>,
    answers: Seq<Result<Seq<char>, E>>,
    region: Seq<char>,
    n: nat,
)
    requires
        n <= names.len(),
        n <= answers.len(),
    ensures
        step_after(first_step(true, Ok(names), region), answers, n) == match first_failure(
            answers,
            n,
        ) {
            Some(failure) => StepView::Failed(failure),
            None => proceed(
                LookupView {
                    region,
                    names,
                    cursor: n,
                    found: found_among(names, answers, region, n),
                },
            ),
        },
    decreases n,
{
    if n > 0 {
        lemma_steps_held_to_region(names, answers, region, (n - 1) as nat);
    }
}

/// Handing a listing the provider's answers, one for each bucket where it is
/// held to a region, ends it with its outcome: the report, or the first
/// failure. A listing of all buckets has ended with its first step.
pub proof fn lemma_listing_reaches_outcome<E>(
    strict: bool,
    listed: Result<Seq<Seq<char>>, E>,
    answers: Seq<Result<Seq<char>, E>>,
    region: Seq<char>,
    n: nat,
)
    requires
        listed matches Ok(names) ==> n == names.len(),
        strict ==> n <= answers.len(),
    ensures
        step_after(first_step(strict, listed, region), answers, n) == last_step(
            outcome(strict, listed, answers, region),
        ),
        !strict ==> first_step(strict, listed, region) == last_step(
            outcome(strict, listed, answers, region),
        ),
{
    match listed {
        Err(failure) => {
            lemma_ended_stays(first_step(strict, listed, region), answers, n);
        },
        Ok(names) => {
            if strict {
                lemma_steps_held_to_region(names, answers, region, n);
            } else {
                lemma_ended_stays(first_step(strict, listed, region), answers, n);
            }
        },
    }
}

/// A listing of all buckets is complete with its first step, without a
/// request for a location. It prints one name for each bucket that the
/// provider returned, in the provider's order, and the count in its summary
/// is the number of names printed, which is the number of buckets returned.
pub proof fn lemma_full_listing_counts<E>(buckets: Seq<Bucket>, region: Seq<char>)
    ensures
        first_step::<E>(false, Ok(labels(buckets)), region) matches StepView::Done(report) && {
            &&& report.names.len() == buckets.len()
            &&& forall|i: int| 0 <= i < buckets.len() ==> report.names[i] == buckets[i].label()
            &&& report.summary == all_regions_summary(report.names.len())
        },
{
}

/// `found_positions` holds the position of each of the first `n` buckets
/// whose location answer is the region, character for character, and of no
/// other bucket, in rising order; `found_among` holds the labels at those
/// positions.
pub proof fn lemma_found_exactly_where_located<E>(
    names: Seq<Seq<char>>,
    answers: Seq<Result<Seq<char>, E>>,
    region: Seq<char>,
    n: nat,
)
    requires
        n <= names.len(),
        n <= answers.len(),
    ensures
        found_among(names, answers, region, n).len() == found_positions(answers, region, n).len(),
        found_positions(answers, region, n).len() <= n,
        forall|j: int|
            0 <= j < found_positions(answers, region, n).len() ==> {
                let at = #[trigger] found_positions(answers, region, n)[j];
                &&& 0 <= at < n
                &&& names_region(answers[at], region)
                &&& found_among(names, answers, region, n)[j] == names[at]
            },
        forall|j: int, k: int|
            0 <= j < k < found_positions(answers, region, n).len() ==> found_positions(
                answers,
                region,
                n,
            )[j] < found_positions(answers, region, n)[k],
        forall|i: int|
            0 <= i < n ==> (names_region(#[trigger] answers[i], region) <==> found_positions(
                answers,
                region,
                n,
            ).contains(i)),
    decreases n,
{
    if n > 0 {
        let m = (n - 1) as nat;
        lemma_found_exactly_where_located(names, answers, region, m);
        let before = found_positions(answers, region, m);
        let now = found_positions(answers, region, n);
        if names_region(answers[n - 1], region) {
            assert(now == before.push(n - 1));
            assert(now[before.len() as int] == n - 1);
            assert forall|i: int| 0 <= i < n implies (names_region(#[trigger] answers[i], region)
                <==> now.contains(i)) by {
                if i < n - 1 {
                    if before.contains(i) {
                        let j = choose|j: int| 0 <= j < before.len() && before[j] == i;
                        assert(now[j] == i);
                    }
                    if now.contains(i) {
                        let j = choose|j: int| 0 <= j < now.len() && now[j] == i;
                        assert(j < before.len());
                        assert(before[j] == i);
                    }
                }
            }
        } else {
            assert(now == before);
            assert forall|i: int| 0 <= i < n implies (names_region(#[trigger] answers[i], region)
                <==> now.contains(i)) by {
                if i == n - 1 && now.contains(i) {
                    let j = choose|j: int| 0 <= j < now.len() && now[j] == i;
                    assert(now[j] < m);
                }
            }
        }
    }
}

/// A listing held to a region prints a bucket if and only if the provider's
/// answer about its location is the region, character for character: the
/// names in its report are the labels of exactly those buckets, in the
/// provider's order.
pub proof fn lemma_listed_iff_located<E>(
    names: Seq<Seq<char>>,
    answers: Seq<Result<Seq<char>, E>>,
    region: Seq<char>,
)
    requires
        names.len() <= answers.len(),
    ensures
        step_after(first_step(true, Ok(names), region), answers, names.len()) matches StepView::Done(
            report,
        ) ==> {
            let at = found_positions(answers, region, names.len());
            &&& report.names.len() == at.len()
            &&& forall|j: int| 0 <= j < at.len() ==> report.names[j] == names[#[trigger] at[j]]
            &&& forall|j: int, k: int| 0 <= j < k < at.len() ==> at[j] < at[k]
            &&& forall|i: int|
                0 <= i < names.len() ==> (names_region(#[trigger] answers[i], region)
                    <==> at.contains(i))
        },
{
    lemma_listing_reaches_outcome(true, Ok(names), answers, region, names.len());
    lemma_found_exactly_where_located(names, answers, region, names.len());
}

/// In the report of a listing held to a region the count of buckets found is
/// the number of names printed and at most the count of all buckets, and the
/// summary shows these two counts and the region.
pub proof fn lemma_found_at_most_total<E>(
    names: Seq<Seq<char>>,
    answers: Seq<Result<Seq<char>, E>>,
    region: Seq<char>,
)
    requires
        names.len() <= answers.len(),
    ensures
        step_after(first_step(true, Ok(names), region), answers, names.len()) matches StepView::Done(
            report,
        ) ==> {
            &&& report.names.len() <= names.len()
            &&& report.summary == region_summary(report.names.len(), region, names.len())
        },
{
    lemma_listing_reaches_outcome(true, Ok(names), answers, region, names.len());
    lemma_found_exactly_where_located(names, answers, region, names.len());
}

/// Where no name is printed twice, the count of buckets found that the
/// summary of a listing held to a region shows is the number of distinct
/// names printed.
pub proof fn lemma_found_count_is_distinct_names<E>(
    names: Seq<Seq<char>>,
    answers: Seq<Result<Seq<char>, E>>,
    region: Seq<char>,
)
    requires
        names.len() <= answers.len(),
        found_among(names, answers, region, names.len()).no_duplicates(),
    ensures
        step_after(first_step(true, Ok(names), region), answers, names.len()) matches StepView::Done(
            report,
        ) ==> {
            &&& report.names.to_set().len() == report.names.len()
            &&& report.summary == region_summary(
                report.names.to_set().len(),
                region,
                names.len(),
            )
        },
{
    lemma_listing_reaches_outcome(true, Ok(names), answers, region, names.len());
    found_among(names, answers, region, names.len()).unique_seq_to_set();
}

/// Buckets with pairwise different names are printed at most once each by a
/// listing held to a region.
pub proof fn lemma_distinct_names_found_once<E>(
    names: Seq<Seq<char>>,
    answers: Seq<Result<Seq<char>, E>>,
    region: Seq<char>,
    n: nat,
)
    requires
        n <= names.len(),
        n <= answers.len(),
        names.no_duplicates(),
    ensures
        found_among(names, answers, region, n).no_duplicates(),
{
    lemma_found_exactly_where_located(names, answers, region, n);
    let found = found_among(names, answers, region, n);
    let at = found_positions(answers, region, n);
    assert forall|j: int, k: int| 0 <= j < found.len() && 0 <= k < found.len() && j != k implies found[j]
        != found[k] by {
        assert(found[j] == names[at[j]]);
        assert(found[k] == names[at[k]]);
        if j < k {
            assert(at[j] < at[k]);
        } else {
            assert(at[k] < at[j]);
        }
    }
}

/// What a listing held to a region makes of the first `n` buckets rests on
/// the first `n` answers alone.
pub proof fn lemma_same_answers_same_run<E>(
    names: Seq<Seq<char>>,
    first_answers: Seq<Result<Seq<char>, E>>,
    second_answers: Seq<Result<Seq<char>, E>>,
    region: Seq<char>,
    n: nat,
)
    requires
        n <= first_answers.len(),
        n <= second_answers.len(),
        forall|i: int| 0 <= i < n ==> first_answers[i] == second_answers[i],
    ensures
        first_failure(first_answers, n) == first_failure(second_answers, n),
        found_among(names, first_answers, region, n) == found_among(
            names,
            second_answers,
            region,
            n,
        ),
    decreases n,
{
    if n > 0 {
        lemma_same_answers_same_run(names, first_answers, second_answers, region, (n - 1) as nat);
    }
}

/// A listing is repeatable: two runs over buckets with the same names, with
/// the same region and the same answer about each bucket, end alike, name
/// for name and count for count, or with the same failure.
pub proof fn lemma_listing_repeatable<E>(
    strict: bool,
    first: Seq<Bucket>,
    second: Seq<Bucket>,
    first_answers: Seq<Result<Seq<char>, E>>,
    second_answers: Seq<Result<Seq<char>, E>>,
    region: Seq<char>,
)
    requires
        labels(first) == labels(second),
        strict ==> first.len() <= first_answers.len() && first.len() <= second_answers.len(),
        strict ==> forall|i: int| 0 <= i < first.len() ==> first_answers[i] == second_answers[i],
    ensures
        step_after(first_step(strict, Ok(labels(first)), region), first_answers, first.len())
            == step_after(
            first_step(strict, Ok(labels(second)), region),
            second_answers,
            second.len(),
        ),
{
    assert(second.len() == labels(second).len());
    lemma_listing_reaches_outcome(strict, Ok(labels(first)), first_answers, region, first.len());
    lemma_listing_reaches_outcome(strict, Ok(labels(second)), second_answers, region, second.len());
    if strict {
        lemma_same_answers_same_run(labels(first), first_answers, second_answers, region, first.len());
    }
}

/// An account without buckets: the listing is complete with its first step,
/// prints no name, and its summary shows the count zero, for the buckets
/// found and for all buckets alike.
pub proof fn lemma_empty_account<E>(strict: bool, region: Seq<char>)
    ensures
        decimal(0) == seq!['0'],
        first_step::<E>(strict, Ok(Seq::empty()), region) == StepView::<E>::Done(
            ReportView {
                names: Seq::empty(),
                summary: if strict {
                    region_summary(0, region, 0)
                } else {
                    all_regions_summary(0)
                },
            },
        ),
{
}

} // verus!
