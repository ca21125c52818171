//! The listing itself, as a sequence of steps.
//!
//! A listing asks the provider for the account's buckets once. Held to a
//! region, it then asks for the location of each bucket in turn, one request
//! at a time, and keeps the buckets whose location is the region. The first
//! failed request ends the listing with that failure and without a report.
//!
//! The requests are made by the caller. [`show_buckets`] takes the answer to
//! the first request; each [`Lookup`] takes the answer to its own.

use crate::report::{full_report, labels, region_report, Bucket, Report, ReportView};
use crate::summary::{all_regions_summary_text, region_summary_text};
use vstd::prelude::*;
use vstd::string::*;

verus! {

/// A listing that waits for the location of one bucket.
pub struct Lookup {
    region: String,
    buckets: Vec<Bucket>,
    cursor: usize,
    found: Vec<String>,
}

/// A waiting listing as plain values.
pub struct LookupView {
    /// The region that the listing is held to.
    pub region: Seq<char>,
    /// The label of every bucket of the account, in the provider's order.
    pub names: Seq<Seq<char>>,
    /// How many buckets are settled; the location of the next one is awaited.
    pub cursor: nat,
    /// The labels of the settled buckets that lie in the region.
    pub found: Seq<Seq<char>>,
}

impl LookupView {
    /// A bucket is awaited, and no more buckets were found than are settled.
    pub open spec fn wf(self) -> bool {
        &&& self.cursor < self.names.len()
        &&& self.found.len() <= self.cursor
    }

    /// The label of the bucket whose location is awaited.
    pub open spec fn awaited(self) -> Seq<char> {
        self.names[self.cursor as int]
    }
}

/// Where a listing stands.
pub enum Step<E> {
    /// The location of one bucket is to be asked for and handed to the lookup.
    Locate(Lookup),
    /// The listing is complete: this is its report.
    Done(Report),
    /// A request failed: the listing is given up with the failure it met.
    Failed(E),
}

/// A step as plain values.
pub enum StepView<E> {
    Locate(LookupView),
    Done(ReportView),
    Failed(E),
}

impl View for Lookup {
    type V = LookupView;

    closed spec fn view(&self) -> LookupView {
        LookupView {
            region: self.region@,
            names: labels(self.buckets@),
            cursor: self.cursor as nat,
            found: self.found.deep_view(),
        }
    }
}

impl<E> View for Step<E> {
    type V = StepView<E>;

    open spec fn view(&self) -> StepView<E> {
        match *self {
            Step::Locate(lookup) => StepView::Locate(lookup@),
            Step::Done(report) => StepView::Done(report@),
            Step::Failed(failure) => StepView::Failed(failure),
        }
    }
}

/// The provider's answer to the request for the buckets, by their labels.
pub open spec fn listed_labels<E>(listed: Result<Vec<Bucket>, E>) -> Result<Seq<Seq<char>>, E> {
    match listed {
        Ok(buckets) => Ok(labels(buckets@)),
        Err(failure) => Err(failure),
    }
}

/// The provider's answer to the request for one bucket's location, as text.
/// A bucket for which the provider records no location has the empty text
/// for its location.
pub open spec fn answer_text<E>(answer: Result<Option<String>, E>) -> Result<Seq<char>, E> {
    match answer {
        Ok(Some(location)) => Ok(location@),
        Ok(None) => Ok(Seq::empty()),
        Err(failure) => Err(failure),
    }
}

/// True where the provider answered with a location that is the region,
/// character for character.
pub open spec fn names_region<E>(answer: Result<Seq<char>, E>, region: Seq<char>) -> bool {
    answer matches Ok(location) && location == region
}

/// The step of a listing held to a region in which `state.cursor` buckets are
/// settled: the next bucket is looked up, or none is left and the report is
/// due.
pub open spec fn proceed<E>(state: LookupView) -> StepView<E> {
    if state.cursor < state.names.len() {
        StepView::Locate(state)
    } else {
        StepView::Done(region_report(state.found, state.region, state.names.len()))
    }
}

/// The first step of a listing, from the provider's answer to the request for
/// the buckets.
pub open spec fn first_step<E>(
    strict: bool,
    listed: Result<Seq<Seq<char>>, E>,
    region: Seq<char>,
) -> StepView<E> {
    match listed {
        Err(failure) => StepView::Failed(failure),
        Ok(names) => if strict {
            proceed(LookupView { region, names, cursor: 0, found: Seq::empty() })
        } else {
            StepView::Done(full_report(names))
        },
    }
}

/// The step that follows a lookup, from the provider's answer to it.
pub open spec fn next_step<E>(state: LookupView, answer: Result<Seq<char>, E>) -> StepView<E> {
    match answer {
        Err(failure) => StepView::Failed(failure),
        Ok(location) => proceed(
            LookupView {
                region: state.region,
                names: state.names,
                cursor: state.cursor + 1,
                found: if location == state.region {
                    state.found.push(state.awaited())
                } else {
                    state.found
                },
            },
        ),
    }
}

/// The name of every bucket, in order.
fn shown_names(buckets: &Vec<Bucket>) -> (names: Vec<String>)
    ensures
        names.deep_view() == labels(buckets@),
{
    let mut names: Vec<String> = Vec::new();
    let mut i: usize = 0;
    while i < buckets.len()
        invariant
            i <= buckets.len(),
            names.len() == i,
            forall|k: int| 0 <= k < i ==> names[k]@ == buckets[k].label(),
        decreases buckets.len() - i,
    {
        names.push(buckets[i].shown_name());
        i = i + 1;
    }
    assert(names.deep_view() =~= labels(buckets@));
    names
}

/// Goes on with a listing held to a region in which `cursor` buckets are
/// settled.
fn resume<E>(region: String, buckets: Vec<Bucket>, cursor: usize, found: Vec<String>) -> (step:
    Step<E>)
    requires
        cursor <= buckets.len(),
        found.len() <= cursor,
    ensures
        step@ == proceed::<E>(
            LookupView {
                region: region@,
                names: labels(buckets@),
                cursor: cursor as nat,
                found: found.deep_view(),
            },
        ),
{
    if cursor < buckets.len() {
        Step::Locate(Lookup { region, buckets, cursor, found })
    } else {
        let summary = region_summary_text(found.len(), region.as_str(), buckets.len());
        Step::Done(Report { names: found, summary })
    }
}

/// Starts a listing from the provider's answer to the request for the
/// account's buckets.
///
/// A failed request fails the listing. Otherwise a listing of all buckets is
/// complete at once and reports every bucket; one held to `region` (`strict`)
/// looks up the first bucket, or reports at once that there is none.
pub fn show_buckets<E>(strict: bool, listed: Result<Vec<Bucket>, E>, region: &str) -> (step: Step<
    E,
>)
    ensures
        step@ == first_step(strict, listed_labels(listed), region@),
        step matches Step::Locate(lookup) ==> lookup@.wf(),
{
    match listed {
        Err(failure) => Step::Failed(failure),
        Ok(buckets) => {
            if strict {
                let found: Vec<String> = Vec::new();
                assert(found.deep_view() =~= Seq::<Seq<char>>::empty());
                resume(String::from_str(region), buckets, 0, found)
            } else {
                let names = shown_names(&buckets);
                let summary = all_regions_summary_text(buckets.len());
                Step::Done(Report { names, summary })
            }
        },
    }
}

impl Lookup {
    #[verifier::type_invariant]
    spec fn settled_in_range(&self) -> bool {
        &&& self.cursor < self.buckets.len()
        &&& self.found.len() <= self.cursor
    }

    /// The name to ask the provider about: that of the bucket whose location
    /// is awaited.
    pub fn bucket_name(&self) -> (name: String)
        ensures
            self@.wf(),
            name@ == self@.awaited(),
    {
        proof {
            use_type_invariant(self);
        }
        self.buckets[self.cursor].shown_name()
    }

    /// Goes on from the provider's answer to the request for the awaited
    /// bucket's location.
    ///
    /// A failed request fails the listing. Otherwise the bucket is kept if
    /// and only if the location is the region, character for character, and
    /// the listing looks up the next bucket or, after the last, reports. A
    /// location that the provider does not record is the empty text, and is
    /// held against the region like any other.
    pub fn answer<E>(self, answer: Result<Option<String>, E>) -> (step: Step<E>)
        ensures
            self@.wf(),
            step@ == next_step(self@, answer_text(answer)),
            step matches Step::Locate(lookup) ==> lookup@.wf(),
    {
        proof {
            use_type_invariant(&self);
        }
        match answer {
            Err(failure) => Step::Failed(failure),
            Ok(recorded) => {
                let location = match recorded {
                    Some(location) => location,
                    None => String::new(),
                };
                let Lookup { region, buckets, cursor, found } = self;
                let mut found = found;
                if location == region {
                    let ghost before = found.deep_view();
                    let name = buckets[cursor].shown_name();
                    found.push(name);
                    assert(found.deep_view() =~= before.push(buckets[cursor as int].label()));
                }
                resume(region, buckets, cursor + 1, found)
            },
        }
    }
}

} // verus!
