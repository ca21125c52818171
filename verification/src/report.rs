//! Buckets as the provider reports them, and the report that a listing ends
//! with.

use crate::summary::{all_regions_summary, region_summary};
use vstd::prelude::*;
use vstd::string::*;

verus! {

/// One bucket of the provider's answer. Only the name is read, and the
/// provider may leave it out.
#[derive(Clone, Debug)]
pub struct Bucket {
    pub name: Option<String>,
}

impl Bucket {
    /// The text that stands for the bucket wherever its name is used: the
    /// name, or the empty text where the provider gave none.
    pub open spec fn label(&self) -> Seq<char> {
        match self.name {
            Some(name) => name@,
            None => Seq::<char>::empty(),
        }
    }

    /// The bucket's name, or the empty text where the provider gave none.
    pub fn shown_name(&self) -> (text: String)
        ensures
            text@ == self.label(),
    {
        match &self.name {
            Some(name) => name.clone(),
            None => String::new(),
        }
    }
}

/// The labels of a sequence of buckets, in the same order.
pub open spec fn labels(buckets: Seq<Bucket>) -> Seq<Seq<char>> {
    Seq::new(buckets.len(), |i: int| buckets[i].label())
}

/// What a finished listing prints: the names, one per line, and the sentence
/// that closes it.
#[derive(Clone, Debug)]
pub struct Report {
    pub names: Vec<String>,
    pub summary: String,
}

/// A report as plain text values.
pub struct ReportView {
    pub names: Seq<Seq<char>>,
    pub summary: Seq<char>,
}

impl ReportView {
    /// The lines of the report: each name, an empty line, the summary.
    pub open spec fn lines(self) -> Seq<Seq<char>> {
        self.names + seq![Seq::<char>::empty(), self.summary]
    }
}

impl View for Report {
    type V = ReportView;

    open spec fn view(&self) -> ReportView {
        ReportView { names: self.names.deep_view(), summary: self.summary@ }
    }
}

impl Report {
    /// The lines to print, in order: each name, an empty line, the summary.
    pub fn lines(&self) -> (lines: Vec<String>)
        ensures
            lines.deep_view() == self@.lines(),
    {
        let mut lines: Vec<String> = Vec::new();
        let mut i: usize = 0;
        while i < self.names.len()
            invariant
                i <= self.names.len(),
                lines.len() == i,
                forall|k: int| 0 <= k < i ==> lines[k]@ == self.names[k]@,
            decreases self.names.len() - i,
        {
            lines.push(self.names[i].clone());
            i = i + 1;
        }
        lines.push(String::new());
        lines.push(self.summary.clone());
        assert(lines.deep_view() =~= self@.lines());
        lines
    }
}

/// The report of a listing of all buckets: every label in the provider's
/// order, and the count of the buckets.
pub open spec fn full_report(names: Seq<Seq<char>>) -> ReportView {
    ReportView { names, summary: all_regions_summary(names.len()) }
}

/// The report of a listing held to `region`: the labels that were found
/// there, and their count beside the count of all `total` buckets.
pub open spec fn region_report(found: Seq<Seq<char>>, region: Seq<char>, total: nat) -> ReportView {
    ReportView { names: found, summary: region_summary(found.len(), region, total) }
}

/// Lines as one text: a line break between each line and the next, none
/// after the last.
pub open spec fn joined(lines: Seq<Seq<char>>) -> Seq<char>
    decreases lines.len(),
{
    if lines.len() == 0 {
        Seq::empty()
    } else if lines.len() == 1 {
        lines[0]
    } else {
        joined(lines.drop_last()) + "\n"@ + lines.last()
    }
}

/// Writes lines as one text, with a line break between each line and the
/// next.
pub fn join_lines(lines: &Vec<String>) -> (text: String)
    ensures
        text@ == joined(lines.deep_view()),
{
    if lines.len() == 0 {
        return String::new();
    }
    let ghost all = lines.deep_view();
    let mut text = lines[0].clone();
    let mut i: usize = 1;
    assert(all.subrange(0, 1)[0] == all[0]);
    while i < lines.len()
        invariant
            1 <= i <= lines.len(),
            all == lines.deep_view(),
            text@ == joined(all.subrange(0, i as int)),
        decreases lines.len() - i,
    {
        text.append("\n");
        text.append(lines[i].as_str());
        proof {
            let upto = all.subrange(0, i + 1);
            assert(upto.drop_last() =~= all.subrange(0, i as int));
            assert(upto.last() == lines[i as int]@);
        }
        i = i + 1;
    }
    assert(all.subrange(0, i as int) =~= all);
    text
}

} // verus!
