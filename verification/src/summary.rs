//! The sentence that closes a listing.

use crate::decimal::{decimal, decimal_text, is_digit, lemma_decimal_value};
use vstd::prelude::*;
use vstd::string::*;

verus! {

/// The closing sentence of a listing of all buckets, `total` of them.
pub open spec fn all_regions_summary(total: nat) -> Seq<char> {
    "Found "@ + decimal(total) + " buckets in all regions."@
}

/// The closing sentence of a listing that is held to one region: `in_region`
/// of the account's `total` buckets lie in `region`.
pub open spec fn region_summary(in_region: nat, region: Seq<char>, total: nat) -> Seq<char> {
    "Found "@ + decimal(in_region) + " buckets in the "@ + region
        + " region out of a total of "@ + decimal(total) + " buckets."@
}

/// Writes the closing sentence of a listing of all buckets.
pub fn all_regions_summary_text(total: usize) -> (text: String)
    ensures
        text@ == all_regions_summary(total as nat),
{
    let mut text = String::from_str("Found ");
    let count = decimal_text(total);
    text.append(count.as_str());
    text.append(" buckets in all regions.");
    text
}

/// Writes the closing sentence of a listing that is held to one region.
pub fn region_summary_text(in_region: usize, region: &str, total: usize) -> (text: String)
    ensures
        text@ == region_summary(in_region as nat, region@, total as nat),
{
    let mut text = String::from_str("Found ");
    let found = decimal_text(in_region);
    text.append(found.as_str());
    text.append(" buckets in the ");
    text.append(region);
    text.append(" region out of a total of ");
    let count = decimal_text(total);
    text.append(count.as_str());
    text.append(" buckets.");
    text
}

/// The count that a summary of all regions shows is the count it was written
/// for: two such sentences are the same only for the same count.
pub proof fn lemma_all_regions_summary_injective(a: nat, b: nat)
    requires
        all_regions_summary(a) == all_regions_summary(b),
    ensures
        a == b,
{
    let head = "Found "@;
    let tail = " buckets in all regions."@;
    let x = decimal(a);
    let y = decimal(b);
    assert((head + x + tail).len() == head.len() + x.len() + tail.len());
    assert((head + y + tail).len() == head.len() + y.len() + tail.len());
    assert(x.len() == y.len());
    assert forall|i: int| 0 <= i < x.len() implies x[i] == y[i] by {
        assert((head + x + tail)[head.len() + i] == x[i]);
        assert((head + y + tail)[head.len() + i] == y[i]);
    }
    assert(x =~= y);
    lemma_decimal_value(a);
    lemma_decimal_value(b);
}

/// The counts that a summary of one region shows are the counts it was
/// written for: two such sentences about one region are the same only for
/// the same count of buckets found and the same count of all buckets.
pub proof fn lemma_region_summary_injective(a: nat, b: nat, region: Seq<char>, s: nat, t: nat)
    requires
        region_summary(a, region, s) == region_summary(b, region, t),
    ensures
        a == b,
        s == t,
{
    let head = "Found "@;
    let mid = " buckets in the "@;
    let x = decimal(a);
    let y = decimal(b);
    let u = decimal(s);
    let v = decimal(t);
    let rest = region + " region out of a total of "@;
    let tail = " buckets."@;
    let left = region_summary(a, region, s);
    let right = region_summary(b, region, t);
    assert(left =~= head + x + mid + rest + u + tail);
    assert(right =~= head + y + mid + rest + v + tail);
    // The count found ends where the first character that is no digit stands.
    assert(x.len() == y.len()) by {
        reveal_strlit(" buckets in the ");
        lemma_decimal_value(a);
        lemma_decimal_value(b);
        assert(mid[0] == ' ' && !is_digit(' '));
        if x.len() < y.len() {
            let at = (head.len() + x.len()) as int;
            assert((head + x + mid + rest + u + tail)[at] == mid[0]);
            assert((head + y + mid + rest + v + tail)[at] == y[x.len() as int]);
            assert(is_digit(y[x.len() as int]));
        }
        if y.len() < x.len() {
            let at = (head.len() + y.len()) as int;
            assert((head + y + mid + rest + v + tail)[at] == mid[0]);
            assert((head + x + mid + rest + u + tail)[at] == x[y.len() as int]);
            assert(is_digit(x[y.len() as int]));
        }
    }
    assert forall|i: int| 0 <= i < x.len() implies x[i] == y[i] by {
        assert((head + x + mid + rest + u + tail)[head.len() + i] == x[i]);
        assert((head + y + mid + rest + v + tail)[head.len() + i] == y[i]);
    }
    assert(x =~= y);
    let before = head + x + mid + rest;
    assert(left =~= before + u + tail);
    assert(right =~= before + v + tail);
    assert((before + u + tail).len() == before.len() + u.len() + tail.len());
    assert((before + v + tail).len() == before.len() + v.len() + tail.len());
    assert forall|i: int| 0 <= i < u.len() implies u[i] == v[i] by {
        assert((before + u + tail)[before.len() + i] == u[i]);
        assert((before + v + tail)[before.len() + i] == v[i]);
    }
    assert(u =~= v);
    lemma_decimal_value(a);
    lemma_decimal_value(b);
    lemma_decimal_value(s);
    lemma_decimal_value(t);
}

} // verus!
