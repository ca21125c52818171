//! Verified core of a small tool that lists the storage buckets of an account,
//! all of them or only those that lie in one region.
//!
//! The library never talks to the storage provider. It decides what is asked
//! of the provider next, what is printed, and when a run is given up; the
//! program around it performs the requests and hands the answers back.

pub mod decimal;
pub mod options;
pub mod summary;
pub mod report;
pub mod listing;
pub mod run;
