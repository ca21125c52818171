//! The options of a run, the region that a run works in, and the lines that
//! a verbose run prints ahead of the listing.

use vstd::prelude::*;
use vstd::string::*;

verus! {

/// The options of a run. They are fixed once the arguments are read.
#[derive(Clone, Debug)]
pub struct Options {
    /// The name of the credentials profile to load.
    pub profile: String,
    /// The region asked for, if one was.
    pub region: Option<String>,
    /// Whether the listing is held to the region.
    pub strict: bool,
    /// Whether the run says what it is about to do before it lists.
    pub verbose: bool,
}

/// The profile that is loaded where none is named.
pub open spec fn default_profile() -> Seq<char> {
    "default"@
}

/// The region that a run works in where none is asked for and the
/// surroundings name none.
pub open spec fn fallback_region() -> Seq<char> {
    "us-east-1"@
}

/// The text of an optional string.
pub open spec fn text_of(value: Option<String>) -> Option<Seq<char>> {
    match value {
        Some(text) => Some(text@),
        None => None,
    }
}

/// The region of a run: the first that is named, of the region asked for and
/// the one that the surroundings give; the fallback where neither is.
pub open spec fn resolved_region(asked: Option<Seq<char>>, ambient: Option<Seq<char>>) -> Seq<
    char,
> {
    match asked {
        Some(region) => region,
        None => match ambient {
            Some(region) => region,
            None => fallback_region(),
        },
    }
}

/// The line that says which buckets a run lists.
pub open spec fn mode_line(strict: bool) -> Seq<char> {
    if strict {
        "Only lists buckets in the Region."@
    } else {
        "Lists all buckets."@
    }
}

/// The lines that a verbose run prints ahead of the listing: the version of
/// the storage client, the region, the mode, and an empty line. A run that is
/// not verbose prints none.
pub open spec fn banner(verbose: bool, strict: bool, version: Seq<char>, region: Seq<char>) -> Seq<
    Seq<char>,
> {
    if verbose {
        seq![
            "S3 client version: "@ + version,
            "Region:            "@ + region,
            mode_line(strict),
            Seq::<char>::empty(),
        ]
    } else {
        Seq::empty()
    }
}

impl Default for Options {
    /// The options of a run without arguments: the profile `default`, no
    /// region, all buckets, not verbose.
    fn default() -> (options: Options)
        ensures
            options.profile@ == default_profile(),
            options.region is None,
            !options.strict,
            !options.verbose,
    {
        Options { profile: String::from_str("default"), region: None, strict: false, verbose: false }
    }
}

impl Options {
    /// Whether the surroundings have to be asked for a region: only where
    /// the options name none.
    pub fn wants_ambient_region(&self) -> (wanted: bool)
        ensures
            wanted == (self.region is None),
    {
        self.region.is_none()
    }

    /// The region of the run, given what the surroundings name.
    pub fn resolve_region(&self, ambient: Option<String>) -> (region: String)
        ensures
            region@ == resolved_region(text_of(self.region), text_of(ambient)),
    {
        match &self.region {
            Some(region) => region.clone(),
            None => match ambient {
                Some(region) => region,
                None => String::from_str("us-east-1"),
            },
        }
    }

    /// The lines to print ahead of the listing.
    pub fn banner(&self, version: &str, region: &str) -> (lines: Vec<String>)
        ensures
            lines.deep_view() == banner(self.verbose, self.strict, version@, region@),
    {
        let mut lines: Vec<String> = Vec::new();
        if self.verbose {
            let mut client = String::from_str("S3 client version: ");
            client.append(version);
            lines.push(client);
            let mut place = String::from_str("Region:            ");
            place.append(region);
            lines.push(place);
            if self.strict {
                lines.push(String::from_str("Only lists buckets in the Region."));
            } else {
                lines.push(String::from_str("Lists all buckets."));
            }
            lines.push(String::new());
        }
        assert(lines.deep_view() =~= banner(self.verbose, self.strict, version@, region@));
        lines
    }
}

} // verus!
