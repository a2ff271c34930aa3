//! What the command line asks for.

use vstd::prelude::*;
use vstd::string::*;

verus! {

/// The arguments of the command line.
#[derive(Debug, Clone)]
pub struct Args {
    /// The source file.
    pub input_file: String,
    /// Where the S-records go.
    pub out: String,
    /// Whether a listing is asked for, and where it goes if that is said.
    pub listing: Option<Option<String>>,
}

/// The arguments of the command line with the path of the listing worked
/// out.
#[derive(Debug, Clone)]
pub struct Config {
    pub input_file: String,
    pub out: String,
    pub listing: Option<String>,
}

/// `std::path::Path::with_extension`, with the extension `lis`: the path
/// `out` with `lis` for its extension. What counts as the extension of a
/// path depends on the machine, so nothing is said of the result.
#[verifier::external_body]
fn with_listing_extension(out: &str) -> (res: String) {
    std::path::Path::new(out).with_extension("lis").to_string_lossy().into_owned()
}

/// The path of the listing that the arguments ask for: the one that they
/// give; else, where they ask for a listing without a path, the path
/// `beside`.
pub open spec fn listing_path(listing: Option<Option<String>>, beside: Seq<char>) -> Option<
    Seq<char>,
> {
    match listing {
        None => None,
        Some(Some(path)) => Some(path@),
        Some(None) => Some(beside),
    }
}

impl Args {
    /// The arguments with the path of the listing worked out, where
    /// `beside` is the path for a listing that is asked for without one.
    pub fn config_with(self, beside: String) -> (res: Config)
        ensures
            res.input_file@ == self.input_file@,
            res.out@ == self.out@,
            match res.listing {
                Some(path) => listing_path(self.listing, beside@) == Some(path@),
                None => listing_path(self.listing, beside@) is None,
            },
    {
        let listing = match self.listing {
            None => None,
            Some(Some(path)) => Some(path),
            Some(None) => Some(beside),
        };
        Config { input_file: self.input_file, out: self.out, listing }
    }

    /// The arguments with the path of the listing worked out: a listing
    /// that is asked for without a path goes beside the output, with `lis`
    /// for its extension.
    pub fn config(self) -> (res: Config)
        ensures
            res.input_file@ == self.input_file@,
            res.out@ == self.out@,
            res.listing is Some <==> self.listing is Some,
            self.listing matches Some(Some(path)) ==> res.listing matches Some(given) && given@
                == path@,
    {
        let beside = with_listing_extension(self.out.as_str());
        self.config_with(beside)
    }
}

} // verus!
