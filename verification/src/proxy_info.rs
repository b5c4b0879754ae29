//! The anonymity level a proxy listing advertises for an endpoint.

use vstd::prelude::*;
use crate::util::str_eq;

verus! {

/// The listing text did not name a known anonymity level; the text is kept
/// for reporting.
#[derive(Debug)]
pub struct AnonymityParseError(String);

impl View for AnonymityParseError {
    type V = Seq<char>;

    closed spec fn view(&self) -> Seq<char> {
        self.0@
    }
}

/// How much a proxy hides about the caller, as the listing labels it.
#[derive(Debug, Eq, PartialEq, Clone, Copy, Structural)]
pub enum Anonymity {
    Transparent,
    EliteProxy,
    Anonymous,
}

/// The anonymity level a listing label denotes, if any.
pub open spec fn anonymity_of(s: Seq<char>) -> Option<Anonymity> {
    if s == "transparent"@ {
        Some(Anonymity::Transparent)
    } else if s == "elite proxy"@ {
        Some(Anonymity::EliteProxy)
    } else if s == "anonymous"@ {
        Some(Anonymity::Anonymous)
    } else {
        None
    }
}

impl Anonymity {
    /// Parses the listing's anonymity column.
    pub fn parse_text(s: &str) -> (r: Result<Anonymity, AnonymityParseError>)
        ensures
            match anonymity_of(s@) {
                Some(a) => r matches Ok(x) && x == a,
                None => r matches Err(e) && e@ == s@,
            },
    {
        if str_eq(s, "transparent") {
            Ok(Anonymity::Transparent)
        } else if str_eq(s, "elite proxy") {
            Ok(Anonymity::EliteProxy)
        } else if str_eq(s, "anonymous") {
            Ok(Anonymity::Anonymous)
        } else {
            Err(AnonymityParseError(String::from_str(s)))
        }
    }
}

impl core::str::FromStr for Anonymity {
    type Err = AnonymityParseError;

    fn from_str(s: &str) -> Result<Anonymity, AnonymityParseError> {
        Anonymity::parse_text(s)
    }
}

} // verus!
