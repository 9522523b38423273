//! The typed failures a fetch can produce: transport or status trouble, a
//! missing or mistyped field in a reply, or an unparsable hex block number.

use vstd::prelude::*;
use vstd::string::*;

verus! {

#[derive(Debug, Clone, PartialEq)]
pub enum MError {
    /// Transport failure or non-success status, with the reporter's message.
    REQWEST(String),
    /// A reply without the expected field: the field's path, then the raw
    /// reply it was missing from.
    PARSEJSON(String, String),
    /// A block-number string that does not parse as hex, carried verbatim.
    PARSEHEX(String),
}

impl MError {
    /// The diagnostic line `describe` renders for this error.
    pub open spec fn describe_spec(self) -> Seq<char> {
        match self {
            MError::REQWEST(m) => "request failed: "@ + m@,
            MError::PARSEJSON(path, raw) => "missing or mistyped field "@ + path@ + " in "@
                + raw@,
            MError::PARSEHEX(s) => "bad hex block number: "@ + s@,
        }
    }

    /// One diagnostic line with enough context to triage the failure.
    pub fn describe(&self) -> (r: String)
        ensures
            r@ == self.describe_spec(),
    {
        match self {
            MError::REQWEST(m) => {
                let mut s = String::from_str("request failed: ");
                s.append(m.as_str());
                s
            },
            MError::PARSEJSON(path, raw) => {
                let mut s = String::from_str("missing or mistyped field ");
                s.append(path.as_str());
                s.append(" in ");
                s.append(raw.as_str());
                s
            },
            MError::PARSEHEX(h) => {
                let mut s = String::from_str("bad hex block number: ");
                s.append(h.as_str());
                s
            },
        }
    }
}

} // verus!
