//! The campuses that the imports are built for.
use vstd::prelude::*;

verus! {

/// A campus.
#[derive(Clone, Copy, Debug, PartialEq, Eq, PartialOrd, Ord, Hash, Structural)]
pub enum Campus {
    Ucmn,
    Uclm,
    Ucb,
    Ucmetc,
    Ucpt,
}

/// The lower-case code of a campus.
pub open spec fn campus_code(c: Campus) -> Seq<char> {
    match c {
        Campus::Ucmn => "ucmn"@,
        Campus::Uclm => "uclm"@,
        Campus::Ucb => "ucb"@,
        Campus::Ucmetc => "ucmetc"@,
        Campus::Ucpt => "ucpt"@,
    }
}

impl Campus {
    /// The lower-case code of the campus, as shown to users.
    pub fn as_str(&self) -> (r: &'static str)
        ensures
            r@ == campus_code(*self),
    {
        match self {
            Campus::Ucmn => "ucmn",
            Campus::Uclm => "uclm",
            Campus::Ucb => "ucb",
            Campus::Ucmetc => "ucmetc",
            Campus::Ucpt => "ucpt",
        }
    }
}

} // verus!
