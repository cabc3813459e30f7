//! Values that come from outside the program: randomness, the clock and
//! generated person names.
use vstd::prelude::*;
use chrono::Datelike;
use fake::Fake;
use rand::Rng;
use crate::text::is_blank;

verus! {

/// Relies on rand's `Rng::gen_range` over the operating system's generator
/// (`OsRng`): a uniformly drawn value below `bound`. It panics on an empty
/// range, which `requires` leaves out.
#[verifier::external_body]
pub(crate) fn random_below(bound: u32) -> (r: u32)
    requires
        bound > 0,
    ensures
        r < bound,
{
    rand::rngs::OsRng.gen_range(0..bound)
}

/// Relies on chrono's `Local::now` and its `Datelike` accessors: today's
/// date in the local time zone, as year, month (1 to 12) and day (1 to 31).
#[verifier::external_body]
pub(crate) fn local_today() -> (r: (i32, u32, u32))
    ensures
        1 <= r.1 <= 12,
        1 <= r.2 <= 31,
{
    let now = chrono::Local::now();
    (now.year(), now.month(), now.day())
}

/// Relies on fake's English `FirstName` faker: a made-up given name, drawn
/// from a fixed list of single words.
#[verifier::external_body]
pub(crate) fn fake_first_name() -> (r: String)
    ensures
        !is_blank(r@),
{
    fake::faker::name::en::FirstName().fake()
}

/// Relies on fake's English `LastName` faker: a made-up family name, drawn
/// from a fixed list of single words.
#[verifier::external_body]
pub(crate) fn fake_last_name() -> (r: String)
    ensures
        !is_blank(r@),
{
    fake::faker::name::en::LastName().fake()
}

} // verus!
