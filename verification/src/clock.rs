//! The wall clock. What the scheduler decides from a clock reading is
//! verified in `scheduler` over arbitrary date and time strings; these
//! wrappers only take the reading.
use vstd::prelude::*;

verus! {

/// Relies on `chrono::Local::now` and `DateTime::format`: the current local
/// calendar date as "%Y-%m-%d" and the current local minute as "%H:%M". The
/// result depends on the clock, so nothing is promised of it.
#[verifier::external_body]
pub(crate) fn local_date_and_minute() -> (r: (String, String))
{
    let now = chrono::Local::now();
    (now.format("%Y-%m-%d").to_string(), now.format("%H:%M").to_string())
}

/// Relies on `chrono::Utc::now` and `DateTime::format`: the current UTC
/// timestamp as "%Y-%m-%d %H:%M:%S", the form the store's `created_at`
/// column has always held. The result depends on the clock, so nothing is
/// promised of it.
#[verifier::external_body]
pub(crate) fn now_timestamp() -> (r: String)
{
    chrono::Utc::now().format("%Y-%m-%d %H:%M:%S").to_string()
}

} // verus!
