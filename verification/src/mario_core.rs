//! What every collector has in common, and the clock that stamps its records.

use vstd::prelude::*;
use std::time::{Duration, SystemTime, SystemTimeError};

verus! {

/// A source of statistics, known to the registry by its name.
pub trait Collector {
    /// The name under which the collector is registered.
    spec fn collector_name(&self) -> Seq<char>;

    /// Returns the collector's name.
    fn get_name(&self) -> (name: String)
        ensures
            name@ == self.collector_name(),
    ;
}

/// A boxed collector, such as a `Box<dyn Collector>`, is known by the name
/// of the collector in the box.
impl<C: Collector + ?Sized> Collector for Box<C> {
    open spec fn collector_name(&self) -> Seq<char> {
        (**self).collector_name()
    }

    fn get_name(&self) -> (name: String) {
        (**self).get_name()
    }
}

#[verifier::external_type_specification]
#[verifier::external_body]
pub struct ExSystemTime(SystemTime);

#[verifier::external_type_specification]
#[verifier::external_body]
pub struct ExSystemTimeError(SystemTimeError);

/// Reads the system clock through `std::time::SystemTime::now`. Nothing is
/// claimed of the instant it returns: it depends on the time of the call.
#[verifier::external_body]
fn clock_now() -> SystemTime {
    SystemTime::now()
}

/// `SystemTime::duration_since(UNIX_EPOCH)`: the time elapsed since the Unix
/// epoch, or an error when the instant lies before it. Nothing is claimed of
/// which: the instant is opaque here.
#[verifier::external_body]
fn since_unix_epoch(t: &SystemTime) -> Result<Duration, SystemTimeError> {
    t.duration_since(std::time::UNIX_EPOCH)
}

/// `Duration::as_secs`: the whole seconds of the duration. Nothing is claimed
/// of the number: the duration is opaque here.
#[verifier::external_body]
fn whole_seconds(d: &Duration) -> u64 {
    d.as_secs()
}

/// The current time as whole seconds since the Unix epoch; `None` where the
/// clock reads a time before the epoch. Nothing more is stated of the
/// result: it is the clock's reading.
pub fn get_current_timestamp() -> (r: Option<u64>) {
    let start = clock_now();
    match since_unix_epoch(&start) {
        Ok(d) => Some(whole_seconds(&d)),
        Err(_) => None,
    }
}

} // verus!
