//! A message shown under the columns for a while.
use vstd::prelude::*;
use crate::text::copy_of;

verus! {

pub type Millis = u128;

pub struct Notification {
    pub text: String,
    pub show_time_millis: Millis,
    pub start_time: Millis,
}

/// Relies on `SystemTime::elapsed` of the Unix epoch: the milliseconds
/// since then by the system clock, or zero for a clock set before it.
/// Nothing is promised of the value.
#[verifier::external_body]
fn now_millis() -> (r: Millis) {
    match std::time::UNIX_EPOCH.elapsed() {
        Ok(d) => d.as_millis(),
        Err(_) => 0,
    }
}

/// The milliseconds from `time` to `now`; none when `now` is earlier.
pub open spec fn elapsed(time: Millis, now: Millis) -> Millis {
    if now >= time { (now - time) as Millis } else { 0 }
}

/// The milliseconds from `time` to `now`, or zero when `now` is earlier.
pub fn millis_since(time: Millis, now: Millis) -> (r: Millis)
    ensures
        r == elapsed(time, now),
{
    if now >= time { now - time } else { 0 }
}

impl Notification {
    /// A notification shown from now on for `show_time_millis`.
    pub fn new(text: &str, show_time_millis: Millis) -> (r: Notification)
        ensures
            r.text@ == text@,
            r.show_time_millis == show_time_millis,
    {
        Notification::starting_at(text, show_time_millis, now_millis())
    }

    /// A notification shown from `start_time` on for `show_time_millis`.
    pub fn starting_at(text: &str, show_time_millis: Millis, start_time: Millis) -> (r: Notification)
        ensures
            r.text@ == text@,
            r.show_time_millis == show_time_millis,
            r.start_time == start_time,
    {
        Notification { text: copy_of(text), show_time_millis, start_time }
    }

    /// Whether its time is over at `now`.
    pub fn has_finished_at(&self, now: Millis) -> (r: bool)
        ensures
            r == (elapsed(self.start_time, now) > self.show_time_millis),
    {
        millis_since(self.start_time, now) > self.show_time_millis
    }

    /// Whether its time is over, by the clock as it reads now.
    pub fn has_finished(&self) -> (r: bool)
        ensures
            exists|now: Millis| r == (elapsed(self.start_time, now) > self.show_time_millis),
    {
        self.has_finished_at(now_millis())
    }
}

} // verus!
