//! Clocks and durations: the few clock readings the library makes.
//!
//! Natively the clocks are `std::time`'s. On the web, where `std::time` has
//! no clock, the wall clock is the browser's `Date.now()`, read as whole
//! milliseconds. Which of the two applies is told apart at run time by
//! `web_time`, whose `SystemTime` is `std::time::SystemTime` exactly where
//! `std::time` has a clock.

use vstd::prelude::*;
use std::time::Duration;
use std::any::TypeId;

verus! {

#[verifier::external_type_specification]
#[verifier::external_body]
pub struct ExSystemTime(std::time::SystemTime);

#[verifier::external_type_specification]
#[verifier::external_body]
pub struct ExTypeId(std::any::TypeId);

#[verifier::external_type_specification]
#[verifier::external_body]
pub struct ExInstant(std::time::Instant);

/// `Duration` is `Copy`: its clone is the same value.
pub assume_specification[ <Duration as Clone>::clone ](d: &Duration) -> (r: Duration)
    ensures
        r == *d,
;

/// `TypeId` is `Copy`: its clone is the same value.
pub assume_specification[ <std::any::TypeId as Clone>::clone ](t: &std::any::TypeId) -> (r: std::any::TypeId)
    ensures
        r == *t,
;

/// Two type identifiers are equal exactly when they are the same value.
pub assume_specification[ <std::any::TypeId as PartialEq>::eq ](a: &std::any::TypeId, b: &std::any::TypeId) -> (r: bool)
    ensures
        r == (*a == *b),
;

/// `Instant` is `Copy`: its clone is the same value.
pub assume_specification[ <std::time::Instant as Clone>::clone ](i: &std::time::Instant) -> (r: std::time::Instant)
    ensures
        r == *i,
;

/// Which clocks the running program has: the type identifiers of
/// `web_time::SystemTime` and of `std::time::SystemTime`. They are the same
/// type, and so the same identifier, exactly where `std::time` has a
/// clock; they differ on the web, where the browser's clock is used.
pub struct ClockKind {
    pub web: TypeId,
    pub native: TypeId,
}

impl ClockKind {
    /// The program runs on the web: `std::time` has no clock, the browser
    /// does.
    pub open spec fn is_web(&self) -> bool {
        self.web != self.native
    }
}

/// The identifiers of `web_time::SystemTime` and `std::time::SystemTime`
/// (`std::any::TypeId::of`); nothing is promised of their values.
#[verifier::external_body]
pub(crate) fn clock_kind() -> ClockKind {
    ClockKind {
        web: std::any::TypeId::of::<web_time::SystemTime>(),
        native: std::any::TypeId::of::<std::time::SystemTime>(),
    }
}

/// Whether the program runs on the web.
pub fn on_the_web(kind: &ClockKind) -> (r: bool)
    ensures
        r == kind.is_web(),
{
    !(kind.web == kind.native)
}

/// The browser's wall clock, `js_sys::Date::now()`, as whole milliseconds
/// since the Unix epoch; a reading before the epoch gives 0, as the
/// conversion to an integer saturates. Nothing is promised of the value.
/// Off the web the binding panics, which `requires` rules out; on the web
/// (`wasm32-unknown-unknown`, which `web_time` treats as such) the library
/// runs in a JavaScript host, as a Leptos app does.
#[verifier::external_body]
pub(crate) fn browser_now_ms(kind: &ClockKind) -> u64
    requires
        kind.is_web(),
{
    js_sys::Date::now() as u64
}

/// The current instant of the monotonic clock
/// (`std::time::Instant::now`); nothing is promised about it. On the web
/// std has no clock and panics, which `requires` rules out.
#[verifier::external_body]
pub(crate) fn instant_now(kind: &ClockKind) -> std::time::Instant
    requires
        !kind.is_web(),
{
    std::time::Instant::now()
}

/// Time elapsed since `instant` (`std::time::Instant::elapsed`); it depends
/// on the clock, so nothing is promised about it. On the web std has no
/// clock and panics, which `requires` rules out.
#[verifier::external_body]
pub(crate) fn instant_elapsed(kind: &ClockKind, instant: &std::time::Instant) -> Duration
    requires
        !kind.is_web(),
{
    instant.elapsed()
}

/// Whole milliseconds of a duration, cut to 64 bits.
pub uninterp spec fn millis_of(d: Duration) -> u64;

/// The debug rendering of a duration (such as `1.5ms`).
pub uninterp spec fn duration_debug(d: Duration) -> Seq<char>;

/// `Duration::as_millis`, cut to 64 bits; its value is named `millis_of`.
#[verifier::external_body]
pub(crate) fn duration_millis(d: &Duration) -> (r: u64)
    ensures
        r == millis_of(*d),
{
    d.as_millis() as u64
}

/// `Duration::from_millis`: a duration of `ms` milliseconds, whose whole
/// milliseconds are `ms` again.
#[verifier::external_body]
pub(crate) fn duration_from_millis(ms: u64) -> (r: Duration)
    ensures
        millis_of(r) == ms,
{
    Duration::from_millis(ms)
}

/// The `Debug` rendering of a duration, as `std` formats it; its value is
/// named `duration_debug`.
#[verifier::external_body]
pub(crate) fn duration_text(d: &Duration) -> (r: String)
    ensures
        r@ == duration_debug(*d),
{
    format!("{:?}", d)
}

/// The current time of the system clock (`std::time::SystemTime::now`);
/// nothing is promised about it. On the web std has no clock and panics,
/// which `requires` rules out.
#[verifier::external_body]
pub(crate) fn system_now(kind: &ClockKind) -> std::time::SystemTime
    requires
        !kind.is_web(),
{
    std::time::SystemTime::now()
}

/// Time elapsed from the Unix epoch to `t` (`SystemTime::duration_since`
/// with `UNIX_EPOCH`), or `None` when `t` is earlier; it depends on `t`
/// only through the clock, so nothing more is promised.
#[verifier::external_body]
pub(crate) fn since_unix_epoch(t: &std::time::SystemTime) -> Option<Duration> {
    t.duration_since(std::time::UNIX_EPOCH).ok()
}

/// Current time in milliseconds since the Unix epoch, or 0 if the clock is
/// set before the epoch.
pub fn current_timestamp_ms() -> u64 {
    let kind = clock_kind();
    if on_the_web(&kind) {
        browser_now_ms(&kind)
    } else {
        match since_unix_epoch(&system_now(&kind)) {
            Some(d) => duration_millis(&d),
            None => 0,
        }
    }
}

} // verus!
