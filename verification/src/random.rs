use std::time::{Duration, SystemTime, UNIX_EPOCH};
use vstd::prelude::*;

verus! {

#[verifier::external_type_specification]
#[verifier::external_body]
pub struct ExSystemTime(SystemTime);

/// `SystemTime::now`: the time on the system clock. Nothing is claimed of it.
#[verifier::external_body]
fn now() -> SystemTime {
    SystemTime::now()
}

/// `SystemTime::duration_since`, from the Unix epoch: the time that has
/// passed since the epoch, or `None` where `time` lies before it.
#[verifier::external_body]
fn since_epoch(time: &SystemTime) -> Option<Duration> {
    time.duration_since(UNIX_EPOCH).ok()
}

/// `Duration::as_secs`: the whole seconds of `span`.
#[verifier::external_body]
fn whole_seconds(span: &Duration) -> u64 {
    span.as_secs()
}

/// `Duration::subsec_nanos`: what `span` holds beyond its whole seconds, in
/// nanoseconds.
#[verifier::external_body]
fn fraction_nanos(span: &Duration) -> u32 {
    span.subsec_nanos()
}

/// The number that the generator makes of `seed`: the sixteen low bits of
/// one xorshift round with the shifts 13, 17 and 5.
pub open spec fn xorshift16(seed: u64) -> u16 {
    let a: u64 = seed ^ (seed << 13);
    let b: u64 = a ^ (a >> 17);
    let c: u64 = b ^ (b << 5);
    (c & 0xffff) as u16
}

/// Runs one xorshift round over `seed` and keeps the sixteen low bits.
pub fn scramble(seed: u64) -> (r: u16)
    ensures
        r == xorshift16(seed),
{
    let mut x: u64 = seed;
    x ^= x << 13;
    x ^= x >> 17;
    x ^= x << 5;
    let low: u64 = x & 0xffff;
    assert(low <= 0xffff) by (bit_vector)
        requires
            low == x & 0xffff,
    ;
    low as u16
}

/// The seed that a time of `seconds` whole seconds and `nanos` nanoseconds
/// since the epoch gives.
pub open spec fn seed_of(seconds: u64, nanos: u32) -> u64 {
    ((seconds + nanos) % 0x1_0000_0000_0000_0000) as u64
}

/// A number that varies with the time of the call: the clock's seconds and
/// nanoseconds since the Unix epoch are added up and scrambled. A clock that
/// stands before the epoch counts as 42 milliseconds behind it.
pub fn random() -> (r: u16)
    ensures
        exists|seconds: u64, nanos: u32| r == xorshift16(seed_of(seconds, nanos)),
{
    let time = now();
    let (seconds, nanos) = match since_epoch(&time) {
        Some(span) => (whole_seconds(&span), fraction_nanos(&span)),
        None => (0u64, 42_000_000u32),
    };
    let seed = seconds.wrapping_add(nanos as u64);
    assert(seed == seed_of(seconds, nanos));
    scramble(seed)
}

} // verus!
