//! The wall clock, read as milliseconds since the Unix epoch.
use vstd::prelude::*;

verus! {

#[verifier::external_type_specification]
#[verifier::external_body]
pub struct ExSystemTime(std::time::SystemTime);

/// Relies on `std::time::SystemTime::now`: the current wall-clock time. Nothing
/// is known of the value, which depends on the moment and the machine.
#[verifier::external_body]
fn clock_now() -> std::time::SystemTime {
    std::time::SystemTime::now()
}

/// Relies on `std::time::SystemTime::duration_since`, measured from
/// `UNIX_EPOCH`: `None` when `t` lies before the epoch, else the whole seconds
/// and the fraction of a second in nanoseconds, which `Duration::subsec_nanos`
/// documents as less than one billion.
#[verifier::external_body]
fn since_epoch(t: &std::time::SystemTime) -> (r: Option<(u64, u32)>)
    ensures
        r matches Some((_, nanos)) ==> nanos < 1_000_000_000,
{
    match t.duration_since(std::time::UNIX_EPOCH) {
        Ok(d) => Some((d.as_secs(), d.subsec_nanos())),
        Err(_) => None,
    }
}

/// Whole milliseconds in a span of `secs` seconds and `nanos` nanoseconds.
pub open spec fn millis_of(secs: nat, nanos: nat) -> nat {
    secs * 1000 + nanos / 1_000_000
}

/// Whether the clock reading `(secs1, nanos1)` is not later than
/// `(secs2, nanos2)`.
pub open spec fn not_later(secs1: nat, nanos1: nat, secs2: nat, nanos2: nat) -> bool {
    secs1 < secs2 || (secs1 == secs2 && nanos1 <= nanos2)
}

/// Converts a span since the epoch to whole milliseconds, as
/// `Duration::as_millis` does.
pub fn millis_since_epoch(secs: u64, nanos: u32) -> (r: u128)
    ensures
        r == millis_of(secs as nat, nanos as nat),
{
    secs as u128 * 1000 + (nanos / 1_000_000) as u128
}

/// A reading of the clock that is not earlier than another one never gives an
/// earlier timestamp: the conversion to milliseconds keeps the order of
/// readings.
pub proof fn lemma_timestamp_monotone(secs1: nat, nanos1: nat, secs2: nat, nanos2: nat)
    requires
        nanos1 < 1_000_000_000,
        nanos2 < 1_000_000_000,
        not_later(secs1, nanos1, secs2, nanos2),
    ensures
        millis_of(secs1, nanos1) <= millis_of(secs2, nanos2),
{
    if secs1 < secs2 {
        assert(nanos1 / 1_000_000 < 1000) by (nonlinear_arith)
            requires
                nanos1 < 1_000_000_000,
        ;
        assert(secs1 * 1000 + 1000 <= secs2 * 1000) by (nonlinear_arith)
            requires
                secs1 < secs2,
        ;
    } else {
        assert(nanos1 / 1_000_000 <= nanos2 / 1_000_000) by (nonlinear_arith)
            requires
                nanos1 <= nanos2,
        ;
    }
}

/// Reads the wall clock as milliseconds since the Unix epoch; `None` when the
/// clock stands before the epoch. The value is whatever the clock said: it is
/// the conversion of some reading, and nothing more is known of it.
pub fn now_millis() -> (r: Option<u128>)
    ensures
        r matches Some(m) ==> exists|secs: nat, nanos: nat|
            secs <= u64::MAX && nanos < 1_000_000_000 && m == millis_of(secs, nanos),
{
    let t = clock_now();
    match since_epoch(&t) {
        Some((secs, nanos)) => Some(millis_since_epoch(secs, nanos)),
        None => None,
    }
}

} // verus!
