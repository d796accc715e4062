use vstd::prelude::*;

use crate::text::{format_hex, spec_hex};

verus! {

/// The identifier of a bundle created at `unix_ms` milliseconds after the
/// Unix epoch: `vb_` and the time in lower-case hexadecimal.
pub open spec fn spec_bundle_id(unix_ms: nat) -> Seq<char> {
    "vb_"@ + spec_hex(unix_ms)
}

/// The message for a clock that reads before the Unix epoch.
pub open spec fn spec_clock_error(detail: Seq<char>) -> Seq<char> {
    "system clock before unix epoch: "@ + detail
}

#[verifier::external_type_specification]
#[verifier::external_body]
pub struct ExSystemTime(std::time::SystemTime);

#[verifier::external_type_specification]
#[verifier::external_body]
pub struct ExSystemTimeError(std::time::SystemTimeError);

/// Reads the wall clock through `std::time::SystemTime::now`. The reading
/// depends on the machine's clock, so nothing is stated of it.
#[verifier::external_body]
fn system_time_now() -> std::time::SystemTime {
    std::time::SystemTime::now()
}

/// The time elapsed from the Unix epoch to `t`, through
/// `SystemTime::duration_since(UNIX_EPOCH)`; an error when `t` lies before the
/// epoch. Both `SystemTime` and `Duration` are opaque here, so the result is
/// not stated.
#[verifier::external_body]
fn since_unix_epoch(t: &std::time::SystemTime) -> Result<core::time::Duration, std::time::SystemTimeError> {
    t.duration_since(std::time::UNIX_EPOCH)
}

/// The whole milliseconds in `d`, through `Duration::as_millis`. `Duration` is
/// opaque here, so the value is not stated.
#[verifier::external_body]
fn duration_millis(d: &core::time::Duration) -> u128 {
    d.as_millis()
}

/// The text of a clock error, through `SystemTimeError`'s `Display`
/// (`to_string`). Its wording belongs to std and is not stated.
#[verifier::external_body]
fn clock_error_text(e: &std::time::SystemTimeError) -> String {
    e.to_string()
}

/// Turns a clock reading into a bundle identifier and creation time, or into
/// the error for a clock before the epoch.
pub fn bundle_id_from_clock(clock: Result<u128, String>) -> (r: Result<(String, u128), String>)
    ensures
        match clock {
            Ok(ms) => r matches Ok((id, t)) && t == ms && id@ == spec_bundle_id(ms as nat),
            Err(detail) => r matches Err(msg) && msg@ == spec_clock_error(detail@),
        },
{
    match clock {
        Ok(ms) => {
            let hex = format_hex(ms);
            let mut id = String::from_str("vb_");
            id.append(hex.as_str());
            Ok((id, ms))
        },
        Err(detail) => {
            let mut msg = String::from_str("system clock before unix epoch: ");
            msg.append(detail.as_str());
            Err(msg)
        },
    }
}

/// A fresh bundle identifier from the current time, with that time.
pub fn bundle_id() -> (r: Result<(String, u128), String>)
    ensures
        r matches Ok((id, t)) ==> id@ == spec_bundle_id(t as nat),
        r matches Err(msg) ==> exists|detail: Seq<char>| msg@ == spec_clock_error(detail),
{
    let now = system_time_now();
    let clock = match since_unix_epoch(&now) {
        Ok(elapsed) => Ok(duration_millis(&elapsed)),
        Err(err) => Err(clock_error_text(&err)),
    };
    bundle_id_from_clock(clock)
}

/// Bundles created at different milliseconds get different identifiers.
pub proof fn lemma_bundle_ids_distinct(m: nat, n: nat)
    requires
        m != n,
    ensures
        spec_bundle_id(m) != spec_bundle_id(n),
{
    crate::text::lemma_formatting_injective(m, n, 0);
    reveal_strlit("vb_");
    if spec_bundle_id(m) == spec_bundle_id(n) {
        assert(spec_bundle_id(m).skip(3) =~= spec_hex(m));
        assert(spec_bundle_id(n).skip(3) =~= spec_hex(n));
    }
}

} // verus!

verus! {

/// A bundle identifier reads back as its creation time: `vb_`, then
/// lower-case hexadecimal digits worth the milliseconds since the epoch.
pub proof fn lemma_bundle_id_reads_back(unix_ms: nat)
    ensures
        spec_bundle_id(unix_ms).take(3) == "vb_"@,
        crate::text::digits_value(spec_bundle_id(unix_ms).skip(3), 16) == unix_ms,
{
    reveal_strlit("vb_");
    let id = spec_bundle_id(unix_ms);
    assert(id.take(3) =~= "vb_"@);
    assert(id.skip(3) =~= spec_hex(unix_ms));
    crate::text::lemma_digits_value(unix_ms, 16);
}

} // verus!
