use vstd::prelude::*;

verus! {

/// Reads the wall clock through `time::get_time` and gives the whole
/// seconds since 1970-01-01T00:00:00Z (its `sec` field). Nothing is claimed
/// of the value: it is whatever the system clock says.
#[verifier::external_body]
pub(crate) fn current_second() -> (result: i64) {
    time::get_time().sec
}

/// The second at which a wait that started at second `now` and may last
/// `timeout_secs` seconds ends: `now` plus the timeout taken as an `i64`.
/// `None` where that sum leaves the range of `i64`.
pub fn timeout_deadline(now: i64, timeout_secs: u64) -> (result: Option<i64>)
    ensures
        i64::MIN <= now + (timeout_secs as i64) <= i64::MAX ==> result == Some(
            (now + (timeout_secs as i64)) as i64,
        ),
        !(i64::MIN <= now + (timeout_secs as i64) <= i64::MAX) ==> result is None,
{
    now.checked_add(timeout_secs as i64)
}

/// The deadline of a wait of `timeout_secs` seconds that starts now, read
/// from the clock; `None` where it leaves the range of `i64`. A timeout that
/// is 0 taken as an `i64` cannot leave that range, whatever the clock reads.
pub fn deadline_from_now(timeout_secs: u64) -> (result: Option<i64>)
    ensures
        result matches Some(deadline) ==> i64::MIN <= deadline - (timeout_secs as i64)
            <= i64::MAX,
        (timeout_secs as i64) == 0 ==> result is Some,
{
    timeout_deadline(current_second(), timeout_secs)
}

/// Whether second `now` is at or past `deadline`.
pub fn deadline_reached(now: i64, deadline: i64) -> (result: bool)
    ensures
        result == (now >= deadline),
{
    now >= deadline
}

/// Whether the clock reads `deadline` or later. The least `i64` is passed
/// whatever the clock reads.
pub fn deadline_passed(deadline: i64) -> (result: bool)
    ensures
        deadline == i64::MIN ==> result,
{
    deadline_reached(current_second(), deadline)
}

/// Whether a keep-alive ping is due at second `now` when the last packet went
/// out at second `last_sent` and the keep-alive interval is `keep_alive`
/// seconds: `now` lies strictly beyond `last_sent + keep_alive`. `None` where
/// that sum leaves the range of `i64`.
pub fn keep_alive_expired(now: i64, last_sent: i64, keep_alive: i16) -> (result: Option<bool>)
    ensures
        i64::MIN <= last_sent + keep_alive <= i64::MAX ==> result == Some(
            now > last_sent + keep_alive,
        ),
        !(i64::MIN <= last_sent + keep_alive <= i64::MAX) ==> result is None,
{
    match last_sent.checked_add(keep_alive as i64) {
        Some(limit) => Some(now > limit),
        None => None,
    }
}

} // verus!
