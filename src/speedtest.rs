//! The decisions of the throughput benchmark; timing and the socket stay with
//! the caller.
use vstd::prelude::*;

verus! {

/// How many speed packets one benchmark sends.
pub const SPEEDTEST_TRANSFERS: usize = 100;

/// The payload length of each speed packet.
pub const SPEED_PACKET_SIZE: usize = crate::packet::MB_1;

/// How far in the future the receiver places the common start.
pub const START_GUARD_MILLIS: u64 = 300;

/// rand's `random`: a value drawn from the thread-local generator. Nothing is
/// known of which.
pub assume_specification<T>[ rand::random::<T> ]() -> (r: T)
    where
        rand::distributions::Standard: rand::distributions::Distribution<T>,
;

/// `len` random bytes to send as the payload of speed packets.
pub fn speed_payload(len: usize) -> (r: Vec<u8>)
    ensures
        r@.len() == len,
{
    let mut payload: Vec<u8> = Vec::with_capacity(len);
    let mut i: usize = 0;
    while i < len
        invariant
            i <= len,
            payload@.len() == i,
        decreases len - i,
    {
        let byte: u8 = rand::random::<u8>();
        payload.push(byte);
        i = i + 1;
    }
    payload
}

/// The start of a benchmark that the receiver announces, given the time now;
/// the latest representable time where the guard would pass it.
pub fn sync_start_time(now: u64) -> (r: u64)
    ensures
        now <= u64::MAX - START_GUARD_MILLIS ==> r == now + START_GUARD_MILLIS,
        now > u64::MAX - START_GUARD_MILLIS ==> r == u64::MAX,
{
    if now <= u64::MAX - START_GUARD_MILLIS {
        now + START_GUARD_MILLIS
    } else {
        u64::MAX
    }
}

/// The one-way latency estimated from a round trip: half of it.
pub fn one_way_latency(round_trip_millis: u64) -> (r: u64)
    ensures
        r == round_trip_millis / 2,
{
    round_trip_millis / 2
}

} // verus!
