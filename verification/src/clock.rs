//! Clocks that were started at different moments.
//!
//! Every clock counts from the start of its program. The server knows of each client how far the
//! client's clock is behind its own: the client's delta. Durations are in nanoseconds, the moments
//! in messages in microseconds.
use crate::message::{ServerMsg, ServerMsgView};
use vstd::prelude::*;

verus! {

/// A moment that cannot be told on another clock.
#[derive(Debug, Clone, Copy, PartialEq, Eq, Structural)]
pub enum ClockError {
    /// The microseconds do not fit sixty-four bits.
    OutOfRange,
    /// The moment lies before the start of the clock.
    BeforeStart,
}

/// How far a client's clock is behind the server's: at `now_nanos` on the server's clock an answer
/// arrived that was `rtt_nanos` on its way, there and back, and told `client_micros`. The client is
/// taken to have looked at its clock half-way.
pub open spec fn delta_estimate(now_nanos: u128, rtt_nanos: u128, client_micros: u128) -> Result<
    u128,
    ClockError,
> {
    let client_nanos = client_micros * 1000 + rtt_nanos / 2;
    if client_micros > u64::MAX {
        Err(ClockError::OutOfRange)
    } else if now_nanos < client_nanos {
        Err(ClockError::BeforeStart)
    } else {
        Ok((now_nanos - client_nanos) as u128)
    }
}

/// What a clock that is `delta_nanos` behind shows at `micros`, in whole microseconds.
pub open spec fn shifted(micros: u128, delta_nanos: u128) -> Result<u128, ClockError> {
    if micros > u64::MAX {
        Err(ClockError::OutOfRange)
    } else if micros * 1000 < delta_nanos {
        Err(ClockError::BeforeStart)
    } else {
        Ok(((micros * 1000 - delta_nanos) / 1000) as u128)
    }
}

/// A message with its moments told on a clock that is `delta_nanos` behind.
pub open spec fn shifted_msg(msg: ServerMsgView, delta_nanos: u128) -> Result<
    ServerMsgView,
    ClockError,
> {
    match msg {
        ServerMsgView::StartPlayingAt { unix_time_micro, playback_time_frames } => match shifted(
            unix_time_micro,
            delta_nanos,
        ) {
            Ok(micros) => Ok(
                ServerMsgView::StartPlayingAt { unix_time_micro: micros, playback_time_frames },
            ),
            Err(e) => Err(e),
        },
        other => Ok(other),
    }
}

/// How far the clock of a client is behind that of the server, as one answer tells.
pub fn estimate_delta(now_nanos: u128, rtt_nanos: u128, client_micros: u128) -> (delta: Result<
    u128,
    ClockError,
>)
    ensures
        delta == delta_estimate(now_nanos, rtt_nanos, client_micros),
{
    match u64::try_from(client_micros) {
        Ok(micros) => {
            let client_nanos = (micros as u128) * 1000 + rtt_nanos / 2;
            if now_nanos < client_nanos {
                Err(ClockError::BeforeStart)
            } else {
                Ok(now_nanos - client_nanos)
            }
        },
        Err(_) => Err(ClockError::OutOfRange),
    }
}

/// The moment `micros` on a clock that is `delta_nanos` behind.
pub fn shift(micros: u128, delta_nanos: u128) -> (told: Result<u128, ClockError>)
    ensures
        told == shifted(micros, delta_nanos),
{
    match u64::try_from(micros) {
        Ok(micros) => {
            let nanos = (micros as u128) * 1000;
            if nanos < delta_nanos {
                Err(ClockError::BeforeStart)
            } else {
                Ok((nanos - delta_nanos) / 1000)
            }
        },
        Err(_) => Err(ClockError::OutOfRange),
    }
}

/// The message as a client has to be told it whose clock is `delta_nanos` behind.
pub fn shift_msg(msg: ServerMsg, delta_nanos: u128) -> (told: Result<ServerMsg, ClockError>)
    ensures
        match told {
            Ok(told) => shifted_msg(msg@, delta_nanos) == Ok::<ServerMsgView, ClockError>(told@),
            Err(e) => shifted_msg(msg@, delta_nanos) == Err::<ServerMsgView, ClockError>(e),
        },
{
    match msg {
        ServerMsg::StartPlayingAt { unix_time_micro, playback_time_frames } => {
            let unix_time_micro = shift(unix_time_micro, delta_nanos)?;
            Ok(ServerMsg::StartPlayingAt { unix_time_micro, playback_time_frames })
        },
        other => Ok(other),
    }
}

/// Where the way there takes as long as the way back, the estimate is the truth: a client whose
/// clock is `delta_nanos` behind and who looked at it half-way is found to be `delta_nanos` behind,
/// but for the part of a microsecond that its answer leaves out.
pub proof fn law_even_trip_tells_the_delta(now_nanos: u128, rtt_nanos: u128, delta_nanos: u128)
    requires
        delta_nanos + rtt_nanos / 2 <= now_nanos,
        (now_nanos - rtt_nanos / 2 - delta_nanos) / 1000 <= u64::MAX,
    ensures
        ({
            let looked_at = now_nanos - rtt_nanos / 2 - delta_nanos;
            delta_estimate(now_nanos, rtt_nanos, (looked_at / 1000) as u128) matches Ok(found)
                && delta_nanos <= found < delta_nanos + 1000
        }),
{
}

/// What a client is told is the moment on the client's clock, to the microsecond.
pub proof fn law_shifted_is_the_same_moment(micros: u128, delta_nanos: u128)
    requires
        shifted(micros, delta_nanos) is Ok,
    ensures
        ({
            let told = shifted(micros, delta_nanos)->Ok_0;
            told * 1000 + delta_nanos <= micros * 1000 < told * 1000 + delta_nanos + 1000
        }),
{
}

/// Clients stay in step: what any two of them are told of one moment lies less than a microsecond
/// apart, told back on the server's clock.
pub proof fn law_clients_in_step(micros: u128, delta_a: u128, delta_b: u128)
    requires
        shifted(micros, delta_a) is Ok,
        shifted(micros, delta_b) is Ok,
    ensures
        ({
            let a = shifted(micros, delta_a)->Ok_0 * 1000 + delta_a;
            let b = shifted(micros, delta_b)->Ok_0 * 1000 + delta_b;
            -1000 < a - b < 1000
        }),
{
    law_shifted_is_the_same_moment(micros, delta_a);
    law_shifted_is_the_same_moment(micros, delta_b);
}

/// A client that was sampled over an even trip is told a moment that comes, by its own clock, less
/// than two microseconds before the server meant it, and never after.
pub proof fn law_even_trip_keeps_in_step(
    now_nanos: u128,
    rtt_nanos: u128,
    delta_nanos: u128,
    micros: u128,
)
    requires
        delta_nanos + rtt_nanos / 2 <= now_nanos,
        (now_nanos - rtt_nanos / 2 - delta_nanos) / 1000 <= u64::MAX,
        micros <= u64::MAX,
        delta_estimate(
            now_nanos,
            rtt_nanos,
            ((now_nanos - rtt_nanos / 2 - delta_nanos) / 1000) as u128,
        )->Ok_0 <= micros * 1000,
    ensures
        ({
            let looked_at = now_nanos - rtt_nanos / 2 - delta_nanos;
            delta_estimate(now_nanos, rtt_nanos, (looked_at / 1000) as u128) matches Ok(found) && (
            shifted(micros, found) matches Ok(told) && micros * 1000 - 2000 < told * 1000
                + delta_nanos <= micros * 1000)
        }),
{
    law_even_trip_tells_the_delta(now_nanos, rtt_nanos, delta_nanos);
}

/// Only the moment of [`ServerMsgView::StartPlayingAt`] changes on another clock; every other
/// message, and the frame to play from, stays as it is.
pub proof fn law_shift_keeps_the_rest(msg: ServerMsgView, delta_nanos: u128)
    ensures
        msg !is StartPlayingAt ==> shifted_msg(msg, delta_nanos) == Ok::<ServerMsgView, ClockError>(
            msg,
        ),
        shifted_msg(msg, delta_nanos) matches Ok(told) ==> (msg is StartPlayingAt ==> told
            is StartPlayingAt && told->StartPlayingAt_playback_time_frames
            == msg->StartPlayingAt_playback_time_frames),
{
}

/// The delta is what, with the client's clock and half the trip, makes up the server's clock. None
/// is found exactly where the client's clock is out of range, or where the two are more than the
/// server's clock.
pub proof fn law_delta_makes_up_the_difference(
    now_nanos: u128,
    rtt_nanos: u128,
    client_micros: u128,
    delta_nanos: u128,
)
    ensures
        delta_estimate(now_nanos, rtt_nanos, client_micros) == Ok::<u128, ClockError>(delta_nanos)
            <==> client_micros <= 0xffff_ffff_ffff_ffff && delta_nanos + client_micros * 1000
            + rtt_nanos / 2 == now_nanos,
        delta_estimate(now_nanos, rtt_nanos, client_micros) == Err::<u128, ClockError>(
            ClockError::OutOfRange,
        ) <==> client_micros > 0xffff_ffff_ffff_ffff,
        delta_estimate(now_nanos, rtt_nanos, client_micros) == Err::<u128, ClockError>(
            ClockError::BeforeStart,
        ) <==> client_micros <= 0xffff_ffff_ffff_ffff && client_micros * 1000 + rtt_nanos / 2
            > now_nanos,
{
}

/// A client is told the last whole microsecond on its clock that is not after the moment. It is
/// told none exactly where the moment is out of range, or lies before the start of its clock.
pub proof fn law_told_is_the_last_microsecond(micros: u128, delta_nanos: u128, told: u128)
    ensures
        shifted(micros, delta_nanos) == Ok::<u128, ClockError>(told) <==> micros
            <= 0xffff_ffff_ffff_ffff && told * 1000 + delta_nanos <= micros * 1000 < told * 1000
            + 1000 + delta_nanos,
        shifted(micros, delta_nanos) == Err::<u128, ClockError>(ClockError::OutOfRange) <==> micros
            > 0xffff_ffff_ffff_ffff,
        shifted(micros, delta_nanos) == Err::<u128, ClockError>(ClockError::BeforeStart)
            <==> micros <= 0xffff_ffff_ffff_ffff && micros * 1000 < delta_nanos,
{
}

/// A message to play becomes one to play from the same frame, at the last whole microsecond on the
/// client's clock that is not after the moment. It cannot be told exactly where that moment cannot.
/// Any other message is told as it is.
pub proof fn law_told_message_is_the_same(msg: ServerMsgView, delta_nanos: u128)
    ensures
        match msg {
            ServerMsgView::StartPlayingAt { unix_time_micro: at, playback_time_frames: frame } => {
                match shifted_msg(msg, delta_nanos) {
                    Ok(told) => told matches ServerMsgView::StartPlayingAt {
                        unix_time_micro: on,
                        playback_time_frames,
                    } && playback_time_frames == frame && at <= 0xffff_ffff_ffff_ffff && on * 1000
                        + delta_nanos <= at * 1000 < on * 1000 + 1000 + delta_nanos,
                    Err(ClockError::OutOfRange) => at > 0xffff_ffff_ffff_ffff,
                    Err(ClockError::BeforeStart) => at <= 0xffff_ffff_ffff_ffff && at * 1000
                        < delta_nanos,
                }
            },
            _ => shifted_msg(msg, delta_nanos) == Ok::<ServerMsgView, ClockError>(msg),
        },
{
}

} // verus!
