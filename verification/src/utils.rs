//! Readiness events and deadlines.
//!
//! Waiting for a socket is left to the operating system. What is decided
//! here is which of its events stand for the two that a caller can ask for,
//! whether its answer is the one that was asked for, and how much of a
//! timeout is left.

use vstd::prelude::*;

verus! {

/// The socket can be read.
pub const EV_POLLIN: i16 = 1;

/// The socket can be written.
pub const EV_POLLOUT: i16 = 2;

/// The events of the operating system that stand for `ev`: `native_in` if
/// `ev` asks for reading, `native_out` if it asks for writing, both if it
/// asks for both.
pub open spec fn translated(ev: i16, native_in: i16, native_out: i16) -> i16 {
    (if ev & EV_POLLIN != 0 {
        native_in
    } else {
        0i16
    }) | (if ev & EV_POLLOUT != 0 {
        native_out
    } else {
        0i16
    })
}

/// The translation of each of the four things that a caller can ask for.
pub proof fn lemma_translated(native_in: i16, native_out: i16)
    ensures
        translated(0, native_in, native_out) == 0,
        translated(EV_POLLIN, native_in, native_out) == native_in,
        translated(EV_POLLOUT, native_in, native_out) == native_out,
        translated((EV_POLLIN | EV_POLLOUT) as i16, native_in, native_out) == native_in
            | native_out,
{
    assert(0i16 & 1i16 == 0 && 0i16 & 2i16 == 0 && 1i16 & 1i16 != 0 && 1i16 & 2i16 == 0 && 2i16
        & 1i16 == 0 && 2i16 & 2i16 != 0 && (1i16 | 2i16) & 1i16 != 0 && (1i16 | 2i16) & 2i16 != 0)
        by (bit_vector);
    assert(0i16 | 0i16 == 0) by (bit_vector);
    assert(native_in | 0i16 == native_in) by (bit_vector);
    assert(0i16 | native_out == native_out) by (bit_vector);
}

/// Translates the events that a caller asks for into those of the operating system.
pub fn translate_event(ev: i16, native_in: i16, native_out: i16) -> (events: i16)
    ensures
        events == translated(ev, native_in, native_out),
{
    let wanted_in: i16 = if (ev & EV_POLLIN) != 0 {
        native_in
    } else {
        0
    };
    let wanted_out: i16 = if (ev & EV_POLLOUT) != 0 {
        native_out
    } else {
        0
    };
    wanted_in | wanted_out
}

/// Whether the events that the operating system reports are exactly those asked for.
pub fn event_occurred(ev: i16, reported: i16, native_in: i16, native_out: i16) -> (occurred: bool)
    ensures
        occurred == (reported == translated(ev, native_in, native_out)),
{
    reported == translate_event(ev, native_in, native_out)
}

/// What is left, in milliseconds, of a wait of `timeout` milliseconds of
/// which `elapsed` have passed, or `None` once the deadline is behind.
pub fn remaining_wait(timeout: i32, elapsed: u128) -> (left: Option<i32>)
    ensures
        timeout < elapsed ==> left is None,
        timeout >= elapsed ==> left == Some((timeout - elapsed) as i32),
{
    if timeout < 0 {
        return None;
    }
    let total: u128 = timeout as u128;
    if total < elapsed {
        None
    } else {
        Some((total - elapsed) as i32)
    }
}

} // verus!
