//! What the watcher of the colour source decides in one cycle.
//!
//! The watcher reads the source, by polling a file or by waiting on a pipe,
//! and hands the bytes it read to one of the two functions here, together
//! with exclusive access to the colour. It is told whether to wake those who
//! wait for a change. An error is fatal: the colour is left as it was and the
//! service must stop.

use crate::color::{decode_color, decoded, ColorState, SourceError};
use vstd::prelude::*;

verus! {

/// Milliseconds between two polls of a source file.
pub const POLL_INTERVAL_MS: u64 = 200;

/// Milliseconds to rest after a pipe was read, before it is opened again.
pub const DEBOUNCE_MS: u64 = 200;

/// One cycle of the polling watcher. The colour is replaced only where the
/// source spells another one, and only then are the waiters woken: once,
/// however many channels changed. A source that spells no colour is an
/// error and leaves the colour as it was.
pub fn polling_cycle(state: &mut ColorState, source: &[u8]) -> (r: Result<bool, SourceError>)
    ensures
        match decoded(source@) {
            Ok(color) => *final(state) == color && r == Ok::<bool, SourceError>(
                *old(state) != color,
            ),
            Err(e) => *final(state) == *old(state) && r == Err::<bool, SourceError>(e),
        },
{
    match decode_color(source) {
        Ok(c) => {
            if c.r != state.r || c.g != state.g || c.b != state.b {
                let changed = state.update(c.r, c.g, c.b);
                Ok(changed)
            } else {
                Ok(false)
            }
        },
        Err(e) => Err(e),
    }
}

/// One cycle of the blocking watcher. The colour is replaced by what the
/// source spells, and the waiters are woken, whether or not it changed. A
/// source that spells no colour is an error and leaves the colour as it was.
pub fn blocking_cycle(state: &mut ColorState, source: &[u8]) -> (r: Result<bool, SourceError>)
    ensures
        match decoded(source@) {
            Ok(color) => *final(state) == color && r == Ok::<bool, SourceError>(true),
            Err(e) => *final(state) == *old(state) && r == Err::<bool, SourceError>(e),
        },
{
    match decode_color(source) {
        Ok(c) => {
            state.update(c.r, c.g, c.b);
            Ok(true)
        },
        Err(e) => Err(e),
    }
}

} // verus!
