//! Tick scheduling for the input source.
//!
//! The input source merges keypresses and periodic ticks into one stream. It
//! repeatedly waits for a keypress for at most the time remaining until the
//! next scheduled tick, and emits a tick once the full interval has elapsed
//! since the last one. Measuring against elapsed wall-clock time (never a
//! reset-on-key timer) keeps ticks from starving under a continuous stream
//! of keypresses. The waiting itself happens outside this crate; these
//! functions decide how long to wait and when a tick is owed.

use vstd::prelude::*;

verus! {

/// Default tick interval, in milliseconds.
pub const TICK_RATE_MS: u64 = 200;

/// Time still to wait for a keypress before the next tick is due: the tick
/// interval minus the time already elapsed since the last tick, and zero as
/// soon as the interval has fully elapsed.
pub fn tick_timeout(tick_rate_ms: u64, elapsed_ms: u64) -> (r: u64)
    ensures
        r == if elapsed_ms <= tick_rate_ms {
            tick_rate_ms - elapsed_ms
        } else {
            0
        },
        (r == 0) == (elapsed_ms >= tick_rate_ms),
{
    if elapsed_ms <= tick_rate_ms {
        tick_rate_ms - elapsed_ms
    } else {
        0
    }
}

/// Whether a tick is owed: the full interval has elapsed since the last tick.
/// Together with `tick_timeout`, this guarantees that ticks never starve: the
/// wait is bounded by the remaining interval, and once that wait returns, an
/// elapsed interval always yields a tick.
pub fn tick_due(tick_rate_ms: u64, elapsed_ms: u64) -> (b: bool)
    ensures
        b == (elapsed_ms >= tick_rate_ms),
{
    elapsed_ms >= tick_rate_ms
}

} // verus!
