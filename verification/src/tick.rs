//! Tick events and the per-tick context.
//!
//! The external tick source delivers one discriminated event per tick. A
//! system that does not recognize an event's variant treats the tick as a
//! no-op; it never fails on one. Elapsed time arrives as a whole number of
//! engine time units, viewport sizes as pixels.

use vstd::prelude::*;

verus! {

/// One external tick event.
#[derive(Clone, Copy, PartialEq, Eq, Structural, Debug)]
pub enum TickEvent {
    /// Advance the simulation by `dt` elapsed time units.
    Update { dt: i64 },
    /// Draw one frame into a viewport of the given pixel size.
    Render { width: u32, height: u32 },
    /// The window was resized.
    Resize { width: u32, height: u32 },
    /// A key changed state.
    Input { key: u32, pressed: bool },
    /// Nothing to do this tick.
    Idle,
}

/// The context handed to every system once per tick.
#[derive(Clone, Copy, PartialEq, Eq, Structural, Debug)]
pub struct TickContext {
    pub event: TickEvent,
}

} // verus!
