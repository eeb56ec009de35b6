//! A streaming ANSI/VT escape-sequence interceptor: it scans a byte stream,
//! extracts complete CSI and OSC sequences, dispatches each recognized
//! sequence to an interpreter callback, and passes every other byte through
//! verbatim.

use vstd::prelude::*;

pub mod console;
pub mod dispatch;
pub mod extract;
pub mod intercept;
pub mod interp;
pub mod laws;
pub mod model;
pub mod params;
pub mod tape;

pub use crate::dispatch::EraseDisplay;
pub use crate::dispatch::EraseLine;
pub use crate::intercept::AnsiIntercept;
pub use crate::interp::AnsiInterpret;

verus! {

/// Entry point for redirecting the standard streams through an interceptor.
///
/// On platforms whose console honors ANSI escape sequences natively there is
/// nothing to intercept, so this is a no-op; a platform-specific harness that
/// swaps the standard handles takes its place elsewhere.
pub fn intercept_stdio() {
}

} // verus!
