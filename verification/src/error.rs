//! What can go wrong between the driver and the panel.

use vstd::prelude::*;

verus! {

/// Failures that the driver reports.
#[derive(Clone, Copy, Debug, PartialEq, Eq, Structural)]
pub enum UnicornError {
    /// The transport could not carry out a request on the SPI bus.
    SPIError,
    /// The panel is not in the state that the operation needs: it was shut
    /// down, or its start-up has not come to an end.
    NotReady,
}

} // verus!
