//! The airbrake controller's flight phase, as the flight loop hands it to
//! the controller on the second core.

use vstd::prelude::*;

verus! {

/// The flight phase the airbrake controller acts on.
#[derive(Clone, Copy, Debug, PartialEq, Eq, Structural)]
pub enum AirbrakePhase {
    Pad,
    Boost,
    Coast,
}

} // verus!
