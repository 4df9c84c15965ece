//! The states of the user interface.
use vstd::prelude::*;

verus! {

/// A state of the user interface.
#[derive(Clone, Copy, Debug, PartialEq, Eq, Structural)]
pub enum UiStates {
    /// The link is not up yet.
    Initialization,
    /// The link is up and an address is to be chosen.
    Address,
    /// The appliance has an address and offers its operations.
    Start,
}

} // verus!
