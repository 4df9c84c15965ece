//! What the screen shows in each state of the appliance.
pub mod uistate;
pub mod uistates;
