//! The current state of the user interface, and the elements that each state shows.
use vstd::prelude::*;
use super::uistates::UiStates;

verus! {

/// The names of the elements that a state shows, in the order in which they are drawn.
pub open spec fn items_of(state: UiStates) -> Seq<Seq<char>> {
    match state {
        UiStates::Initialization => seq!["EthernetHint"@, "INIT_ETHERNET"@],
        UiStates::Address => seq![
            "AddressHint"@,
            "INIT_DHCP"@,
            "INIT_GLOBAL"@,
            "INIT_10_0_0_0"@,
            "INIT_172_16_0_0"@,
            "INIT_192_168_0_0"@,
        ],
        UiStates::Start => seq![
            "ScrollText"@,
            "ButtonScrollUp"@,
            "ButtonScrollDown"@,
            "TRAFFIC"@,
            "ButtonInfo"@,
            "ButtonKillGateway"@,
            "ARP_SCAN"@,
            "ICMP"@,
            "TCP_PROBE"@,
            "UDP_PROBE"@,
            "ButtonKillNetwork"@,
        ],
    }
}

/// The state that the user interface is in.
pub struct UiState {
    current_ui_state: UiStates,
}

impl View for UiState {
    type V = UiStates;

    closed spec fn view(&self) -> UiStates {
        self.current_ui_state
    }
}

impl UiState {
    /// The user interface before the link is up.
    pub fn new() -> (r: UiState)
        ensures
            r@ == UiStates::Initialization,
    {
        UiState { current_ui_state: UiStates::Initialization }
    }

    /// The current state.
    pub fn get_ui_state(&mut self) -> (r: UiStates)
        ensures
            r == old(self)@,
            final(self)@ == old(self)@,
    {
        self.current_ui_state
    }

    /// Moves to `new_ui_state` and puts the names of the elements that it shows in the place
    /// of what `draw_items` held.
    pub fn change_ui_state(&mut self, draw_items: &mut Vec<String>, new_ui_state: UiStates)
        ensures
            final(self)@ == new_ui_state,
            final(draw_items)@.len() == items_of(new_ui_state).len(),
            forall|i: int|
                0 <= i < final(draw_items)@.len() ==> (#[trigger] final(draw_items)@[i])@
                    == items_of(new_ui_state)[i],
    {
        draw_items.clear();
        match new_ui_state {
            UiStates::Initialization => {
                draw_items.push(String::from_str("EthernetHint"));
                draw_items.push(String::from_str("INIT_ETHERNET"));
            },
            UiStates::Address => {
                draw_items.push(String::from_str("AddressHint"));
                draw_items.push(String::from_str("INIT_DHCP"));
                draw_items.push(String::from_str("INIT_GLOBAL"));
                draw_items.push(String::from_str("INIT_10_0_0_0"));
                draw_items.push(String::from_str("INIT_172_16_0_0"));
                draw_items.push(String::from_str("INIT_192_168_0_0"));
            },
            UiStates::Start => {
                draw_items.push(String::from_str("ScrollText"));
                draw_items.push(String::from_str("ButtonScrollUp"));
                draw_items.push(String::from_str("ButtonScrollDown"));
                draw_items.push(String::from_str("TRAFFIC"));
                draw_items.push(String::from_str("ButtonInfo"));
                draw_items.push(String::from_str("ButtonKillGateway"));
                draw_items.push(String::from_str("ARP_SCAN"));
                draw_items.push(String::from_str("ICMP"));
                draw_items.push(String::from_str("TCP_PROBE"));
                draw_items.push(String::from_str("UDP_PROBE"));
                draw_items.push(String::from_str("ButtonKillNetwork"));
            },
        }
        self.current_ui_state = new_ui_state;
    }
}

} // verus!
