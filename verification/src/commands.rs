//! Command identifiers and reserved wire values.

use vstd::prelude::*;

verus! {

/// Special display id used to address every display at once.
pub const DISPLAY_BROADCAST: u8 = 0xFE;

/// Command id of an acknowledge / not-acknowledge response.
pub const ACK_NACK: u8 = 0xFF;

/// Command id controlling the power state of a display.
pub const POWER_CONTROL: u8 = 0x11;

/// Command id controlling whether the panel is on or off.
pub const PANEL_ON_OFF: u8 = 0xF9;

} // verus!
