//! The entry point through which a remote session sets the brightness of
//! every device.

use vstd::prelude::*;

use crate::deckactor::{Command, MsgType};
use crate::hub::Broadcast;
use crate::text::{byte_value, parse_byte};

pub use crate::ws_session::{SessionId, WsMessage};

verus! {

/// The brightness that stands in for a text that names none.
pub const FALLBACK_BRIGHTNESS: u8 = 1;

/// The brightness that a text asks for: the byte it denotes, and the
/// fallback where it denotes none, be it malformed or out of range.
pub open spec fn brightness_of(text: Seq<char>) -> u8 {
    match byte_value(text) {
        Some(value) => value,
        None => FALLBACK_BRIGHTNESS,
    }
}

/// Turns a line of text from a session into the broadcast it asks for.
/// There is no line that is refused.
pub fn handle_ws_message(msg: &WsMessage) -> (request: Broadcast)
    ensures
        request.0@ == Command::BrightnessChange(brightness_of(msg@)),
{
    match parse_byte(msg.msg.as_str()) {
        Some(value) => Broadcast(MsgType::BrightnessChange(value)),
        None => Broadcast(MsgType::BrightnessChange(FALLBACK_BRIGHTNESS)),
    }
}

} // verus!
