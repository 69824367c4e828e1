//! What the hub knows about the hardware: the vendor whose devices it
//! drives, and the models it can tell apart.

use vstd::prelude::*;

verus! {

/// The USB vendor id of the decks.
pub const ELGATO_VID: u16 = 0x0fd9;

/// The USB product id of the 15-button deck sold as "Original".
pub const ORIGINAL_PID: u16 = 0x0060;

/// The USB product id of the second revision of the 15-button deck.
pub const ORIGINAL_V2_PID: u16 = 0x006d;

/// The USB product id of the deck with 6 buttons.
pub const MINI_PID: u16 = 0x0063;

/// The USB product id of the deck with 32 buttons.
pub const XL_PID: u16 = 0x006c;

/// The USB product id of the third revision of the 15-button deck.
pub const MK2_PID: u16 = 0x0080;

/// A model of deck.
#[derive(Debug, Clone, Copy, PartialEq, Eq, Hash, Structural)]
pub enum Kind {
    Original,
    OriginalV2,
    Mini,
    Xl,
    Mk2,
}

/// The model that a product id stands for, if it is one of the known ones.
pub open spec fn kind_of(pid: u16) -> Option<Kind> {
    if pid == MINI_PID {
        Some(Kind::Mini)
    } else if pid == ORIGINAL_PID {
        Some(Kind::Original)
    } else if pid == ORIGINAL_V2_PID {
        Some(Kind::OriginalV2)
    } else if pid == MK2_PID {
        Some(Kind::Mk2)
    } else if pid == XL_PID {
        Some(Kind::Xl)
    } else {
        None
    }
}

/// Tells the model of a device from its product id.
pub fn pid_to_kind(pid: u16) -> (kind: Option<Kind>)
    ensures
        kind == kind_of(pid),
{
    if pid == MINI_PID {
        Some(Kind::Mini)
    } else if pid == ORIGINAL_PID {
        Some(Kind::Original)
    } else if pid == ORIGINAL_V2_PID {
        Some(Kind::OriginalV2)
    } else if pid == MK2_PID {
        Some(Kind::Mk2)
    } else if pid == XL_PID {
        Some(Kind::Xl)
    } else {
        None
    }
}

/// No two models share a product id.
pub proof fn lemma_kinds_are_distinct(a: u16, b: u16)
    requires
        kind_of(a) is Some,
        kind_of(a) == kind_of(b),
    ensures
        a == b,
{
}

} // verus!
