//! What the library uses of the `x11rb` crate.
//!
//! The error and reply types are declared with their fields, so contracts read
//! them directly. `ModMask` keeps its bits private; the library carries a
//! modifier mask as the `u16` of the core protocol and lets `ModMask` do the
//! work.

use vstd::prelude::*;
use x11rb::errors::{ConnectionError, ReplyError};
use x11rb::protocol::xproto::{GetKeyboardMappingReply, GetModifierMappingReply, ModMask};
use x11rb::protocol::ErrorKind;
use x11rb::x11_utils::X11Error;

verus! {

/// `x11rb::errors::ConnectionError`: carried along, never looked into.
#[verifier::external_type_specification]
#[verifier::external_body]
pub struct ExConnectionError(ConnectionError);

/// `x11rb::protocol::ErrorKind`: which error the server reported.
#[verifier::external_type_specification]
pub struct ExErrorKind(ErrorKind);

/// `x11rb::x11_utils::X11Error`: an error packet of the server.
#[verifier::external_type_specification]
pub struct ExX11Error(X11Error);

/// `x11rb::errors::ReplyError`: how a checked request failed.
#[verifier::external_type_specification]
pub struct ExReplyError(ReplyError);

/// `x11rb::protocol::xproto::GetKeyboardMappingReply`: the keysym table.
#[verifier::external_type_specification]
pub struct ExGetKeyboardMappingReply(GetKeyboardMappingReply);

/// `x11rb::protocol::xproto::GetModifierMappingReply`: the modifier table.
#[verifier::external_type_specification]
pub struct ExGetModifierMappingReply(GetModifierMappingReply);

/// `GetModifierMappingReply::keycodes_per_modifier`: the length of the keycode
/// list over eight. It panics where that does not fit in a byte.
pub assume_specification[ GetModifierMappingReply::keycodes_per_modifier ](
    reply: &GetModifierMappingReply,
) -> (width: u8)
    requires
        reply.keycodes@.len() / 8 <= u8::MAX,
    ensures
        width == reply.keycodes@.len() / 8,
;

/// The bit of the Lock modifier (Caps Lock).
pub const LOCK: u16 = 0x2;

/// The bit of the second user modifier, which commonly carries Num Lock.
pub const M2: u16 = 0x10;

/// `ModMask::LOCK` as its bits: the Lock modifier is bit one.
#[verifier::external_body]
pub(crate) fn lock_mask() -> (bits: u16)
    ensures
        bits == LOCK,
{
    u16::from(ModMask::LOCK)
}

/// `ModMask::M2` as its bits: the second user modifier is bit four.
#[verifier::external_body]
pub(crate) fn m2_mask() -> (bits: u16)
    ensures
        bits == M2,
{
    u16::from(ModMask::M2)
}

/// `<ModMask as BitOr>::bitor` on masks given and returned as bits: the bits
/// that are set in either mask.
#[verifier::external_body]
pub(crate) fn mask_union(left: u16, right: u16) -> (bits: u16)
    ensures
        bits == left | right,
{
    u16::from(ModMask::from(left) | ModMask::from(right))
}

} // verus!
