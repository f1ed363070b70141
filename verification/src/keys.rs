//! Discrete key events as the engine sees them.
//!
//! The host decodes the keyboard; the engine only distinguishes the few
//! control keys it reacts to and printable characters.

use vstd::prelude::*;

verus! {

/// A control key, already decoded by the host.
#[derive(Clone, Copy, PartialEq, Eq, Structural)]
pub enum RawKey {
    Spacebar,
    ArrowLeft,
    ArrowRight,
    ArrowUp,
    ArrowDown,
    /// Any control key the engine does not react to.
    Other,
}

/// One discrete key event: either a control key or a printable character.
#[derive(Clone, Copy, PartialEq, Eq, Structural)]
pub enum KeyInput {
    Raw(RawKey),
    Unicode(char),
}

} // verus!
