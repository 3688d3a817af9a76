//! Why a frame of the feed was refused.

use vstd::prelude::*;

verus! {

/// A frame, or a part of one, that cannot be decoded. Nothing is coerced
/// into a default: the session that meets one of these ends.
#[derive(Clone, Copy, Debug, PartialEq, Eq, Structural)]
pub enum DecodeError {
    /// The text is not JSON.
    NotJson,
    /// The document does not have the shape of a frame or of a sub-message.
    BadShape,
    /// A price or a size is not a decimal numeral within range.
    BadDecimal,
}

} // verus!
