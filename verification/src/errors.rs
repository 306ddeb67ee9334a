use vstd::prelude::*;
use vstd::string::StringExecFns;

verus! {

/// Why a render request failed. Every failure is terminal for that request:
/// no partial image is ever returned, and the game state is left untouched.
#[derive(Debug, PartialEq, Eq, Clone, Copy, Structural)]
pub enum RenderError {
    /// The position string does not describe a board grid.
    MalformedPosition,
    /// The font or a required piece sprite was missing or could not be decoded.
    AssetUnavailable,
    /// The finished canvas could not be serialized to the output format.
    EncodingFailure,
}

/// The human-readable cause of each failure.
pub open spec fn spec_message(e: RenderError) -> Seq<char> {
    match e {
        RenderError::MalformedPosition => "the position string does not describe a valid board"@,
        RenderError::AssetUnavailable => "a font or piece sprite asset was missing or malformed"@,
        RenderError::EncodingFailure => "the rendered board image could not be encoded"@,
    }
}

impl RenderError {
    /// A human-readable cause for this failure.
    pub fn message(&self) -> (s: String)
        ensures
            s@ == spec_message(*self),
    {
        match self {
            RenderError::MalformedPosition => String::from_str(
                "the position string does not describe a valid board",
            ),
            RenderError::AssetUnavailable => String::from_str(
                "a font or piece sprite asset was missing or malformed",
            ),
            RenderError::EncodingFailure => String::from_str(
                "the rendered board image could not be encoded",
            ),
        }
    }
}

} // verus!
