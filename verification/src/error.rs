use vstd::prelude::*;

verus! {

/// Why an animation could not be produced.
#[derive(Debug, Clone, Copy, PartialEq, Eq)]
pub enum AnimationError {
    /// The keyframe list has fewer than two entries, or two neighbouring
    /// keyframes whose frame indices do not strictly increase.
    ConfigurationError,
    /// The output destination could not be created.
    FileCreateError,
    /// The encoder could not be initialised.
    EncoderError,
    /// A render task did not deliver a frame that fits its dimensions.
    FrameCreateError,
    /// The encoder rejected a frame, or the finished stream could not be
    /// handed over.
    FrameEncodeError,
}

} // verus!
