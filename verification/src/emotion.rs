//! Affect points and the outcome of a prediction.

use vstd::prelude::*;
use vstd::string::*;

verus! {

/// The largest value of an affect component: 1.0, counted in millionths.
pub const AFFECT_MAX: i32 = 1_000_000;

/// The smallest value of an affect component: -1.0, counted in millionths.
pub const AFFECT_MIN: i32 = -1_000_000;

/// The longest text, in characters, that is accepted for prediction.
pub const MAX_TEXT_CHARS: usize = 4096;

/// A text can be predicted on if it is not empty and not longer than
/// [`MAX_TEXT_CHARS`]. A longer text is refused, never cut.
pub open spec fn text_admissible(text: Seq<char>) -> bool {
    0 < text.len() <= MAX_TEXT_CHARS
}

/// Runtime form of [`text_admissible`].
pub fn check_text(text: &String) -> (ok: bool)
    ensures
        ok == text_admissible(text@),
{
    let n: usize = text.as_str().unicode_len();
    0 < n && n <= MAX_TEXT_CHARS
}

/// Whether `x` lies in the valid range of an affect component.
pub open spec fn in_affect_range(x: int) -> bool {
    AFFECT_MIN <= x <= AFFECT_MAX
}

/// The value of the valid range that is nearest to `x`.
pub open spec fn clamp_affect(x: int) -> int {
    if x < AFFECT_MIN {
        AFFECT_MIN as int
    } else if x > AFFECT_MAX {
        AFFECT_MAX as int
    } else {
        x
    }
}

/// One of the two axes of an affect.
#[derive(Clone, Copy, Debug, PartialEq, Eq, Structural)]
pub enum Axis {
    Valence,
    Arousal,
}

/// A single affect point, each component counted in millionths.
#[derive(Clone, Copy, Debug, PartialEq, Eq, Structural)]
pub struct EmotionPrediction {
    /// How pleasant (positive) or unpleasant (negative) the state is.
    pub valence: i32,
    /// How intense the state is.
    pub arousal: i32,
}

/// What an inference backend returned for a text, before any clamping.
#[derive(Clone, Copy, Debug, PartialEq, Eq, Structural)]
pub struct RawPrediction {
    pub valence: i64,
    pub arousal: i64,
}

/// Why a predictor gave no affect for a text.
#[derive(Clone, Copy, Debug, PartialEq, Eq, Structural)]
pub enum EmotionPredictorError {
    /// The model has not been loaded.
    NotInitialized,
    /// The backend failed on this text.
    InferenceFailed,
}

/// Clamps one raw component into the valid range.
pub fn clamp_component(x: i64) -> (c: i32)
    ensures
        c == clamp_affect(x as int),
        in_affect_range(c as int),
{
    if x < -1_000_000 {
        AFFECT_MIN
    } else if x > 1_000_000 {
        AFFECT_MAX
    } else {
        x as i32
    }
}

impl EmotionPrediction {
    /// Both components lie in the valid range.
    pub open spec fn is_valid(self) -> bool {
        in_affect_range(self.valence as int) && in_affect_range(self.arousal as int)
    }

    /// The component on the given axis.
    pub open spec fn component(self, axis: Axis) -> int {
        match axis {
            Axis::Valence => self.valence as int,
            Axis::Arousal => self.arousal as int,
        }
    }

    /// The valid affect nearest to a raw prediction.
    pub open spec fn clamped(raw: RawPrediction) -> EmotionPrediction {
        EmotionPrediction {
            valence: clamp_affect(raw.valence as int) as i32,
            arousal: clamp_affect(raw.arousal as int) as i32,
        }
    }

    /// Runtime form of [`EmotionPrediction::is_valid`].
    pub fn in_range(&self) -> (ok: bool)
        ensures
            ok == self.is_valid(),
    {
        AFFECT_MIN <= self.valence && self.valence <= AFFECT_MAX && AFFECT_MIN <= self.arousal
            && self.arousal <= AFFECT_MAX
    }

    /// Clamps a raw prediction, component by component.
    pub fn from_raw(raw: RawPrediction) -> (e: EmotionPrediction)
        ensures
            e == EmotionPrediction::clamped(raw),
            e.is_valid(),
    {
        EmotionPrediction {
            valence: clamp_component(raw.valence),
            arousal: clamp_component(raw.arousal),
        }
    }
}

} // verus!
