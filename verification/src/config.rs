//! What a character is created with: who it is, how it is disposed, and how
//! it remembers.

use vstd::prelude::*;
use crate::emotion::{in_affect_range, EmotionPrediction, AFFECT_MAX, AFFECT_MIN};
use crate::error::EngineError;

verus! {

/// Descriptive metadata of a character.
#[derive(Debug)]
pub struct Identity {
    pub name: String,
    pub background: String,
}

/// The resting disposition of a character, each component counted in
/// millionths.
#[derive(Clone, Copy, Debug, PartialEq, Eq, Structural)]
pub struct PersonalityTraits {
    pub valence: i32,
    pub arousal: i32,
}

/// How much a character remembers and how fast its memories fade.
#[derive(Clone, Copy, Debug, PartialEq, Eq, Structural)]
pub struct MemoryConfig {
    /// The largest number of interactions kept for one character.
    pub max_records: usize,
    /// The number of seconds after which a memory's weight has halved.
    pub decay_half_life: u64,
}

/// The configuration that a character is created with.
#[derive(Debug)]
pub struct NpcConfig {
    pub identity: Identity,
    pub personality: PersonalityTraits,
    pub memory_config: MemoryConfig,
}

impl Clone for Identity {
    fn clone(&self) -> (copy: Self)
        ensures
            copy == *self,
    {
        Identity { name: self.name.clone(), background: self.background.clone() }
    }
}

impl Clone for NpcConfig {
    fn clone(&self) -> (copy: Self)
        ensures
            copy == *self,
    {
        NpcConfig {
            identity: self.identity.clone(),
            personality: self.personality,
            memory_config: self.memory_config,
        }
    }
}

impl PersonalityTraits {
    /// Both components lie in the valid affect range.
    pub open spec fn is_valid(self) -> bool {
        in_affect_range(self.valence as int) && in_affect_range(self.arousal as int)
    }

    /// The disposition as an affect point.
    pub open spec fn baseline(self) -> EmotionPrediction {
        EmotionPrediction { valence: self.valence, arousal: self.arousal }
    }

    /// The affect that the character rests at.
    pub fn as_emotion(&self) -> (e: EmotionPrediction)
        ensures
            e == self.baseline(),
    {
        EmotionPrediction { valence: self.valence, arousal: self.arousal }
    }
}

impl MemoryConfig {
    /// At least one record is kept, and the half-life is positive.
    pub open spec fn is_valid(self) -> bool {
        self.max_records >= 1 && self.decay_half_life >= 1
    }
}

impl NpcConfig {
    /// The personality is in range and the memory tunables are usable.
    pub open spec fn is_valid(self) -> bool {
        self.personality.is_valid() && self.memory_config.is_valid()
    }

    /// Accepts a valid configuration and rejects any other as
    /// [`EngineError::ConfigInvalid`].
    pub fn validate(&self) -> (checked: Result<(), EngineError>)
        ensures
            checked == if self.is_valid() {
                Ok::<(), EngineError>(())
            } else {
                Err::<(), EngineError>(EngineError::ConfigInvalid)
            },
    {
        let p = &self.personality;
        let m = &self.memory_config;
        if AFFECT_MIN <= p.valence && p.valence <= AFFECT_MAX && AFFECT_MIN <= p.arousal
            && p.arousal <= AFFECT_MAX && m.max_records >= 1 && m.decay_half_life >= 1 {
            Ok(())
        } else {
            Err(EngineError::ConfigInvalid)
        }
    }
}

} // verus!
