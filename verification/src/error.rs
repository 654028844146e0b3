//! The kinds of failure that the engine reports.

use vstd::prelude::*;
use vstd::string::*;

verus! {

/// Why an engine operation did not take place.
#[derive(Clone, Copy, Debug, PartialEq, Eq, Structural)]
pub enum EngineError {
    /// A configuration or a memory record is out of range or malformed.
    ConfigInvalid,
    /// The predictor was used before the model was loaded.
    ModelNotReady,
    /// The inference backend failed, or refused the text.
    PredictionFailed,
    /// A memory unit could not be written or removed on the durable medium.
    PersistenceFailed,
    /// No character is known under the given identifier.
    NotFound,
    /// A character is already registered under the given identifier.
    AlreadyExists,
}

impl EngineError {
    /// The text that describes each kind.
    pub open spec fn describe(self) -> Seq<char> {
        match self {
            EngineError::ConfigInvalid => "invalid configuration or memory record"@,
            EngineError::ModelNotReady => "model not initialized"@,
            EngineError::PredictionFailed => "emotion prediction failed"@,
            EngineError::PersistenceFailed => "memory persistence failed"@,
            EngineError::NotFound => "NPC not found"@,
            EngineError::AlreadyExists => "NPC already exists"@,
        }
    }

    /// The description of the failure with the reason that the durable
    /// medium gave: only a persistence failure has such a reason.
    pub open spec fn explained(self, reason: Seq<char>) -> Seq<char> {
        if self is PersistenceFailed {
            self.describe() + ": "@ + reason
        } else {
            self.describe()
        }
    }

    /// Runtime form of [`EngineError::explained`].
    pub fn message_with(&self, reason: &String) -> (text: String)
        ensures
            text@ == self.explained(reason@),
    {
        let mut text = self.message();
        match self {
            EngineError::PersistenceFailed => {
                text.append(": ");
                text.append(reason.as_str());
            },
            _ => {},
        }
        text
    }

    /// A human-readable description of the failure.
    pub fn message(&self) -> (text: String)
        ensures
            text@ == self.describe(),
    {
        match self {
            EngineError::ConfigInvalid => "invalid configuration or memory record".to_string(),
            EngineError::ModelNotReady => "model not initialized".to_string(),
            EngineError::PredictionFailed => "emotion prediction failed".to_string(),
            EngineError::PersistenceFailed => "memory persistence failed".to_string(),
            EngineError::NotFound => "NPC not found".to_string(),
            EngineError::AlreadyExists => "NPC already exists".to_string(),
        }
    }
}

} // verus!
