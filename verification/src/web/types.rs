//! The payloads of the endpoints.

use vstd::prelude::*;
use crate::config::{NpcConfig, PersonalityTraits};
use crate::emotion::EmotionPrediction;
use crate::record::MemoryRecord;

verus! {

/// The envelope of every answer: either data or an error message.
#[derive(Debug)]
pub struct ApiResponse<T> {
    pub success: bool,
    pub data: Option<T>,
    pub error: Option<String>,
}

impl<T> ApiResponse<T> {
    /// The answer that carries `data`.
    pub fn success(data: T) -> (response: Self)
        ensures
            response.success,
            response.data == Some(data),
            response.error is None,
    {
        ApiResponse { success: true, data: Some(data), error: None }
    }

    /// The answer that carries an error message and no data.
    pub fn error(message: String) -> (response: Self)
        ensures
            !response.success,
            response.data is None,
            response.error == Some(message),
    {
        ApiResponse { success: false, data: None, error: Some(message) }
    }
}

/// An emotion as it is sent out, each component counted in millionths.
#[derive(Clone, Copy, Debug, PartialEq, Eq, Structural)]
pub struct EmotionResponse {
    pub valence: i32,
    pub arousal: i32,
}

impl EmotionResponse {
    /// The payload for an emotion.
    pub fn from_emotion(emotion: EmotionPrediction) -> (response: Self)
        ensures
            response.valence == emotion.valence,
            response.arousal == emotion.arousal,
    {
        EmotionResponse { valence: emotion.valence, arousal: emotion.arousal }
    }
}

/// The answer to the creation of a session.
#[derive(Debug)]
pub struct NpcSessionResponse {
    pub npc_id: String,
}

/// The request to create a session, validated into the engine's types.
#[derive(Debug)]
pub struct CreateNpcRequest {
    pub config: NpcConfig,
    pub memory: Option<Vec<MemoryRecord>>,
}

/// The request to evaluate an interaction.
#[derive(Debug)]
pub struct EvaluateInteractionRequest {
    pub text: String,
    pub source_id: Option<String>,
}

/// The request to load the model: it has no fields.
#[derive(Debug)]
pub struct InitializeRequest {}

/// An answer that is a message only.
#[derive(Debug)]
pub struct MessageResponse {
    pub message: String,
}

/// The answer of the health check.
#[derive(Debug)]
pub struct HealthResponse {
    pub status: String,
    pub version: String,
}

/// One line of the list of live sessions.
#[derive(Debug)]
pub struct NpcSummary {
    pub npc_id: String,
    pub name: String,
    pub background: String,
    pub personality: PersonalityTraits,
}

} // verus!
