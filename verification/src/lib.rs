//! Persistent, evolving affect for non-player characters.
//!
//! An affect is a pair (valence, arousal). Every interaction directed at a
//! character leaves a record in that character's memory; the character's
//! current emotion is its personality baseline blended with the remembered
//! affects, each weighted by how long ago it happened.
//!
//! All quantities are fixed-point integers: affect components are counted in
//! millionths, decay weights in units of 2^-32, and time in whole seconds.

pub mod error;
pub mod emotion;
pub mod decay;
pub mod table;
pub mod config;
pub mod record;
pub mod store;
pub mod blend;
pub mod model;
pub mod evaluator;
pub mod registry;
pub mod ident;
pub mod engine;
pub mod web;

pub use config::{Identity, MemoryConfig, NpcConfig, PersonalityTraits};
pub use decay::{decay_weight_of, WEIGHT_ONE};
pub use engine::Engine;
pub use emotion::{EmotionPrediction, EmotionPredictorError, RawPrediction, AFFECT_MAX, AFFECT_MIN};
pub use error::EngineError;
pub use evaluator::MemoryEmotionEvaluator;
pub use model::ModelCache;
pub use record::MemoryRecord;
pub use registry::SessionRegistry;
pub use store::{LoadedUnit, MemoryStore, WriteOutcome};
