//! The load state of the shared inference model.
//!
//! Loading the model is slow and happens outside this library. The cache
//! decides who loads: the first caller that asks is told to load, callers
//! that ask while the load runs are told to wait, and once the model is
//! ready nobody is told to load again.

use vstd::prelude::*;
use crate::emotion::{check_text, text_admissible, EmotionPredictorError};
use crate::error::EngineError;

verus! {

/// Where the shared model stands.
#[derive(Clone, Copy, Debug, PartialEq, Eq, Structural)]
pub enum ModelState {
    /// No model is loaded and nobody is loading one.
    Unloaded,
    /// One caller is loading the model.
    Loading,
    /// The model is loaded and can be read by any number of callers.
    Ready,
}

/// What a caller that asked for initialization has to do.
#[derive(Clone, Copy, Debug, PartialEq, Eq, Structural)]
pub enum InitAction {
    /// Load the model, and report the result with
    /// [`ModelCache::finish_initialize`].
    Load,
    /// Another caller is loading: wait for it.
    Wait,
    /// The model is ready: there is nothing to do.
    Confirm,
}

/// The action that belongs to each state.
pub open spec fn init_action(state: ModelState) -> InitAction {
    match state {
        ModelState::Unloaded => InitAction::Load,
        ModelState::Loading => InitAction::Wait,
        ModelState::Ready => InitAction::Confirm,
    }
}

/// The state after initialization was asked for.
pub open spec fn after_begin(state: ModelState) -> ModelState {
    match state {
        ModelState::Unloaded => ModelState::Loading,
        ModelState::Loading => ModelState::Loading,
        ModelState::Ready => ModelState::Ready,
    }
}

/// The state after a load reported its result. A report counts only while
/// a load is running.
pub open spec fn after_finish(state: ModelState, loaded: bool) -> ModelState {
    match state {
        ModelState::Loading => if loaded {
            ModelState::Ready
        } else {
            ModelState::Unloaded
        },
        ModelState::Unloaded => ModelState::Unloaded,
        ModelState::Ready => ModelState::Ready,
    }
}

/// Whether the predictor may be used in a state.
pub open spec fn ready_or_error(state: ModelState) -> Result<(), EngineError> {
    if state is Ready {
        Ok(())
    } else {
        Err(EngineError::ModelNotReady)
    }
}

/// Whether the predictor may be run on a text: only a loaded model
/// predicts, and only on a text that can be predicted on.
pub open spec fn admission(state: ModelState, text: Seq<char>) -> Result<
    (),
    EmotionPredictorError,
> {
    if !(state is Ready) {
        Err(EmotionPredictorError::NotInitialized)
    } else if !text_admissible(text) {
        Err(EmotionPredictorError::InferenceFailed)
    } else {
        Ok(())
    }
}

/// The process-wide record of whether the model is loaded.
#[derive(Debug)]
pub struct ModelCache {
    state: ModelState,
}

impl ModelCache {
    /// The current state.
    pub closed spec fn state(&self) -> ModelState {
        self.state
    }

    /// A cache whose model is not loaded.
    pub fn new() -> (cache: Self)
        ensures
            cache.state() == ModelState::Unloaded,
    {
        ModelCache { state: ModelState::Unloaded }
    }

    /// Runtime form of [`ModelCache::state`].
    pub fn current_state(&self) -> (state: ModelState)
        ensures
            state == self.state(),
    {
        self.state
    }

    /// Asks for the model to be initialized. Exactly the caller that finds
    /// the model unloaded is told to load it.
    pub fn begin_initialize(&mut self) -> (action: InitAction)
        ensures
            action == init_action(old(self).state()),
            final(self).state() == after_begin(old(self).state()),
    {
        match self.state {
            ModelState::Unloaded => {
                self.state = ModelState::Loading;
                InitAction::Load
            },
            ModelState::Loading => InitAction::Wait,
            ModelState::Ready => InitAction::Confirm,
        }
    }

    /// Reports how the load went. A failed load leaves the cache unloaded,
    /// so that a later caller is told to load again. The result says whether
    /// the model is ready now.
    pub fn finish_initialize(&mut self, loaded: bool) -> (ready: Result<(), EngineError>)
        ensures
            final(self).state() == after_finish(old(self).state(), loaded),
            ready == ready_or_error(final(self).state()),
    {
        match self.state {
            ModelState::Loading => {
                if loaded {
                    self.state = ModelState::Ready;
                    Ok(())
                } else {
                    self.state = ModelState::Unloaded;
                    Err(EngineError::ModelNotReady)
                }
            },
            ModelState::Unloaded => Err(EngineError::ModelNotReady),
            ModelState::Ready => Ok(()),
        }
    }

    /// Whether the model is loaded.
    pub fn is_ready(&self) -> (ready: bool)
        ensures
            ready == (self.state() is Ready),
    {
        match self.state {
            ModelState::Ready => true,
            _ => false,
        }
    }

    /// Says whether the predictor may be run on a text, and if not, which
    /// failure the prediction ends in without the model being asked.
    pub fn may_predict(&self, text: &String) -> (admitted: Result<(), EmotionPredictorError>)
        ensures
            admitted == admission(self.state(), text@),
    {
        if !self.is_ready() {
            Err(EmotionPredictorError::NotInitialized)
        } else if !check_text(text) {
            Err(EmotionPredictorError::InferenceFailed)
        } else {
            Ok(())
        }
    }

    /// Grants use of the predictor if the model is loaded, and fails with
    /// [`EngineError::ModelNotReady`] otherwise.
    pub fn check_ready(&self) -> (ready: Result<(), EngineError>)
        ensures
            ready == ready_or_error(self.state()),
    {
        if self.is_ready() {
            Ok(())
        } else {
            Err(EngineError::ModelNotReady)
        }
    }
}

/// Once the model is ready it stays ready, and nobody is told to load it
/// again, whatever is asked or reported afterwards.
pub proof fn lemma_loaded_once(state: ModelState, loaded: bool)
    requires
        state is Ready,
    ensures
        init_action(state) == InitAction::Confirm,
        after_begin(state) is Ready,
        after_finish(state, loaded) is Ready,
{
}

/// While one caller loads, no other caller is told to load.
pub proof fn lemma_single_loader(state: ModelState)
    ensures
        init_action(after_begin(state)) != InitAction::Load,
{
}

} // verus!
