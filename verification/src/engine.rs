//! The engine: the model cache, the memory store and the session registry
//! as one owned context, and the operations that the outside world calls.
//!
//! Every operation that changes stored memory takes a
//! [`WriteOutcome`]: the caller writes first and reports how that went.

use vstd::prelude::*;
use crate::config::NpcConfig;
use crate::emotion::{EmotionPrediction, EmotionPredictorError, RawPrediction};
use crate::error::EngineError;
use crate::evaluator::{interaction_outcome, MemoryEmotionEvaluator};
use crate::ident::{random_uuid_text, UUID_TEXT_LEN};
use crate::model::ModelCache;
use crate::record::{records_valid, validate_records, MemoryRecord};
use crate::registry::SessionRegistry;
use crate::store::{cleared, MemoryStore, WriteOutcome};

verus! {

/// Whether a session can be created, and if not, why: an invalid seed
/// record or configuration refuses the creation, an identifier can be live
/// only once, and seed memory has to be written before the session starts.
pub open spec fn create_outcome(
    live: bool,
    config: NpcConfig,
    memory: Option<Vec<MemoryRecord>>,
    ack: WriteOutcome,
) -> Result<(), EngineError> {
    if (memory is Some && !records_valid(memory->0@)) || !config.is_valid() {
        Err(EngineError::ConfigInvalid)
    } else if live {
        Err(EngineError::AlreadyExists)
    } else if memory is Some && ack is Failed {
        Err(EngineError::PersistenceFailed)
    } else {
        Ok(())
    }
}

/// Whether an interaction with a character is recorded, and if not, why. An
/// unknown character comes first, an unloaded model second; the rest is
/// [`interaction_outcome`].
pub open spec fn evaluate_outcome(
    live: bool,
    ready: bool,
    text: Seq<char>,
    prediction: Result<RawPrediction, EmotionPredictorError>,
    ack: WriteOutcome,
) -> Result<(), EngineError> {
    if !live {
        Err(EngineError::NotFound)
    } else if !ready {
        Err(EngineError::ModelNotReady)
    } else {
        interaction_outcome(text, prediction, ack)
    }
}

/// The shared state of the engine.
pub struct Engine {
    /// Whether the inference model is loaded.
    pub model: ModelCache,
    /// The memory of all characters.
    pub store: MemoryStore,
    /// The live sessions.
    pub sessions: SessionRegistry,
}

impl Engine {
    /// Store and registry are well formed, and every evaluator is
    /// registered under its own identifier.
    pub open spec fn wf(&self) -> bool {
        &&& self.store.wf()
        &&& self.sessions.wf()
        &&& forall|i: int|
            0 <= i < self.sessions.ids().len() ==> (#[trigger] self.sessions.evaluators()[i]).id()
                == self.sessions.ids()[i]
    }

    /// Whether a session is live under the identifier.
    pub open spec fn live(&self, npc_id: Seq<char>) -> bool {
        self.sessions@.contains_key(npc_id)
    }

    /// An identifier is accepted for a new character unless it is that of
    /// a live session or of a stored memory unit.
    pub open spec fn vetted(&self, id: String) -> Result<String, EngineError> {
        if self.live(id@) || self.store@.contains_key(id@) {
            Err(EngineError::AlreadyExists)
        } else {
            Ok(id)
        }
    }

    /// An engine without model, memory or sessions.
    pub fn new() -> (engine: Self)
        ensures
            engine.wf(),
            engine.model.state() == crate::model::ModelState::Unloaded,
            engine.store@ == Map::<Seq<char>, Seq<MemoryRecord>>::empty(),
            engine.sessions@ == Map::<Seq<char>, MemoryEmotionEvaluator>::empty(),
    {
        Engine { model: ModelCache::new(), store: MemoryStore::new(), sessions: SessionRegistry::new() }
    }

    /// An engine over memory that was loaded from the durable medium. No
    /// session is live: evaluators are created when they are next asked
    /// for.
    pub fn with_store(store: MemoryStore) -> (engine: Self)
        requires
            store.wf(),
        ensures
            engine.wf(),
            engine.model.state() == crate::model::ModelState::Unloaded,
            engine.store == store,
            engine.sessions@ == Map::<Seq<char>, MemoryEmotionEvaluator>::empty(),
    {
        Engine { model: ModelCache::new(), store, sessions: SessionRegistry::new() }
    }

    /// Draws a random identifier for a new character, a UUID in its
    /// hyphenated form, and vets it with [`Engine::vet_npc_id`]: it fails
    /// with [`EngineError::AlreadyExists`] if the identifier drawn is that
    /// of a live session or of a stored memory unit.
    pub fn allocate_npc_id(&self) -> (drawn: Result<String, EngineError>)
        requires
            self.wf(),
        ensures
            exists|id: String| id@.len() == UUID_TEXT_LEN && drawn == #[trigger] self.vetted(id),
            match drawn {
                Ok(id) => {
                    &&& id@.len() == UUID_TEXT_LEN
                    &&& !self.live(id@)
                    &&& !self.store@.contains_key(id@)
                },
                Err(e) => e == EngineError::AlreadyExists,
            },
    {
        let id = random_uuid_text();
        self.vet_npc_id(id)
    }

    /// Accepts an identifier for a new character unless it is that of a
    /// live session or of a stored memory unit.
    pub fn vet_npc_id(&self, id: String) -> (vetted: Result<String, EngineError>)
        requires
            self.wf(),
        ensures
            vetted == self.vetted(id),
    {
        if self.sessions.contains(&id) || self.store.has_unit(&id) {
            Err(EngineError::AlreadyExists)
        } else {
            Ok(id)
        }
    }

    /// Says whether [`Engine::create_npc_session`] would go through if the
    /// write succeeded: what a caller checks before it writes seed memory.
    pub fn check_create(
        &self,
        npc_id: &String,
        config: &NpcConfig,
        memory: &Option<Vec<MemoryRecord>>,
    ) -> (checked: Result<(), EngineError>)
        requires
            self.wf(),
        ensures
            checked == create_outcome(self.live(npc_id@), *config, *memory, WriteOutcome::Durable),
    {
        match memory {
            Some(records) => {
                if validate_records(records).is_err() {
                    return Err(EngineError::ConfigInvalid);
                }
            },
            None => {},
        }
        if config.validate().is_err() {
            return Err(EngineError::ConfigInvalid);
        }
        if self.sessions.contains(npc_id) {
            return Err(EngineError::AlreadyExists);
        }
        Ok(())
    }

    /// Creates a session for a character, seeded with `memory` if any is
    /// given. Either the seed memory replaces the character's log and the
    /// session is live afterwards, or the creation fails and nothing
    /// changes. Without seed memory the store is not touched, and `ack` is
    /// not looked at.
    pub fn create_npc_session(
        &mut self,
        npc_id: String,
        config: NpcConfig,
        memory: Option<Vec<MemoryRecord>>,
        ack: WriteOutcome,
    ) -> (done: Result<(), EngineError>)
        requires
            old(self).wf(),
        ensures
            final(self).wf(),
            final(self).model == old(self).model,
            done == create_outcome(old(self).live(npc_id@), config, memory, ack),
            done is Ok ==> {
                &&& final(self).live(npc_id@)
                &&& final(self).sessions@[npc_id@].id() == npc_id@
                &&& final(self).sessions@[npc_id@].settings() == config
                &&& final(self).sessions@ == old(self).sessions@.insert(
                    npc_id@,
                    final(self).sessions@[npc_id@],
                )
                &&& final(self).store@ == match memory {
                    Some(records) => old(self).store@.insert(npc_id@, records@),
                    None => old(self).store@,
                }
            },
            done is Err ==> {
                &&& final(self).store@ == old(self).store@
                &&& final(self).sessions@ == old(self).sessions@
            },
    {
        match self.check_create(&npc_id, &config, &memory) {
            Err(e) => {
                return Err(e);
            },
            Ok(_) => {},
        }
        let evaluator = match MemoryEmotionEvaluator::new_with_id(config, npc_id.clone()) {
            Ok(evaluator) => evaluator,
            Err(e) => {
                return Err(e);
            },
        };
        match memory {
            Some(records) => {
                match self.store.import(&npc_id, records, ack) {
                    Err(e) => {
                        return Err(e);
                    },
                    Ok(_) => {},
                }
            },
            None => {},
        }
        let ghost key = npc_id@;
        let registered = self.sessions.create(npc_id, evaluator);
        proof {
            crate::table::lemma_position_unique(
                self.sessions.ids(),
                self.sessions.ids().len() - 1,
            );
            assert(self.sessions@[key] == evaluator);
        }
        Ok(())
    }

    /// Deletes a character for good: first its memory unit, and after that
    /// its session. A removal that was not durable changes nothing. A
    /// character without a live session loses its memory unit all the same
    /// and is reported as [`EngineError::NotFound`].
    pub fn remove_npc(&mut self, npc_id: &String, ack: WriteOutcome) -> (done: Result<
        (),
        EngineError,
    >)
        requires
            old(self).wf(),
        ensures
            final(self).wf(),
            final(self).model == old(self).model,
            done == if ack is Failed {
                Err::<(), EngineError>(EngineError::PersistenceFailed)
            } else if !old(self).live(npc_id@) {
                Err::<(), EngineError>(EngineError::NotFound)
            } else {
                Ok::<(), EngineError>(())
            },
            final(self).store@ == if ack is Failed {
                old(self).store@
            } else {
                old(self).store@.remove(npc_id@)
            },
            final(self).sessions@ == if ack is Failed {
                old(self).sessions@
            } else {
                old(self).sessions@.remove(npc_id@)
            },
            !(ack is Failed) ==> !final(self).live(npc_id@) && final(self).store.log(npc_id@).len()
                == 0,
    {
        match self.store.remove_npc(npc_id, ack) {
            Err(e) => {
                return Err(e);
            },
            Ok(_) => {},
        }
        let ghost before = self.sessions;
        match self.sessions.remove(npc_id) {
            Ok(_) => {
                proof {
                    lemma_ids_after_removal(before, self.sessions, npc_id@);
                }
                Ok(())
            },
            Err(e) => {
                assert(self.sessions@ =~= old(self).sessions@.remove(npc_id@));
                Err(e)
            },
        }
    }

    /// Ends the session of a character and keeps its memory.
    pub fn remove_npc_session(&mut self, npc_id: &String) -> (done: Result<(), EngineError>)
        requires
            old(self).wf(),
        ensures
            final(self).wf(),
            final(self).model == old(self).model,
            final(self).store == old(self).store,
            done == if old(self).live(npc_id@) {
                Ok::<(), EngineError>(())
            } else {
                Err::<(), EngineError>(EngineError::NotFound)
            },
            final(self).sessions@ == old(self).sessions@.remove(npc_id@),
    {
        let ghost before = self.sessions;
        match self.sessions.remove(npc_id) {
            Ok(_) => {
                proof {
                    lemma_ids_after_removal(before, self.sessions, npc_id@);
                }
                Ok(())
            },
            Err(e) => {
                assert(self.sessions@ =~= old(self).sessions@.remove(npc_id@));
                Err(e)
            },
        }
    }
}

impl Engine {
    /// The emotion of a live character over its stored log.
    pub open spec fn emotion_of(&self, npc_id: Seq<char>, source: Option<Seq<char>>, now: u64) -> EmotionPrediction {
        self.sessions@[npc_id].emotion_over(self.store.log(npc_id), source, now)
    }

    /// The log that [`Engine::evaluate_interaction`] would leave for the
    /// character: what a caller has to write before it can report the
    /// write as durable. Fails as the interaction itself would fail before
    /// writing.
    pub fn stage_interaction(
        &self,
        npc_id: &String,
        text: &String,
        source_id: &Option<String>,
        prediction: Result<RawPrediction, EmotionPredictorError>,
        now: u64,
    ) -> (staged: Result<Vec<MemoryRecord>, EngineError>)
        requires
            self.wf(),
        ensures
            match staged {
                Ok(log) => {
                    &&& evaluate_outcome(
                        self.live(npc_id@),
                        self.model.state() is Ready,
                        text@,
                        prediction,
                        WriteOutcome::Durable,
                    ) is Ok
                    &&& log@ == self.sessions@[npc_id@].log_after(
                        self.store.log(npc_id@),
                        *text,
                        *source_id,
                        prediction->Ok_0,
                        now,
                    )
                },
                Err(e) => evaluate_outcome(
                    self.live(npc_id@),
                    self.model.state() is Ready,
                    text@,
                    prediction,
                    WriteOutcome::Durable,
                ) == Err::<(), EngineError>(e),
            },
    {
        let evaluator = match self.sessions.evaluator(npc_id) {
            Ok(evaluator) => evaluator,
            Err(e) => {
                return Err(e);
            },
        };
        if !self.model.is_ready() {
            return Err(EngineError::ModelNotReady);
        }
        proof {
            self.lemma_registered_under_own_id(npc_id@);
        }
        evaluator.stage_interaction(&self.store, text, source_id, prediction, now)
    }

    /// Records an interaction with a character and returns the emotion
    /// that the character has after it. Fails with
    /// [`EngineError::NotFound`] for a character without a live session and
    /// with [`EngineError::ModelNotReady`] while the model is not loaded;
    /// otherwise as
    /// [`MemoryEmotionEvaluator::evaluate_interaction`] does. A failed
    /// interaction changes nothing.
    pub fn evaluate_interaction(
        &mut self,
        npc_id: &String,
        text: String,
        source_id: Option<String>,
        prediction: Result<RawPrediction, EmotionPredictorError>,
        now: u64,
        ack: WriteOutcome,
    ) -> (felt: Result<EmotionPrediction, EngineError>)
        requires
            old(self).wf(),
        ensures
            final(self).wf(),
            final(self).model == old(self).model,
            final(self).sessions == old(self).sessions,
            match felt {
                Ok(e) => {
                    &&& evaluate_outcome(
                        old(self).live(npc_id@),
                        old(self).model.state() is Ready,
                        text@,
                        prediction,
                        ack,
                    ) is Ok
                    &&& final(self).store@ == old(self).store@.insert(
                        npc_id@,
                        old(self).sessions@[npc_id@].log_after(
                            old(self).store.log(npc_id@),
                            text,
                            source_id,
                            prediction->Ok_0,
                            now,
                        ),
                    )
                    &&& e == final(self).emotion_of(npc_id@, None, now)
                    &&& e.is_valid()
                },
                Err(e) => {
                    &&& evaluate_outcome(
                        old(self).live(npc_id@),
                        old(self).model.state() is Ready,
                        text@,
                        prediction,
                        ack,
                    ) == Err::<(), EngineError>(e)
                    &&& final(self).store@ == old(self).store@
                },
            },
    {
        let evaluator = match self.sessions.evaluator(npc_id) {
            Ok(evaluator) => evaluator,
            Err(e) => {
                return Err(e);
            },
        };
        if !self.model.is_ready() {
            return Err(EngineError::ModelNotReady);
        }
        proof {
            self.lemma_registered_under_own_id(npc_id@);
        }
        evaluator.evaluate_interaction(&mut self.store, text, source_id, prediction, now, ack)
    }

    /// The current emotion of a live character, or
    /// [`EngineError::NotFound`].
    pub fn current_emotion(&self, npc_id: &String, now: u64) -> (felt: Result<
        EmotionPrediction,
        EngineError,
    >)
        requires
            self.wf(),
        ensures
            match felt {
                Ok(e) => {
                    &&& self.live(npc_id@)
                    &&& e == self.emotion_of(npc_id@, None, now)
                    &&& e.is_valid()
                    &&& self.store.log(npc_id@).len() == 0 ==> e
                        == self.sessions@[npc_id@].settings().personality.baseline()
                },
                Err(e) => e == EngineError::NotFound && !self.live(npc_id@),
            },
    {
        match self.sessions.evaluator(npc_id) {
            Ok(evaluator) => {
                proof {
                    self.lemma_registered_under_own_id(npc_id@);
                }
                Ok(evaluator.calculate_current_emotion(&self.store, now))
            },
            Err(e) => Err(e),
        }
    }

    /// The current emotion of a live character towards one source, or
    /// [`EngineError::NotFound`] for a character without a live session. A
    /// source that the character has no memory of is no error: the emotion
    /// towards it is the personality baseline.
    pub fn emotion_towards_source(&self, npc_id: &String, source_id: &String, now: u64) -> (felt:
        Result<EmotionPrediction, EngineError>)
        requires
            self.wf(),
        ensures
            match felt {
                Ok(e) => {
                    &&& self.live(npc_id@)
                    &&& e == self.emotion_of(npc_id@, Some(source_id@), now)
                    &&& e.is_valid()
                },
                Err(e) => e == EngineError::NotFound && !self.live(npc_id@),
            },
    {
        match self.sessions.evaluator(npc_id) {
            Ok(evaluator) => {
                proof {
                    self.lemma_registered_under_own_id(npc_id@);
                }
                Ok(evaluator.calculate_current_emotion_towards_source(&self.store, source_id, now))
            },
            Err(e) => Err(e),
        }
    }

    /// The records of a live character in insertion order, or
    /// [`EngineError::NotFound`].
    pub fn get_all_memory(&self, npc_id: &String) -> (records: Result<Vec<MemoryRecord>, EngineError>)
        requires
            self.wf(),
        ensures
            match records {
                Ok(log) => self.live(npc_id@) && log@ == self.store.log(npc_id@),
                Err(e) => e == EngineError::NotFound && !self.live(npc_id@),
            },
    {
        if self.sessions.contains(npc_id) {
            Ok(self.store.all(npc_id))
        } else {
            Err(EngineError::NotFound)
        }
    }

    /// Deletes all records of a live character. Fails with
    /// [`EngineError::NotFound`] for a character without a live session and
    /// with [`EngineError::PersistenceFailed`] if the write was not
    /// durable; a failure changes nothing.
    pub fn clear_memory(&mut self, npc_id: &String, ack: WriteOutcome) -> (done: Result<
        (),
        EngineError,
    >)
        requires
            old(self).wf(),
        ensures
            final(self).wf(),
            final(self).model == old(self).model,
            final(self).sessions == old(self).sessions,
            done == if !old(self).live(npc_id@) {
                Err::<(), EngineError>(EngineError::NotFound)
            } else if ack is Failed {
                Err::<(), EngineError>(EngineError::PersistenceFailed)
            } else {
                Ok::<(), EngineError>(())
            },
            done is Ok ==> final(self).store@ == cleared(old(self).store@, npc_id@)
                && final(self).store.log(npc_id@).len() == 0,
            done is Err ==> final(self).store@ == old(self).store@,
    {
        if !self.sessions.contains(npc_id) {
            return Err(EngineError::NotFound);
        }
        self.store.clear(npc_id, ack)
    }

    /// The live sessions in the order of their creation.
    pub fn list_sessions(&self) -> (sessions: Vec<(String, MemoryEmotionEvaluator)>)
        requires
            self.wf(),
        ensures
            sessions@.len() == self.sessions.ids().len(),
            forall|i: int|
                0 <= i < sessions@.len() ==> (#[trigger] sessions@[i]).0@ == self.sessions.ids()[i]
                    && sessions@[i].1 == self.sessions.evaluators()[i],
    {
        self.sessions.list()
    }

    /// The evaluator found under an identifier is the one of that
    /// character.
    proof fn lemma_registered_under_own_id(&self, npc_id: Seq<char>)
        requires
            self.wf(),
            self.live(npc_id),
        ensures
            self.sessions@[npc_id].id() == npc_id,
            self.sessions@[npc_id].wf(),
    {
        let i = self.sessions.ids().index_of(npc_id);
        assert(self.sessions.ids()[i] == npc_id);
        assert(self.sessions@[npc_id] == self.sessions.evaluators()[i]);
    }
}

/// Removing one session leaves every other evaluator under its own
/// identifier.
proof fn lemma_ids_after_removal(before: SessionRegistry, after: SessionRegistry, npc_id: Seq<char>)
    requires
        before.wf(),
        after.wf(),
        before@.contains_key(npc_id),
        after@ == before@.remove(npc_id),
        forall|i: int|
            0 <= i < before.ids().len() ==> (#[trigger] before.evaluators()[i]).id()
                == before.ids()[i],
    ensures
        forall|i: int|
            0 <= i < after.ids().len() ==> (#[trigger] after.evaluators()[i]).id() == after.ids()[i],
{
    assert forall|i: int| 0 <= i < after.ids().len() implies (#[trigger] after.evaluators()[i]).id()
        == after.ids()[i] by {
        let key = after.ids()[i];
        crate::table::lemma_position_unique(after.ids(), i);
        assert(after@.contains_key(key));
        assert(before@.contains_key(key));
        let j = before.ids().index_of(key);
        assert(before.ids()[j] == key);
        assert(before@[key] == before.evaluators()[j]);
        assert(after@[key] == after.evaluators()[i]);
    }
}

} // verus!
