//! The per-character evaluator: it turns an interaction into a memory and
//! the memories into a current emotion.

use vstd::prelude::*;
use crate::blend::{blend_emotion, current_emotion, lemma_baseline_without_memories};
use crate::config::NpcConfig;
use crate::emotion::{
    check_text, text_admissible, EmotionPrediction, EmotionPredictorError, RawPrediction,
};
use crate::error::EngineError;
use crate::record::{appended, appended_all, lemma_appended_all, retained, MemoryRecord};
use crate::store::{MemoryStore, WriteOutcome};

verus! {

/// Whether a character has any history.
#[derive(Clone, Copy, Debug, PartialEq, Eq, Structural)]
pub enum EvaluatorState {
    /// No memory yet.
    Idle,
    /// At least one record.
    Active,
}

/// The record that an interaction leaves: the text and its source as given,
/// the predicted affect clamped into range, stamped with the time of the
/// interaction.
pub open spec fn interaction_record(
    text: String,
    source_id: Option<String>,
    raw: RawPrediction,
    now: u64,
) -> MemoryRecord {
    MemoryRecord { source_id, text, emotion: EmotionPrediction::clamped(raw), timestamp: now }
}

/// Whether an interaction is recorded, and if not, why: a text that cannot
/// be predicted on and a failed inference are prediction failures, a model
/// that was not loaded is reported as such, and a record that could not be
/// written is a persistence failure.
pub open spec fn interaction_outcome(
    text: Seq<char>,
    prediction: Result<RawPrediction, EmotionPredictorError>,
    ack: WriteOutcome,
) -> Result<(), EngineError> {
    if !text_admissible(text) {
        Err(EngineError::PredictionFailed)
    } else {
        match prediction {
            Err(EmotionPredictorError::NotInitialized) => Err(EngineError::ModelNotReady),
            Err(EmotionPredictorError::InferenceFailed) => Err(EngineError::PredictionFailed),
            Ok(_) => if ack is Failed {
                Err(EngineError::PersistenceFailed)
            } else {
                Ok(())
            },
        }
    }
}

/// One attempt at an interaction: what was said, by whom and when, what
/// the predictor made of it, and whether the resulting log was written.
pub struct Attempt {
    pub text: String,
    pub source_id: Option<String>,
    pub prediction: Result<RawPrediction, EmotionPredictorError>,
    pub now: u64,
    pub ack: WriteOutcome,
}

impl Attempt {
    /// Whether the attempt is recorded.
    pub open spec fn succeeds(self) -> bool {
        interaction_outcome(self.text@, self.prediction, self.ack) is Ok
    }

    /// The record that the attempt leaves if it succeeds.
    pub open spec fn record(self) -> MemoryRecord {
        interaction_record(self.text, self.source_id, self.prediction->Ok_0, self.now)
    }
}

/// The number of attempts that succeed.
pub open spec fn successes(attempts: Seq<Attempt>) -> nat
    decreases attempts.len(),
{
    if attempts.len() == 0 {
        0
    } else {
        successes(attempts.drop_last()) + if attempts.last().succeeds() {
            1nat
        } else {
            0nat
        }
    }
}

/// The records of the attempts that succeed, in the order of the attempts.
pub open spec fn recorded(attempts: Seq<Attempt>) -> Seq<MemoryRecord>
    decreases attempts.len(),
{
    if attempts.len() == 0 {
        Seq::empty()
    } else if attempts.last().succeeds() {
        recorded(attempts.drop_last()).push(attempts.last().record())
    } else {
        recorded(attempts.drop_last())
    }
}

/// The aggregation engine of one character.
#[derive(Debug)]
pub struct MemoryEmotionEvaluator {
    npc_id: String,
    config: NpcConfig,
}

impl Clone for MemoryEmotionEvaluator {
    fn clone(&self) -> (copy: Self)
        ensures
            copy == *self,
    {
        MemoryEmotionEvaluator { npc_id: self.npc_id.clone(), config: self.config.clone() }
    }
}

impl MemoryEmotionEvaluator {
    /// The identifier of the character.
    pub closed spec fn id(&self) -> Seq<char> {
        self.npc_id@
    }

    /// The configuration of the character.
    pub closed spec fn settings(&self) -> NpcConfig {
        self.config
    }

    /// The configuration is valid.
    pub open spec fn wf(&self) -> bool {
        self.settings().is_valid()
    }

    /// The emotion of the character at the time `now`, given its log.
    pub open spec fn emotion_over(
        &self,
        log: Seq<MemoryRecord>,
        source: Option<Seq<char>>,
        now: u64,
    ) -> EmotionPrediction {
        current_emotion(
            self.settings().personality,
            log,
            source,
            now,
            self.settings().memory_config.decay_half_life,
        )
    }

    /// The log of the character after an interaction was recorded.
    pub open spec fn log_after(
        &self,
        log: Seq<MemoryRecord>,
        text: String,
        source_id: Option<String>,
        raw: RawPrediction,
        now: u64,
    ) -> Seq<MemoryRecord> {
        appended(
            log,
            interaction_record(text, source_id, raw, now),
            self.settings().memory_config.max_records as nat,
        )
    }

    /// The log of the character after one attempt at an interaction: a
    /// failed attempt leaves it as it was.
    pub open spec fn log_after_attempt(&self, log: Seq<MemoryRecord>, attempt: Attempt) -> Seq<
        MemoryRecord,
    > {
        if attempt.succeeds() {
            self.log_after(log, attempt.text, attempt.source_id, attempt.prediction->Ok_0, attempt.now)
        } else {
            log
        }
    }

    /// The log of the character after a series of attempts.
    pub open spec fn log_after_attempts(&self, log: Seq<MemoryRecord>, attempts: Seq<Attempt>) -> Seq<
        MemoryRecord,
    >
        decreases attempts.len(),
    {
        if attempts.len() == 0 {
            log
        } else {
            self.log_after_attempt(
                self.log_after_attempts(log, attempts.drop_last()),
                attempts.last(),
            )
        }
    }

    /// An evaluator for the character `npc_id`. Fails with
    /// [`EngineError::ConfigInvalid`] exactly if the configuration is not
    /// valid. No memory is read or created.
    pub fn new_with_id(config: NpcConfig, npc_id: String) -> (made: Result<Self, EngineError>)
        ensures
            match made {
                Ok(evaluator) => {
                    &&& config.is_valid()
                    &&& evaluator.wf()
                    &&& evaluator.id() == npc_id@
                    &&& evaluator.settings() == config
                },
                Err(e) => !config.is_valid() && e == EngineError::ConfigInvalid,
            },
    {
        match config.validate() {
            Ok(_) => Ok(MemoryEmotionEvaluator { npc_id, config }),
            Err(e) => Err(e),
        }
    }

    /// The identifier of the character.
    pub fn npc_id(&self) -> (id: &String)
        ensures
            id@ == self.id(),
    {
        &self.npc_id
    }

    /// The configuration of the character.
    pub fn config(&self) -> (config: &NpcConfig)
        ensures
            *config == self.settings(),
    {
        &self.config
    }

    /// Whether the character has history in the store.
    pub fn state(&self, store: &MemoryStore) -> (state: EvaluatorState)
        requires
            store.wf(),
        ensures
            state == if store.log(self.id()).len() == 0 {
                EvaluatorState::Idle
            } else {
                EvaluatorState::Active
            },
    {
        if store.count(&self.npc_id) == 0 {
            EvaluatorState::Idle
        } else {
            EvaluatorState::Active
        }
    }

    /// The current emotion: the personality baseline blended with all
    /// records of the character, clamped. Without history it is the
    /// baseline exactly.
    pub fn calculate_current_emotion(&self, store: &MemoryStore, now: u64) -> (e: EmotionPrediction)
        requires
            self.wf(),
            store.wf(),
        ensures
            e == self.emotion_over(store.log(self.id()), None, now),
            e.is_valid(),
            store.log(self.id()).len() == 0 ==> e == self.settings().personality.baseline(),
    {
        let log = store.all(&self.npc_id);
        proof {
            if log@.len() == 0 {
                lemma_baseline_without_memories(
                    self.config.personality,
                    log@,
                    None,
                    now,
                    self.config.memory_config.decay_half_life,
                );
            }
        }
        blend_emotion(
            &self.config.personality,
            &log,
            None,
            now,
            self.config.memory_config.decay_half_life,
        )
    }

    /// The current emotion towards one source: the same blend over the
    /// records that came from that source. Where there is none, it is the
    /// personality baseline exactly, whatever other sources left.
    pub fn calculate_current_emotion_towards_source(
        &self,
        store: &MemoryStore,
        source_id: &String,
        now: u64,
    ) -> (e: EmotionPrediction)
        requires
            self.wf(),
            store.wf(),
        ensures
            e == self.emotion_over(store.log(self.id()), Some(source_id@), now),
            e.is_valid(),
            (forall|i: int|
                0 <= i < store.log(self.id()).len() ==> !(#[trigger] store.log(
                    self.id(),
                )[i]).from_source(source_id@)) ==> e == self.settings().personality.baseline(),
    {
        let log = store.all(&self.npc_id);
        proof {
            if forall|i: int| 0 <= i < log@.len() ==> !(#[trigger] log@[i]).from_source(source_id@) {
                lemma_baseline_without_memories(
                    self.config.personality,
                    log@,
                    Some(source_id@),
                    now,
                    self.config.memory_config.decay_half_life,
                );
            }
        }
        blend_emotion(
            &self.config.personality,
            &log,
            Some(source_id),
            now,
            self.config.memory_config.decay_half_life,
        )
    }

    /// The log that [`MemoryEmotionEvaluator::evaluate_interaction`] would
    /// leave: what a caller has to write before it can report the write as
    /// durable. Fails as the interaction itself would fail before writing.
    pub fn stage_interaction(
        &self,
        store: &MemoryStore,
        text: &String,
        source_id: &Option<String>,
        prediction: Result<RawPrediction, EmotionPredictorError>,
        now: u64,
    ) -> (staged: Result<Vec<MemoryRecord>, EngineError>)
        requires
            self.wf(),
            store.wf(),
        ensures
            match staged {
                Ok(log) => {
                    &&& interaction_outcome(text@, prediction, WriteOutcome::Durable) is Ok
                    &&& log@ == self.log_after(
                        store.log(self.id()),
                        *text,
                        *source_id,
                        prediction->Ok_0,
                        now,
                    )
                },
                Err(e) => interaction_outcome(text@, prediction, WriteOutcome::Durable) == Err::<
                    (),
                    EngineError,
                >(e),
            },
    {
        if !check_text(text) {
            return Err(EngineError::PredictionFailed);
        }
        let raw = match prediction {
            Ok(raw) => raw,
            Err(EmotionPredictorError::NotInitialized) => {
                return Err(EngineError::ModelNotReady);
            },
            Err(EmotionPredictorError::InferenceFailed) => {
                return Err(EngineError::PredictionFailed);
            },
        };
        let source = match source_id {
            Some(s) => Some(s.clone()),
            None => None,
        };
        let record = MemoryRecord {
            source_id: source,
            text: text.clone(),
            emotion: EmotionPrediction::from_raw(raw),
            timestamp: now,
        };
        store.stage_append(&self.npc_id, &record, self.config.memory_config.max_records)
    }

    /// Records an interaction and returns the emotion that the character
    /// has after it: not the predicted affect of the text, but its effect.
    ///
    /// `prediction` is what the predictor returned for `text`, `now` is the
    /// time of the interaction, and `ack` says whether the log given by
    /// [`MemoryEmotionEvaluator::stage_interaction`] was written. The
    /// interaction either takes place in full, or fails and leaves the
    /// store as it was.
    pub fn evaluate_interaction(
        &self,
        store: &mut MemoryStore,
        text: String,
        source_id: Option<String>,
        prediction: Result<RawPrediction, EmotionPredictorError>,
        now: u64,
        ack: WriteOutcome,
    ) -> (felt: Result<EmotionPrediction, EngineError>)
        requires
            self.wf(),
            old(store).wf(),
        ensures
            final(store).wf(),
            match felt {
                Ok(e) => {
                    &&& interaction_outcome(text@, prediction, ack) is Ok
                    &&& final(store)@ == old(store)@.insert(
                        self.id(),
                        self.log_after(
                            old(store).log(self.id()),
                            text,
                            source_id,
                            prediction->Ok_0,
                            now,
                        ),
                    )
                    &&& e == self.emotion_over(final(store).log(self.id()), None, now)
                    &&& e.is_valid()
                },
                Err(e) => {
                    &&& interaction_outcome(text@, prediction, ack) == Err::<(), EngineError>(e)
                    &&& final(store)@ == old(store)@
                },
            },
            final(store).log(self.id()) == self.log_after_attempt(
                old(store).log(self.id()),
                (Attempt { text, source_id, prediction, now, ack }),
            ),
    {
        if !check_text(&text) {
            return Err(EngineError::PredictionFailed);
        }
        let raw = match prediction {
            Ok(raw) => raw,
            Err(EmotionPredictorError::NotInitialized) => {
                return Err(EngineError::ModelNotReady);
            },
            Err(EmotionPredictorError::InferenceFailed) => {
                return Err(EngineError::PredictionFailed);
            },
        };
        let record = MemoryRecord {
            source_id,
            text,
            emotion: EmotionPrediction::from_raw(raw),
            timestamp: now,
        };
        match store.append(&self.npc_id, record, self.config.memory_config.max_records, ack) {
            Ok(_) => Ok(self.calculate_current_emotion(store, now)),
            Err(e) => Err(e),
        }
    }
}

/// A series of attempts leaves the log that adding the records of the
/// successful ones, one by one, leaves; failed attempts leave no trace.
pub proof fn lemma_attempts_recorded(
    evaluator: MemoryEmotionEvaluator,
    log: Seq<MemoryRecord>,
    attempts: Seq<Attempt>,
)
    ensures
        recorded(attempts).len() == successes(attempts),
        evaluator.log_after_attempts(log, attempts) == appended_all(
            log,
            recorded(attempts),
            evaluator.settings().memory_config.max_records as nat,
        ),
    decreases attempts.len(),
{
    if attempts.len() > 0 {
        lemma_attempts_recorded(evaluator, log, attempts.drop_last());
        if attempts.last().succeeds() {
            let records = recorded(attempts);
            assert(records.drop_last() =~= recorded(attempts.drop_last()));
        }
    }
}

/// Where every attempt succeeds, every attempt has its record: none is
/// lost, none is recorded twice, and the records stand in the order of the
/// attempts.
pub proof fn lemma_every_success_recorded_once(attempts: Seq<Attempt>)
    requires
        forall|i: int| 0 <= i < attempts.len() ==> (#[trigger] attempts[i]).succeeds(),
    ensures
        recorded(attempts).len() == attempts.len(),
        forall|i: int| 0 <= i < attempts.len() ==> recorded(attempts)[i] == attempts[i].record(),
    decreases attempts.len(),
{
    if attempts.len() > 0 {
        let front = attempts.drop_last();
        assert forall|i: int| 0 <= i < front.len() implies (#[trigger] front[i]).succeeds() by {
            assert(front[i] == attempts[i]);
        }
        lemma_every_success_recorded_once(front);
        assert(attempts[attempts.len() - 1].succeeds());
        assert forall|i: int| 0 <= i < attempts.len() implies recorded(attempts)[i]
            == attempts[i].record() by {
            if i < front.len() {
                assert(front[i] == attempts[i]);
            }
        }
    }
}

/// Starting without memory, the number of records kept is the number of
/// successful interactions, capped at `max_records`; beyond the cap the
/// oldest records are the ones that left.
pub proof fn lemma_record_count(evaluator: MemoryEmotionEvaluator, attempts: Seq<Attempt>)
    ensures
        evaluator.log_after_attempts(Seq::empty(), attempts) == retained(
            recorded(attempts),
            evaluator.settings().memory_config.max_records as nat,
        ),
        evaluator.log_after_attempts(Seq::empty(), attempts).len() == if successes(attempts)
            <= evaluator.settings().memory_config.max_records {
            successes(attempts)
        } else {
            evaluator.settings().memory_config.max_records as nat
        },
{
    let cap = evaluator.settings().memory_config.max_records as nat;
    lemma_attempts_recorded(evaluator, Seq::empty(), attempts);
    lemma_appended_all(Seq::empty(), recorded(attempts), cap);
    assert(Seq::<MemoryRecord>::empty() + recorded(attempts) =~= recorded(attempts));
}

} // verus!
