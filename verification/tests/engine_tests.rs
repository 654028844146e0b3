use npc_neural_affect_matrix::model::{InitAction, ModelState};
use npc_neural_affect_matrix::table::Table;
use npc_neural_affect_matrix::{
    EmotionPrediction, EmotionPredictorError, Engine, EngineError, Identity, MemoryConfig,
    MemoryEmotionEvaluator, MemoryRecord, MemoryStore, ModelCache, NpcConfig, PersonalityTraits,
    RawPrediction, SessionRegistry, WriteOutcome,
};

const HOUR: u64 = 3600;

fn config(name: &str, valence: i32, arousal: i32) -> NpcConfig {
    NpcConfig {
        identity: Identity { name: name.to_string(), background: "a test character".to_string() },
        personality: PersonalityTraits { valence, arousal },
        memory_config: MemoryConfig { max_records: 5, decay_half_life: HOUR },
    }
}

fn evaluator(id: &str, name: &str) -> MemoryEmotionEvaluator {
    MemoryEmotionEvaluator::new_with_id(config(name, 0, 0), id.to_string()).unwrap()
}

fn rec(text: &str, valence: i32, timestamp: u64) -> MemoryRecord {
    MemoryRecord {
        source_id: None,
        text: text.to_string(),
        emotion: EmotionPrediction { valence, arousal: 0 },
        timestamp,
    }
}

fn raw(valence: i64, arousal: i64) -> Result<RawPrediction, EmotionPredictorError> {
    Ok(RawPrediction { valence, arousal })
}

fn s(text: &str) -> String {
    text.to_string()
}

fn ready_engine() -> Engine {
    let mut engine = Engine::new();
    assert_eq!(engine.model.begin_initialize(), InitAction::Load);
    assert_eq!(engine.model.finish_initialize(true), Ok(()));
    engine
}

#[test]
fn table_keeps_insertion_order_and_finds_keys() {
    let mut t: Table<u32> = Table::new();
    assert_eq!(t.len(), 0);
    assert_eq!(t.find(&s("a")), None);
    t.insert_new(s("a"), 1);
    t.insert_new(s("b"), 2);
    t.insert_new(s("c"), 3);
    assert_eq!(t.len(), 3);
    assert_eq!(t.find(&s("b")), Some(1));
    assert_eq!(t.key_at(2), "c");
    assert_eq!(*t.value_at(2), 3);
    t.replace(1, 20);
    assert_eq!(*t.value_at(1), 20);
    assert_eq!(t.remove_at(0), 1);
    assert_eq!(t.len(), 2);
    assert_eq!(t.find(&s("a")), None);
    assert_eq!(t.find(&s("b")), Some(0));
    assert_eq!(t.find(&s("c")), Some(1));
    assert_eq!(*t.value_at(0), 20);
}

#[test]
fn model_cache_tells_exactly_one_caller_to_load() {
    let mut cache = ModelCache::new();
    assert_eq!(cache.current_state(), ModelState::Unloaded);
    assert!(!cache.is_ready());
    assert_eq!(cache.check_ready(), Err(EngineError::ModelNotReady));
    assert_eq!(cache.begin_initialize(), InitAction::Load);
    assert_eq!(cache.current_state(), ModelState::Loading);
    assert_eq!(cache.begin_initialize(), InitAction::Wait);
    assert_eq!(cache.begin_initialize(), InitAction::Wait);
    assert_eq!(cache.check_ready(), Err(EngineError::ModelNotReady));
    assert_eq!(cache.finish_initialize(true), Ok(()));
    assert!(cache.is_ready());
    assert_eq!(cache.check_ready(), Ok(()));
    for _ in 0..3 {
        assert_eq!(cache.begin_initialize(), InitAction::Confirm);
        assert_eq!(cache.current_state(), ModelState::Ready);
    }
}

#[test]
fn model_cache_says_when_the_predictor_may_run() {
    let mut cache = ModelCache::new();
    assert_eq!(cache.may_predict(&s("hello")), Err(EmotionPredictorError::NotInitialized));
    assert_eq!(cache.may_predict(&s("")), Err(EmotionPredictorError::NotInitialized));
    cache.begin_initialize();
    assert_eq!(cache.may_predict(&s("hello")), Err(EmotionPredictorError::NotInitialized));
    cache.finish_initialize(true).unwrap();
    assert_eq!(cache.may_predict(&s("hello")), Ok(()));
    assert_eq!(cache.may_predict(&s("")), Err(EmotionPredictorError::InferenceFailed));
    assert_eq!(cache.may_predict(&"x".repeat(4097)), Err(EmotionPredictorError::InferenceFailed));
    assert_eq!(cache.may_predict(&"x".repeat(4096)), Ok(()));
}

#[test]
fn model_cache_failed_load_can_be_retried() {
    let mut cache = ModelCache::new();
    assert_eq!(cache.begin_initialize(), InitAction::Load);
    assert_eq!(cache.finish_initialize(false), Err(EngineError::ModelNotReady));
    assert_eq!(cache.current_state(), ModelState::Unloaded);
    assert_eq!(cache.begin_initialize(), InitAction::Load);
    assert_eq!(cache.finish_initialize(true), Ok(()));
    assert_eq!(cache.current_state(), ModelState::Ready);
}

#[test]
fn model_cache_ignores_reports_without_a_load() {
    let mut cache = ModelCache::new();
    assert_eq!(cache.finish_initialize(true), Err(EngineError::ModelNotReady));
    assert_eq!(cache.current_state(), ModelState::Unloaded);
    cache.begin_initialize();
    cache.finish_initialize(true).unwrap();
    assert_eq!(cache.finish_initialize(false), Ok(()));
    assert_eq!(cache.current_state(), ModelState::Ready);
}

#[test]
fn registry_create_refuses_duplicates() {
    let mut registry = SessionRegistry::new();
    assert_eq!(registry.len(), 0);
    assert_eq!(registry.create(s("a"), evaluator("a", "first")), Ok(()));
    assert_eq!(registry.create(s("a"), evaluator("a", "second")), Err(EngineError::AlreadyExists));
    assert_eq!(registry.len(), 1);
    assert_eq!(registry.evaluator(&s("a")).unwrap().config().identity.name, "first");
}

#[test]
fn registry_lookup_of_unknown_id_is_not_found() {
    let mut registry = SessionRegistry::new();
    assert_eq!(registry.evaluator(&s("a")).err(), Some(EngineError::NotFound));
    assert!(!registry.contains(&s("a")));
    registry.create(s("a"), evaluator("a", "first")).unwrap();
    assert!(registry.contains(&s("a")));
    assert_eq!(registry.evaluator(&s("b")).err(), Some(EngineError::NotFound));
}

#[test]
fn registry_remove_evicts_the_evaluator() {
    let mut registry = SessionRegistry::new();
    registry.create(s("a"), evaluator("a", "first")).unwrap();
    registry.create(s("b"), evaluator("b", "second")).unwrap();
    let gone = registry.remove(&s("a")).unwrap();
    assert_eq!(gone.config().identity.name, "first");
    assert!(!registry.contains(&s("a")));
    assert!(registry.contains(&s("b")));
    assert_eq!(registry.remove(&s("a")).err(), Some(EngineError::NotFound));
    assert_eq!(registry.create(s("a"), evaluator("a", "third")), Ok(()));
}

#[test]
fn registry_list_is_in_creation_order() {
    let mut registry = SessionRegistry::new();
    for (id, name) in [("z", "Zed"), ("a", "Ada"), ("m", "Max")] {
        registry.create(s(id), evaluator(id, name)).unwrap();
    }
    registry.remove(&s("a")).unwrap();
    registry.create(s("a"), evaluator("a", "Ada again")).unwrap();
    let listed: Vec<(String, String)> = registry
        .list()
        .into_iter()
        .map(|(id, ev)| (id, ev.config().identity.name.clone()))
        .collect();
    assert_eq!(listed, vec![(s("z"), s("Zed")), (s("m"), s("Max")), (s("a"), s("Ada again"))]);
}

#[test]
fn engine_starts_empty() {
    let engine = Engine::new();
    assert!(!engine.model.is_ready());
    assert!(engine.list_sessions().is_empty());
    assert_eq!(engine.current_emotion(&s("npc"), 0), Err(EngineError::NotFound));
}

#[test]
fn allocate_npc_id_draws_a_fresh_hyphenated_uuid() {
    let engine = Engine::new();
    let a = engine.allocate_npc_id().unwrap();
    let b = engine.allocate_npc_id().unwrap();
    for id in [&a, &b] {
        assert_eq!(id.chars().count(), 36);
        for (i, c) in id.chars().enumerate() {
            if i == 8 || i == 13 || i == 18 || i == 23 {
                assert_eq!(c, '-');
            } else {
                assert!(c.is_ascii_hexdigit() && !c.is_ascii_uppercase());
            }
        }
        assert_eq!(id.chars().nth(14), Some('4'));
    }
    assert_ne!(a, b);
}

#[test]
fn vet_npc_id_refuses_identifiers_in_use() {
    let mut engine = Engine::new();
    assert_eq!(engine.vet_npc_id(s("free")), Ok(s("free")));
    engine.create_npc_session(s("live"), config("x", 0, 0), None, WriteOutcome::Durable).unwrap();
    assert_eq!(engine.vet_npc_id(s("live")), Err(EngineError::AlreadyExists));
    engine.store.append(&s("stored"), rec("x", 0, 0), 5, WriteOutcome::Durable).unwrap();
    assert_eq!(engine.vet_npc_id(s("stored")), Err(EngineError::AlreadyExists));
}

#[test]
fn create_session_without_seed_memory() {
    let mut engine = Engine::new();
    assert_eq!(engine.create_npc_session(s("npc"), config("Mira", 10, 20), None, WriteOutcome::Failed("disk full".to_string())), Ok(()));
    assert!(engine.sessions.contains(&s("npc")));
    assert!(!engine.store.has_unit(&s("npc")));
    assert_eq!(engine.get_all_memory(&s("npc")).unwrap().len(), 0);
    assert_eq!(engine.current_emotion(&s("npc"), 99), Ok(EmotionPrediction { valence: 10, arousal: 20 }));
}

#[test]
fn create_session_with_seed_memory() {
    let mut engine = Engine::new();
    let seed = vec![rec("one", 1, 1), rec("two", 2, 2)];
    assert_eq!(engine.create_npc_session(s("npc"), config("Mira", 0, 0), Some(seed), WriteOutcome::Durable), Ok(()));
    let texts: Vec<String> = engine.get_all_memory(&s("npc")).unwrap().into_iter().map(|r| r.text).collect();
    assert_eq!(texts, vec!["one", "two"]);
}

#[test]
fn create_session_rejects_invalid_seed_memory() {
    let mut engine = Engine::new();
    let seed = vec![rec("one", 1, 1), rec("", 2, 2)];
    assert_eq!(
        engine.create_npc_session(s("npc"), config("Mira", 0, 0), Some(seed), WriteOutcome::Durable),
        Err(EngineError::ConfigInvalid)
    );
    assert!(!engine.sessions.contains(&s("npc")));
    assert!(!engine.store.has_unit(&s("npc")));
}

#[test]
fn create_session_rejects_invalid_config() {
    let mut engine = Engine::new();
    let seed = vec![rec("one", 1, 1)];
    assert_eq!(
        engine.create_npc_session(s("npc"), config("Mira", 0, 1_500_000), Some(seed), WriteOutcome::Durable),
        Err(EngineError::ConfigInvalid)
    );
    assert!(!engine.sessions.contains(&s("npc")));
    assert!(!engine.store.has_unit(&s("npc")));
}

#[test]
fn create_session_refuses_live_identifier() {
    let mut engine = Engine::new();
    engine.create_npc_session(s("npc"), config("Mira", 0, 0), None, WriteOutcome::Durable).unwrap();
    let seed = vec![rec("one", 1, 1)];
    assert_eq!(
        engine.create_npc_session(s("npc"), config("Other", 0, 0), Some(seed), WriteOutcome::Durable),
        Err(EngineError::AlreadyExists)
    );
    assert_eq!(engine.list_sessions().len(), 1);
    assert_eq!(engine.list_sessions()[0].1.config().identity.name, "Mira");
    assert!(!engine.store.has_unit(&s("npc")));
}

#[test]
fn create_session_needs_durable_seed_memory() {
    let mut engine = Engine::new();
    let seed = vec![rec("one", 1, 1)];
    assert_eq!(
        engine.create_npc_session(s("npc"), config("Mira", 0, 0), Some(seed), WriteOutcome::Failed("disk full".to_string())),
        Err(EngineError::PersistenceFailed)
    );
    assert!(!engine.sessions.contains(&s("npc")));
    assert!(!engine.store.has_unit(&s("npc")));
}

#[test]
fn check_create_agrees_with_create() {
    let mut engine = Engine::new();
    let none: Option<Vec<MemoryRecord>> = None;
    assert_eq!(engine.check_create(&s("npc"), &config("Mira", 0, 0), &none), Ok(()));
    assert_eq!(
        engine.check_create(&s("npc"), &config("Mira", -2_000_000, 0), &none),
        Err(EngineError::ConfigInvalid)
    );
    assert_eq!(
        engine.check_create(&s("npc"), &config("Mira", 0, 0), &Some(vec![rec("", 0, 0)])),
        Err(EngineError::ConfigInvalid)
    );
    engine.create_npc_session(s("npc"), config("Mira", 0, 0), None, WriteOutcome::Durable).unwrap();
    assert_eq!(engine.check_create(&s("npc"), &config("Mira", 0, 0), &none), Err(EngineError::AlreadyExists));
}

#[test]
fn remove_then_create_starts_with_empty_history() {
    let mut engine = ready_engine();
    engine.create_npc_session(s("npc"), config("Mira", 0, 0), Some(vec![rec("seed", 5, 5)]), WriteOutcome::Durable).unwrap();
    engine.evaluate_interaction(&s("npc"), s("hello"), None, raw(900_000, 900_000), 10, WriteOutcome::Durable).unwrap();
    assert_eq!(engine.get_all_memory(&s("npc")).unwrap().len(), 2);
    assert_eq!(engine.remove_npc(&s("npc"), WriteOutcome::Durable), Ok(()));
    assert_eq!(engine.get_all_memory(&s("npc")).err(), Some(EngineError::NotFound));
    assert_eq!(engine.create_npc_session(s("npc"), config("Mira", 40, -40), None, WriteOutcome::Durable), Ok(()));
    assert!(engine.get_all_memory(&s("npc")).unwrap().is_empty());
    assert_eq!(engine.store.count(&s("npc")), 0);
    assert_eq!(engine.current_emotion(&s("npc"), 11), Ok(EmotionPrediction { valence: 40, arousal: -40 }));
}

#[test]
fn remove_npc_without_session_is_not_found_but_drops_memory() {
    let mut engine = Engine::new();
    engine.store.append(&s("npc"), rec("x", 0, 0), 5, WriteOutcome::Durable).unwrap();
    assert_eq!(engine.remove_npc(&s("npc"), WriteOutcome::Durable), Err(EngineError::NotFound));
    assert!(!engine.store.has_unit(&s("npc")));
}

#[test]
fn engine_remove_npc_without_durable_removal_changes_nothing() {
    let mut engine = Engine::new();
    engine.create_npc_session(s("npc"), config("Mira", 0, 0), Some(vec![rec("seed", 5, 5)]), WriteOutcome::Durable).unwrap();
    assert_eq!(engine.remove_npc(&s("npc"), WriteOutcome::Failed("disk full".to_string())), Err(EngineError::PersistenceFailed));
    assert!(engine.sessions.contains(&s("npc")));
    assert_eq!(engine.store.count(&s("npc")), 1);
}

#[test]
fn remove_session_keeps_memory() {
    let mut engine = Engine::new();
    engine.create_npc_session(s("npc"), config("Mira", 0, 0), Some(vec![rec("seed", 5, 5)]), WriteOutcome::Durable).unwrap();
    assert_eq!(engine.remove_npc_session(&s("npc")), Ok(()));
    assert_eq!(engine.remove_npc_session(&s("npc")), Err(EngineError::NotFound));
    assert_eq!(engine.store.count(&s("npc")), 1);
    // A session created again over stored memory continues with it.
    engine.create_npc_session(s("npc"), config("Mira", 0, 0), None, WriteOutcome::Durable).unwrap();
    assert_eq!(engine.get_all_memory(&s("npc")).unwrap()[0].text, "seed");
}

#[test]
fn engine_over_loaded_store_has_no_live_sessions() {
    let mut store = MemoryStore::new();
    store.append(&s("npc"), rec("x", 0, 0), 5, WriteOutcome::Durable).unwrap();
    let engine = Engine::with_store(store);
    assert!(engine.list_sessions().is_empty());
    assert!(engine.store.has_unit(&s("npc")));
    assert!(!engine.model.is_ready());
}

#[test]
fn engine_evaluate_needs_session_then_model() {
    let mut engine = Engine::new();
    assert_eq!(
        engine.evaluate_interaction(&s("npc"), s("hi"), None, raw(1, 1), 0, WriteOutcome::Durable),
        Err(EngineError::NotFound)
    );
    engine.create_npc_session(s("npc"), config("Mira", 0, 0), None, WriteOutcome::Durable).unwrap();
    assert_eq!(
        engine.evaluate_interaction(&s("npc"), s("hi"), None, raw(1, 1), 0, WriteOutcome::Durable),
        Err(EngineError::ModelNotReady)
    );
    assert_eq!(
        engine.stage_interaction(&s("npc"), &s("hi"), &None, raw(1, 1), 0).err(),
        Some(EngineError::ModelNotReady)
    );
    engine.model.begin_initialize();
    engine.model.finish_initialize(true).unwrap();
    assert_eq!(
        engine.evaluate_interaction(&s("npc"), s("hi"), None, raw(800_000, 600_000), 0, WriteOutcome::Durable),
        Ok(EmotionPrediction { valence: 400_000, arousal: 300_000 })
    );
    assert_eq!(engine.stage_interaction(&s("npc"), &s("hi"), &None, raw(1, 1), 0).unwrap().len(), 2);
    assert_eq!(
        engine.stage_interaction(&s("ghost"), &s("hi"), &None, raw(1, 1), 0).err(),
        Some(EngineError::NotFound)
    );
}

#[test]
fn engine_keeps_characters_apart() {
    let mut engine = ready_engine();
    engine.create_npc_session(s("a"), config("Ada", 0, 0), None, WriteOutcome::Durable).unwrap();
    engine.create_npc_session(s("b"), config("Bob", 100_000, 100_000), None, WriteOutcome::Durable).unwrap();
    engine.evaluate_interaction(&s("a"), s("hi"), None, raw(800_000, 600_000), 0, WriteOutcome::Durable).unwrap();
    assert_eq!(engine.get_all_memory(&s("a")).unwrap().len(), 1);
    assert_eq!(engine.get_all_memory(&s("b")).unwrap().len(), 0);
    assert_eq!(engine.current_emotion(&s("b"), 0), Ok(EmotionPrediction { valence: 100_000, arousal: 100_000 }));
}

#[test]
fn engine_emotion_towards_source() {
    let mut engine = ready_engine();
    engine.create_npc_session(s("npc"), config("Mira", 0, 0), None, WriteOutcome::Durable).unwrap();
    engine.evaluate_interaction(&s("npc"), s("hi"), Some(s("alice")), raw(800_000, 600_000), 0, WriteOutcome::Durable).unwrap();
    engine.evaluate_interaction(&s("npc"), s("boo"), Some(s("bob")), raw(-800_000, 600_000), 0, WriteOutcome::Durable).unwrap();
    assert_eq!(engine.emotion_towards_source(&s("npc"), &s("alice"), 0), Ok(EmotionPrediction { valence: 400_000, arousal: 300_000 }));
    assert_eq!(engine.emotion_towards_source(&s("npc"), &s("bob"), 0), Ok(EmotionPrediction { valence: -400_000, arousal: 300_000 }));
    assert_eq!(engine.emotion_towards_source(&s("npc"), &s("carol"), 0), Ok(EmotionPrediction { valence: 0, arousal: 0 }));
    assert_eq!(engine.emotion_towards_source(&s("ghost"), &s("alice"), 0), Err(EngineError::NotFound));
}

#[test]
fn engine_clear_memory() {
    let mut engine = ready_engine();
    assert_eq!(engine.clear_memory(&s("npc"), WriteOutcome::Durable), Err(EngineError::NotFound));
    engine.create_npc_session(s("npc"), config("Mira", 0, 0), Some(vec![rec("seed", 5, 5)]), WriteOutcome::Durable).unwrap();
    assert_eq!(engine.clear_memory(&s("npc"), WriteOutcome::Failed("disk full".to_string())), Err(EngineError::PersistenceFailed));
    assert_eq!(engine.get_all_memory(&s("npc")).unwrap().len(), 1);
    assert_eq!(engine.clear_memory(&s("npc"), WriteOutcome::Durable), Ok(()));
    assert_eq!(engine.clear_memory(&s("npc"), WriteOutcome::Durable), Ok(()));
    assert!(engine.get_all_memory(&s("npc")).unwrap().is_empty());
    assert!(engine.sessions.contains(&s("npc")));
}

#[test]
fn engine_error_messages() {
    assert_eq!(EngineError::ConfigInvalid.message(), "invalid configuration or memory record");
    assert_eq!(EngineError::ModelNotReady.message(), "model not initialized");
    assert_eq!(EngineError::PredictionFailed.message(), "emotion prediction failed");
    assert_eq!(EngineError::PersistenceFailed.message(), "memory persistence failed");
    assert_eq!(EngineError::NotFound.message(), "NPC not found");
    assert_eq!(EngineError::AlreadyExists.message(), "NPC already exists");
}
