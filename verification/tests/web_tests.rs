use npc_neural_affect_matrix::web::error::WebError;
use npc_neural_affect_matrix::web::routes::{
    check_create_npc, clear_memory_handler, create_npc, evaluate_interaction, get_current_emotion,
    get_emotion_by_source, get_memory, health_check, initialize, list_npcs, remove_npc,
};
use npc_neural_affect_matrix::web::types::{
    ApiResponse, CreateNpcRequest, EmotionResponse, EvaluateInteractionRequest, InitializeRequest,
    MessageResponse,
};
use npc_neural_affect_matrix::model::{InitAction, ModelState};
use npc_neural_affect_matrix::{
    EmotionPrediction, EmotionPredictorError, Engine, Identity, MemoryConfig, MemoryRecord,
    ModelCache, NpcConfig, PersonalityTraits, RawPrediction, WriteOutcome,
};

fn config(name: &str, valence: i32, arousal: i32) -> NpcConfig {
    NpcConfig {
        identity: Identity { name: name.to_string(), background: format!("{} of the tests", name) },
        personality: PersonalityTraits { valence, arousal },
        memory_config: MemoryConfig { max_records: 5, decay_half_life: 3600 },
    }
}

fn rec(text: &str, valence: i32) -> MemoryRecord {
    MemoryRecord {
        source_id: Some("seed".to_string()),
        text: text.to_string(),
        emotion: EmotionPrediction { valence, arousal: 0 },
        timestamp: 0,
    }
}

fn raw(valence: i64, arousal: i64) -> Result<RawPrediction, EmotionPredictorError> {
    Ok(RawPrediction { valence, arousal })
}

fn s(text: &str) -> String {
    text.to_string()
}

fn request(text: &str, source: Option<&str>) -> EvaluateInteractionRequest {
    EvaluateInteractionRequest { text: text.to_string(), source_id: source.map(|x| x.to_string()) }
}

fn engine_with(ids: &[&str]) -> Engine {
    let mut engine = Engine::new();
    engine.model.begin_initialize();
    engine.model.finish_initialize(true).unwrap();
    for id in ids {
        let made = create_npc(
            &mut engine,
            s(id),
            CreateNpcRequest { config: config(id, 0, 0), memory: None },
            WriteOutcome::Durable,
        );
        assert!(made.is_ok());
    }
    engine
}

fn parts(e: WebError) -> (u16, String) {
    let (status, body) = e.into_parts();
    assert!(!body.success);
    assert!(body.data.is_none());
    (status, body.error.unwrap())
}

#[test]
fn api_response_success_carries_data() {
    let r = ApiResponse::success(7u32);
    assert!(r.success);
    assert_eq!(r.data, Some(7));
    assert_eq!(r.error, None);
}

#[test]
fn api_response_error_carries_message() {
    let r: ApiResponse<u32> = ApiResponse::error(s("boom"));
    assert!(!r.success);
    assert_eq!(r.data, None);
    assert_eq!(r.error, Some(s("boom")));
}

#[test]
fn web_error_status_codes() {
    assert_eq!(WebError::BadRequest(s("a")).status_code(), 400);
    assert_eq!(WebError::NotFound(s("b")).status_code(), 404);
    assert_eq!(WebError::InternalError(s("c")).status_code(), 500);
}

#[test]
fn web_error_message_and_parts() {
    assert_eq!(WebError::BadRequest(s("a")).message(), "a");
    assert_eq!(parts(WebError::BadRequest(s("bad"))), (400, s("bad")));
    assert_eq!(parts(WebError::NotFound(s("gone"))), (404, s("gone")));
    assert_eq!(parts(WebError::InternalError(s("oops"))), (500, s("oops")));
}

#[test]
fn web_error_from_text_is_internal() {
    let e: WebError = s("plain").into();
    assert!(matches!(e, WebError::InternalError(ref m) if m == "plain"));
    let e = WebError::from(s("plain"));
    assert_eq!(e.status_code(), 500);
    let e = WebError::internal("borrowed");
    assert!(matches!(e, WebError::InternalError(ref m) if m == "borrowed"));
}

#[test]
fn emotion_response_copies_components() {
    let r = EmotionResponse::from_emotion(EmotionPrediction { valence: -5, arousal: 6 });
    assert_eq!(r, EmotionResponse { valence: -5, arousal: 6 });
}

#[test]
fn plain_payloads_hold_their_fields() {
    let m = MessageResponse { message: s("hello") };
    assert_eq!(m.message, "hello");
    let _ = InitializeRequest {};
}

#[test]
fn health_check_reports_healthy() {
    let r = health_check(s("1.2.3"));
    assert!(r.success);
    let data = r.data.unwrap();
    assert_eq!(data.status, "healthy");
    assert_eq!(data.version, "1.2.3");
    assert_eq!(r.error, None);
}

#[test]
fn initialize_after_good_load() {
    let mut model = ModelCache::new();
    assert_eq!(model.begin_initialize(), InitAction::Load);
    let r = initialize(&mut model, InitAction::Load, Ok(())).unwrap();
    assert!(r.success);
    assert_eq!(r.data.unwrap().message, "Model initialized successfully");
    assert!(model.is_ready());
    // A later request finds the model ready and confirms.
    assert_eq!(model.begin_initialize(), InitAction::Confirm);
    assert!(initialize(&mut model, InitAction::Confirm, Ok(())).is_ok());
    assert!(initialize(&mut model, InitAction::Confirm, Err(None)).is_ok());
}

#[test]
fn initialize_after_failed_load() {
    let mut model = ModelCache::new();
    model.begin_initialize();
    let e = initialize(&mut model, InitAction::Load, Err(Some(s("model file missing")))).unwrap_err();
    assert_eq!(parts(e), (500, s("model file missing")));
    assert_eq!(model.current_state(), ModelState::Unloaded);
    model.begin_initialize();
    let e = initialize(&mut model, InitAction::Load, Err(None)).unwrap_err();
    assert_eq!(parts(e), (500, s("Unknown error during model initialization")));
}

#[test]
fn initialize_without_a_load_is_refused() {
    let mut model = ModelCache::new();
    let e = initialize(&mut model, InitAction::Load, Ok(())).unwrap_err();
    assert_eq!(parts(e), (500, s("model not initialized")));
    assert!(!model.is_ready());
}

#[test]
fn initialize_of_a_waiting_caller_changes_nothing() {
    let mut model = ModelCache::new();
    assert_eq!(model.begin_initialize(), InitAction::Load);
    assert_eq!(model.begin_initialize(), InitAction::Wait);
    let e = initialize(&mut model, InitAction::Wait, Ok(())).unwrap_err();
    assert_eq!(parts(e), (500, s("model not initialized")));
    assert_eq!(model.current_state(), ModelState::Loading);
    assert!(initialize(&mut model, InitAction::Load, Ok(())).is_ok());
    assert!(initialize(&mut model, InitAction::Wait, Ok(())).is_ok());
}

#[test]
fn create_npc_answers_created() {
    let mut engine = Engine::new();
    let req = CreateNpcRequest { config: config("Mira", 1, 2), memory: Some(vec![rec("seed", 3)]) };
    let (status, body) = create_npc(&mut engine, s("id-1"), req, WriteOutcome::Durable).unwrap();
    assert_eq!(status, 201);
    assert!(body.success);
    assert_eq!(body.data.unwrap().npc_id, "id-1");
    assert_eq!(engine.store.count(&s("id-1")), 1);
    assert!(engine.sessions.contains(&s("id-1")));
}

#[test]
fn create_npc_failures_are_internal_errors() {
    let mut engine = engine_with(&["taken"]);
    let req = CreateNpcRequest { config: config("Mira", 1, 2), memory: Some(vec![rec("", 3)]) };
    let e = create_npc(&mut engine, s("new"), req, WriteOutcome::Durable).unwrap_err();
    assert_eq!(parts(e), (500, s("Failed to import memory: invalid configuration or memory record")));
    let req = CreateNpcRequest { config: config("Mira", 1, 2_000_000), memory: None };
    let e = create_npc(&mut engine, s("new"), req, WriteOutcome::Durable).unwrap_err();
    assert_eq!(parts(e), (500, s("Failed to create evaluator: invalid configuration or memory record")));
    let req = CreateNpcRequest { config: config("Mira", 1, 2), memory: None };
    let e = create_npc(&mut engine, s("taken"), req, WriteOutcome::Durable).unwrap_err();
    assert_eq!(parts(e), (500, s("Failed to create session")));
    let req = CreateNpcRequest { config: config("Mira", 1, 2), memory: Some(vec![rec("seed", 3)]) };
    let e = create_npc(&mut engine, s("new"), req, WriteOutcome::Failed("disk full".to_string())).unwrap_err();
    assert_eq!(parts(e), (500, s("Failed to import memory: memory persistence failed: disk full")));
    assert!(!engine.sessions.contains(&s("new")));
    assert!(!engine.store.has_unit(&s("new")));
}

#[test]
fn check_create_npc_agrees_with_create() {
    let engine = engine_with(&["taken"]);
    let req = CreateNpcRequest { config: config("Mira", 1, 2), memory: Some(vec![rec("seed", 3)]) };
    assert!(check_create_npc(&engine, &s("new"), &req).is_ok());
    let e = check_create_npc(&engine, &s("taken"), &req).unwrap_err();
    assert_eq!(parts(e), (500, s("Failed to create session")));
}

#[test]
fn list_npcs_shows_every_session() {
    let mut engine = engine_with(&["b", "a"]);
    let req = CreateNpcRequest { config: config("Zoe", -7, 8), memory: None };
    create_npc(&mut engine, s("c"), req, WriteOutcome::Durable).unwrap();
    let r = list_npcs(&engine);
    assert!(r.success);
    let lines = r.data.unwrap();
    assert_eq!(lines.len(), 3);
    assert_eq!(lines[0].npc_id, "b");
    assert_eq!(lines[1].npc_id, "a");
    assert_eq!(lines[2].npc_id, "c");
    assert_eq!(lines[2].name, "Zoe");
    assert_eq!(lines[2].background, "Zoe of the tests");
    assert_eq!(lines[2].personality, PersonalityTraits { valence: -7, arousal: 8 });
    assert!(list_npcs(&Engine::new()).data.unwrap().is_empty());
}

#[test]
fn remove_npc_answers_with_message() {
    let mut engine = engine_with(&["npc"]);
    let r = remove_npc(&mut engine, &s("npc"), WriteOutcome::Durable).unwrap();
    assert_eq!(r.data.unwrap().message, "NPC session 'npc' removed successfully");
    let e = remove_npc(&mut engine, &s("npc"), WriteOutcome::Durable).unwrap_err();
    assert_eq!(parts(e), (404, s("NPC session 'npc' not found")));
}

#[test]
fn remove_npc_reports_failed_removal() {
    let mut engine = engine_with(&["npc"]);
    let e = remove_npc(&mut engine, &s("npc"), WriteOutcome::Failed("disk full".to_string())).unwrap_err();
    assert_eq!(parts(e), (500, s("Failed to remove NPC memory: memory persistence failed: disk full")));
    assert!(engine.sessions.contains(&s("npc")));
}

#[test]
fn evaluate_interaction_answers_with_new_emotion() {
    let mut engine = engine_with(&["npc"]);
    let r = evaluate_interaction(&mut engine, &s("npc"), request("hello", Some("alice")), raw(800_000, 600_000), 0, WriteOutcome::Durable)
        .unwrap();
    assert!(r.success);
    assert_eq!(r.data, Some(EmotionResponse { valence: 400_000, arousal: 300_000 }));
    let r = get_current_emotion(&engine, &s("npc"), 3600).unwrap();
    // One half-life later the record weighs half: 0.4 / 1.5 and 0.3 / 1.5.
    assert_eq!(r.data, Some(EmotionResponse { valence: 266_666, arousal: 200_000 }));
    let r = get_emotion_by_source(&engine, &s("npc"), &s("alice"), 0).unwrap();
    assert_eq!(r.data, Some(EmotionResponse { valence: 400_000, arousal: 300_000 }));
    let r = get_emotion_by_source(&engine, &s("npc"), &s("bob"), 0).unwrap();
    assert_eq!(r.data, Some(EmotionResponse { valence: 0, arousal: 0 }));
}

#[test]
fn evaluate_interaction_failures_are_internal_errors() {
    let mut engine = engine_with(&["npc"]);
    let e = evaluate_interaction(&mut engine, &s("ghost"), request("hi", None), raw(1, 1), 0, WriteOutcome::Durable).unwrap_err();
    assert_eq!(parts(e), (500, s("NPC not found")));
    let e = evaluate_interaction(&mut engine, &s("npc"), request("", None), raw(1, 1), 0, WriteOutcome::Durable).unwrap_err();
    assert_eq!(parts(e), (500, s("emotion prediction failed")));
    let e = evaluate_interaction(&mut engine, &s("npc"), request("hi", None), Err(EmotionPredictorError::NotInitialized), 0, WriteOutcome::Durable).unwrap_err();
    assert_eq!(parts(e), (500, s("model not initialized")));
    let e = evaluate_interaction(&mut engine, &s("npc"), request("hi", None), raw(1, 1), 0, WriteOutcome::Failed("disk full".to_string())).unwrap_err();
    assert_eq!(parts(e), (500, s("memory persistence failed: disk full")));
    assert!(get_memory(&engine, &s("npc")).unwrap().data.unwrap().is_empty());
    let mut cold = Engine::new();
    create_npc(&mut cold, s("npc"), CreateNpcRequest { config: config("x", 0, 0), memory: None }, WriteOutcome::Durable).unwrap();
    let e = evaluate_interaction(&mut cold, &s("npc"), request("hi", None), raw(1, 1), 0, WriteOutcome::Durable).unwrap_err();
    assert_eq!(parts(e), (500, s("model not initialized")));
}

#[test]
fn emotion_queries_of_unknown_npc_are_internal_errors() {
    let engine = engine_with(&[]);
    let e = get_current_emotion(&engine, &s("ghost"), 0).unwrap_err();
    assert_eq!(parts(e), (500, s("NPC not found")));
    let e = get_emotion_by_source(&engine, &s("ghost"), &s("alice"), 0).unwrap_err();
    assert_eq!(parts(e), (500, s("NPC not found")));
}

#[test]
fn get_memory_answers_with_records() {
    let mut engine = engine_with(&["npc"]);
    evaluate_interaction(&mut engine, &s("npc"), request("one", None), raw(1, 1), 5, WriteOutcome::Durable).unwrap();
    evaluate_interaction(&mut engine, &s("npc"), request("two", Some("bob")), raw(2, 2), 6, WriteOutcome::Durable).unwrap();
    let records = get_memory(&engine, &s("npc")).unwrap().data.unwrap();
    assert_eq!(records.len(), 2);
    assert_eq!(records[0].text, "one");
    assert_eq!(records[1].source_id.as_deref(), Some("bob"));
    assert_eq!(records[1].timestamp, 6);
    let e = get_memory(&engine, &s("ghost")).unwrap_err();
    assert_eq!(parts(e), (404, s("NPC 'ghost' not found")));
}

#[test]
fn clear_memory_handler_answers_with_message() {
    let mut engine = engine_with(&["npc"]);
    evaluate_interaction(&mut engine, &s("npc"), request("one", None), raw(1, 1), 5, WriteOutcome::Durable).unwrap();
    let e = clear_memory_handler(&mut engine, &s("npc"), WriteOutcome::Failed("disk full".to_string())).unwrap_err();
    assert_eq!(parts(e), (404, s("NPC 'npc' not found")));
    assert_eq!(get_memory(&engine, &s("npc")).unwrap().data.unwrap().len(), 1);
    let r = clear_memory_handler(&mut engine, &s("npc"), WriteOutcome::Durable).unwrap();
    assert_eq!(r.data.unwrap().message, "Memory cleared for NPC 'npc'");
    assert!(clear_memory_handler(&mut engine, &s("npc"), WriteOutcome::Durable).is_ok());
    assert!(get_memory(&engine, &s("npc")).unwrap().data.unwrap().is_empty());
    let e = clear_memory_handler(&mut engine, &s("ghost"), WriteOutcome::Durable).unwrap_err();
    assert_eq!(parts(e), (404, s("NPC 'ghost' not found")));
}
