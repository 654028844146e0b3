//! The decision of each endpoint: what it does to the engine, what it
//! answers, and which failure it reports with which message.
//!
//! An endpoint that changes stored memory takes a [`WriteOutcome`]: the
//! transport writes first and reports how that went.

use vstd::prelude::*;
use vstd::string::*;
use crate::emotion::{EmotionPrediction, EmotionPredictorError, RawPrediction};
use crate::engine::{create_outcome, evaluate_outcome, Engine};
use crate::error::EngineError;
use crate::model::{after_finish, InitAction, ModelCache, ModelState};
use crate::record::{records_valid, validate_records, MemoryRecord};
use crate::store::{cleared, WriteOutcome};
use crate::web::error::WebError;
use crate::web::types::{
    ApiResponse, CreateNpcRequest, EmotionResponse, EvaluateInteractionRequest, HealthResponse,
    MessageResponse, NpcSessionResponse, NpcSummary,
};

verus! {

/// HTTP status 201.
pub const STATUS_CREATED: u16 = 201;

/// `prefix`, `middle` and `suffix` in one text.
fn compose(prefix: &str, middle: &String, suffix: &str) -> (text: String)
    ensures
        text@ == prefix@ + middle@ + suffix@,
{
    let mut text = String::from_str(prefix);
    text.append(middle.as_str());
    text.append(suffix);
    text
}

/// The message for a failure of the engine, after what was being done and
/// with the reason that the durable medium gave.
fn explain(doing: &str, error: EngineError, reason: &String) -> (text: String)
    ensures
        text@ == doing@ + error.explained(reason@),
{
    let mut text = String::from_str(doing);
    let detail = error.message_with(reason);
    text.append(detail.as_str());
    text
}

/// The message for a request to initialize that did not leave the model
/// ready: what the load reported where this caller loaded, and otherwise
/// that the model is not initialized.
pub open spec fn initialize_failure_text(
    action: InitAction,
    loaded: Result<(), Option<String>>,
) -> Seq<char> {
    match (action, loaded) {
        (InitAction::Load, Err(Some(message))) => message@,
        (InitAction::Load, Err(None)) => "Unknown error during model initialization"@,
        _ => EngineError::ModelNotReady.describe(),
    }
}

/// Whether a request to initialize is answered with success: the model is
/// ready, and this caller's own load, if it made one, went well.
pub open spec fn initialize_succeeds(
    state: ModelState,
    action: InitAction,
    loaded: Result<(), Option<String>>,
) -> bool {
    state is Ready && (action is Load ==> loaded is Ok)
}

/// The message for a session that could not be created; see
/// [`create_outcome`] for the order of the checks.
pub open spec fn create_failure_text(
    live: bool,
    request: CreateNpcRequest,
    ack: WriteOutcome,
) -> Seq<char> {
    if request.memory is Some && !records_valid(request.memory->0@) {
        "Failed to import memory: "@ + EngineError::ConfigInvalid.describe()
    } else if !request.config.is_valid() {
        "Failed to create evaluator: "@ + EngineError::ConfigInvalid.describe()
    } else if live {
        "Failed to create session"@
    } else {
        "Failed to import memory: "@ + EngineError::PersistenceFailed.explained(ack.reason())
    }
}

/// The message for a character that is not known.
pub open spec fn npc_not_found_text(npc_id: Seq<char>) -> Seq<char> {
    "NPC '"@ + npc_id + "' not found"@
}

/// The message for a session that is not live.
pub open spec fn session_not_found_text(npc_id: Seq<char>) -> Seq<char> {
    "NPC session '"@ + npc_id + "' not found"@
}

/// The message for a session that was removed.
pub open spec fn session_removed_text(npc_id: Seq<char>) -> Seq<char> {
    "NPC session '"@ + npc_id + "' removed successfully"@
}

/// The message for a memory that was cleared.
pub open spec fn memory_cleared_text(npc_id: Seq<char>) -> Seq<char> {
    "Memory cleared for NPC '"@ + npc_id + "'"@
}

/// The answer of the health check: the service is healthy, and this is its
/// version.
pub fn health_check(version: String) -> (response: ApiResponse<HealthResponse>)
    ensures
        response.success,
        response.error is None,
        response.data is Some,
        response.data->0.status@ == "healthy"@,
        response.data->0.version == version,
{
    ApiResponse::success(HealthResponse { status: "healthy".to_string(), version })
}

/// Finishes the initialization of the model and answers the request.
///
/// `action` is what [`ModelCache::begin_initialize`] told this caller to
/// do, and `loaded` is how its load went; `loaded` counts only for the
/// caller that was told to load. A caller that was told to wait or that
/// there is nothing to do changes nothing and is answered by the state of
/// the model.
pub fn initialize(model: &mut ModelCache, action: InitAction, loaded: Result<(), Option<String>>) -> (answer:
    Result<ApiResponse<MessageResponse>, WebError>)
    ensures
        final(model).state() == if action is Load {
            after_finish(old(model).state(), loaded is Ok)
        } else {
            old(model).state()
        },
        match answer {
            Ok(response) => {
                &&& initialize_succeeds(final(model).state(), action, loaded)
                &&& response.success
                &&& response.error is None
                &&& response.data is Some
                &&& response.data->0.message@ == "Model initialized successfully"@
            },
            Err(e) => {
                &&& !initialize_succeeds(final(model).state(), action, loaded)
                &&& e is InternalError
                &&& e.text()@ == initialize_failure_text(action, loaded)
            },
        },
{
    let ready = match action {
        InitAction::Load => {
            let ready = model.finish_initialize(loaded.is_ok());
            match loaded {
                Err(Some(message)) => {
                    return Err(WebError::InternalError(message));
                },
                Err(None) => {
                    return Err(WebError::internal("Unknown error during model initialization"));
                },
                Ok(_) => {},
            }
            ready
        },
        _ => model.check_ready(),
    };
    match ready {
        Ok(_) => Ok(
            ApiResponse::success(
                MessageResponse { message: "Model initialized successfully".to_string() },
            ),
        ),
        Err(e) => Err(WebError::InternalError(e.message())),
    }
}

/// Says whether [`create_npc`] would go through if the write succeeded:
/// what the transport checks before it writes seed memory.
pub fn check_create_npc(engine: &Engine, npc_id: &String, request: &CreateNpcRequest) -> (checked:
    Result<(), WebError>)
    requires
        engine.wf(),
    ensures
        match checked {
            Ok(_) => create_outcome(
                engine.live(npc_id@),
                request.config,
                request.memory,
                WriteOutcome::Durable,
            ) is Ok,
            Err(e) => {
                &&& create_outcome(
                    engine.live(npc_id@),
                    request.config,
                    request.memory,
                    WriteOutcome::Durable,
                ) is Err
                &&& e is InternalError
                &&& e.text()@ == create_failure_text(engine.live(npc_id@), *request, WriteOutcome::Durable)
            },
        },
{
    match &request.memory {
        Some(records) => {
            match validate_records(records) {
                Err(e) => {
                    return Err(
                        WebError::InternalError(
                            explain("Failed to import memory: ", e, &String::new()),
                        ),
                    );
                },
                Ok(_) => {},
            }
        },
        None => {},
    }
    match request.config.validate() {
        Err(e) => {
            return Err(
                WebError::InternalError(
                    explain("Failed to create evaluator: ", e, &String::new()),
                ),
            );
        },
        Ok(_) => {},
    }
    if engine.sessions.contains(npc_id) {
        return Err(WebError::internal("Failed to create session"));
    }
    Ok(())
}

/// Creates a session under the identifier `npc_id`, seeded with the
/// memory of the request if it has any, and answers with status 201 and the
/// identifier. Any failure is an internal error and changes nothing.
pub fn create_npc(engine: &mut Engine, npc_id: String, request: CreateNpcRequest, ack: WriteOutcome) -> (answer:
    Result<(u16, ApiResponse<NpcSessionResponse>), WebError>)
    requires
        old(engine).wf(),
    ensures
        final(engine).wf(),
        final(engine).model == old(engine).model,
        match answer {
            Ok(created) => {
                &&& create_outcome(old(engine).live(npc_id@), request.config, request.memory, ack) is Ok
                &&& created.0 == STATUS_CREATED
                &&& created.1.success
                &&& created.1.error is None
                &&& created.1.data is Some
                &&& created.1.data->0.npc_id == npc_id
                &&& final(engine).live(npc_id@)
                &&& final(engine).sessions@[npc_id@].id() == npc_id@
                &&& final(engine).sessions@[npc_id@].settings() == request.config
                &&& final(engine).sessions@ == old(engine).sessions@.insert(
                    npc_id@,
                    final(engine).sessions@[npc_id@],
                )
                &&& final(engine).store@ == match request.memory {
                    Some(records) => old(engine).store@.insert(npc_id@, records@),
                    None => old(engine).store@,
                }
            },
            Err(e) => {
                &&& create_outcome(old(engine).live(npc_id@), request.config, request.memory, ack) is Err
                &&& e is InternalError
                &&& e.text()@ == create_failure_text(old(engine).live(npc_id@), request, ack)
                &&& final(engine).store@ == old(engine).store@
                &&& final(engine).sessions@ == old(engine).sessions@
            },
        },
{
    match check_create_npc(engine, &npc_id, &request) {
        Err(e) => {
            return Err(e);
        },
        Ok(_) => {},
    }
    let id = npc_id.clone();
    let reason = ack.reason_text();
    match engine.create_npc_session(npc_id, request.config, request.memory, ack) {
        Ok(_) => Ok((STATUS_CREATED, ApiResponse::success(NpcSessionResponse { npc_id: id }))),
        Err(e) => Err(WebError::InternalError(explain("Failed to import memory: ", e, &reason))),
    }
}

/// The live sessions in the order of their creation, each with the name,
/// the background and the personality of its character.
pub fn list_npcs(engine: &Engine) -> (response: ApiResponse<Vec<NpcSummary>>)
    requires
        engine.wf(),
    ensures
        response.success,
        response.error is None,
        response.data is Some,
        response.data->0@.len() == engine.sessions.ids().len(),
        forall|i: int|
            0 <= i < response.data->0@.len() ==> {
                let line = #[trigger] response.data->0@[i];
                let settings = engine.sessions.evaluators()[i].settings();
                &&& line.npc_id@ == engine.sessions.ids()[i]
                &&& line.name == settings.identity.name
                &&& line.background == settings.identity.background
                &&& line.personality == settings.personality
            },
{
    let sessions = engine.list_sessions();
    let mut lines: Vec<NpcSummary> = Vec::new();
    let mut i: usize = 0;
    while i < sessions.len()
        invariant
            i <= sessions@.len(),
            lines@.len() == i,
            sessions@.len() == engine.sessions.ids().len(),
            forall|j: int|
                0 <= j < sessions@.len() ==> (#[trigger] sessions@[j]).0@ == engine.sessions.ids()[j]
                    && sessions@[j].1 == engine.sessions.evaluators()[j],
            forall|j: int|
                0 <= j < i ==> {
                    let line = #[trigger] lines@[j];
                    let settings = engine.sessions.evaluators()[j].settings();
                    &&& line.npc_id@ == engine.sessions.ids()[j]
                    &&& line.name == settings.identity.name
                    &&& line.background == settings.identity.background
                    &&& line.personality == settings.personality
                },
        decreases sessions@.len() - i,
    {
        let entry = &sessions[i];
        let config = entry.1.config();
        lines.push(
            NpcSummary {
                npc_id: entry.0.clone(),
                name: config.identity.name.clone(),
                background: config.identity.background.clone(),
                personality: config.personality,
            },
        );
        i += 1;
    }
    ApiResponse::success(lines)
}

/// Deletes a character: its memory unit first, its session second. A
/// removal that was not durable is an internal error and changes nothing.
/// A character without a live session loses its memory unit all the same
/// and is answered with "not found".
pub fn remove_npc(engine: &mut Engine, npc_id: &String, ack: WriteOutcome) -> (answer: Result<
    ApiResponse<MessageResponse>,
    WebError,
>)
    requires
        old(engine).wf(),
    ensures
        final(engine).wf(),
        final(engine).model == old(engine).model,
        final(engine).store@ == if ack is Failed {
            old(engine).store@
        } else {
            old(engine).store@.remove(npc_id@)
        },
        final(engine).sessions@ == if ack is Failed {
            old(engine).sessions@
        } else {
            old(engine).sessions@.remove(npc_id@)
        },
        match answer {
            Ok(response) => {
                &&& ack is Durable
                &&& old(engine).live(npc_id@)
                &&& response.success
                &&& response.error is None
                &&& response.data is Some
                &&& response.data->0.message@ == session_removed_text(npc_id@)
            },
            Err(e) => if ack is Failed {
                &&& e is InternalError
                &&& e.text()@ == "Failed to remove NPC memory: "@
                    + EngineError::PersistenceFailed.explained(ack.reason())
            } else {
                &&& !old(engine).live(npc_id@)
                &&& e is NotFound
                &&& e.text()@ == session_not_found_text(npc_id@)
            },
        },
{
    let reason = ack.reason_text();
    match engine.remove_npc(npc_id, ack) {
        Ok(_) => Ok(
            ApiResponse::success(
                MessageResponse { message: compose("NPC session '", npc_id, "' removed successfully") },
            ),
        ),
        Err(EngineError::NotFound) => Err(
            WebError::NotFound(compose("NPC session '", npc_id, "' not found")),
        ),
        Err(e) => Err(WebError::InternalError(explain("Failed to remove NPC memory: ", e, &reason))),
    }
}

/// Records an interaction with a character and answers with the emotion
/// that the character has after it. Any failure is an internal error whose
/// message describes the failure of the engine, with the reason of a write
/// that failed, and changes nothing.
pub fn evaluate_interaction(
    engine: &mut Engine,
    npc_id: &String,
    request: EvaluateInteractionRequest,
    prediction: Result<RawPrediction, EmotionPredictorError>,
    now: u64,
    ack: WriteOutcome,
) -> (answer: Result<ApiResponse<EmotionResponse>, WebError>)
    requires
        old(engine).wf(),
    ensures
        final(engine).wf(),
        final(engine).model == old(engine).model,
        final(engine).sessions == old(engine).sessions,
        match answer {
            Ok(response) => {
                &&& evaluate_outcome(
                    old(engine).live(npc_id@),
                    old(engine).model.state() is Ready,
                    request.text@,
                    prediction,
                    ack,
                ) is Ok
                &&& final(engine).store@ == old(engine).store@.insert(
                    npc_id@,
                    old(engine).sessions@[npc_id@].log_after(
                        old(engine).store.log(npc_id@),
                        request.text,
                        request.source_id,
                        prediction->Ok_0,
                        now,
                    ),
                )
                &&& response.success
                &&& response.error is None
                &&& response.data == Some(emotion_payload(final(engine).emotion_of(npc_id@, None, now)))
            },
            Err(e) => {
                &&& evaluate_outcome(
                    old(engine).live(npc_id@),
                    old(engine).model.state() is Ready,
                    request.text@,
                    prediction,
                    ack,
                ) is Err
                &&& e is InternalError
                &&& e.text()@ == evaluate_outcome(
                    old(engine).live(npc_id@),
                    old(engine).model.state() is Ready,
                    request.text@,
                    prediction,
                    ack,
                )->Err_0.explained(ack.reason())
                &&& final(engine).store@ == old(engine).store@
            },
        },
{
    let reason = ack.reason_text();
    match engine.evaluate_interaction(npc_id, request.text, request.source_id, prediction, now, ack) {
        Ok(emotion) => Ok(ApiResponse::success(EmotionResponse::from_emotion(emotion))),
        Err(e) => Err(WebError::InternalError(e.message_with(&reason))),
    }
}

/// An emotion as a payload.
pub open spec fn emotion_payload(emotion: EmotionPrediction) -> EmotionResponse {
    EmotionResponse { valence: emotion.valence, arousal: emotion.arousal }
}

/// Answers with the current emotion of a character. A character without a
/// live session is an internal error.
pub fn get_current_emotion(engine: &Engine, npc_id: &String, now: u64) -> (answer: Result<
    ApiResponse<EmotionResponse>,
    WebError,
>)
    requires
        engine.wf(),
    ensures
        match answer {
            Ok(response) => {
                &&& engine.live(npc_id@)
                &&& response.success
                &&& response.error is None
                &&& response.data == Some(emotion_payload(engine.emotion_of(npc_id@, None, now)))
            },
            Err(e) => {
                &&& !engine.live(npc_id@)
                &&& e is InternalError
                &&& e.text()@ == EngineError::NotFound.describe()
            },
        },
{
    match engine.current_emotion(npc_id, now) {
        Ok(emotion) => Ok(ApiResponse::success(EmotionResponse::from_emotion(emotion))),
        Err(e) => Err(WebError::InternalError(e.message())),
    }
}

/// Answers with the current emotion of a character towards one source. A
/// character without a live session is an internal error; a source without
/// history is none.
pub fn get_emotion_by_source(engine: &Engine, npc_id: &String, source_id: &String, now: u64) -> (answer:
    Result<ApiResponse<EmotionResponse>, WebError>)
    requires
        engine.wf(),
    ensures
        match answer {
            Ok(response) => {
                &&& engine.live(npc_id@)
                &&& response.success
                &&& response.error is None
                &&& response.data == Some(
                    emotion_payload(engine.emotion_of(npc_id@, Some(source_id@), now)),
                )
            },
            Err(e) => {
                &&& !engine.live(npc_id@)
                &&& e is InternalError
                &&& e.text()@ == EngineError::NotFound.describe()
            },
        },
{
    match engine.emotion_towards_source(npc_id, source_id, now) {
        Ok(emotion) => Ok(ApiResponse::success(EmotionResponse::from_emotion(emotion))),
        Err(e) => Err(WebError::InternalError(e.message())),
    }
}

/// Answers with the records of a character in insertion order. A
/// character without a live session is answered with "not found".
pub fn get_memory(engine: &Engine, npc_id: &String) -> (answer: Result<
    ApiResponse<Vec<MemoryRecord>>,
    WebError,
>)
    requires
        engine.wf(),
    ensures
        match answer {
            Ok(response) => {
                &&& engine.live(npc_id@)
                &&& response.success
                &&& response.error is None
                &&& response.data is Some
                &&& response.data->0@ == engine.store.log(npc_id@)
            },
            Err(e) => {
                &&& !engine.live(npc_id@)
                &&& e is NotFound
                &&& e.text()@ == npc_not_found_text(npc_id@)
            },
        },
{
    match engine.get_all_memory(npc_id) {
        Ok(records) => Ok(ApiResponse::success(records)),
        Err(_) => Err(WebError::NotFound(compose("NPC '", npc_id, "' not found"))),
    }
}

/// Deletes all records of a character. Every failure, a write that was
/// not durable too, is answered with "not found" and changes nothing.
pub fn clear_memory_handler(engine: &mut Engine, npc_id: &String, ack: WriteOutcome) -> (answer:
    Result<ApiResponse<MessageResponse>, WebError>)
    requires
        old(engine).wf(),
    ensures
        final(engine).wf(),
        final(engine).model == old(engine).model,
        final(engine).sessions == old(engine).sessions,
        match answer {
            Ok(response) => {
                &&& old(engine).live(npc_id@)
                &&& ack is Durable
                &&& final(engine).store@ == cleared(old(engine).store@, npc_id@)
                &&& final(engine).store.log(npc_id@).len() == 0
                &&& response.success
                &&& response.error is None
                &&& response.data is Some
                &&& response.data->0.message@ == memory_cleared_text(npc_id@)
            },
            Err(e) => {
                &&& !old(engine).live(npc_id@) || ack is Failed
                &&& final(engine).store@ == old(engine).store@
                &&& e is NotFound
                &&& e.text()@ == npc_not_found_text(npc_id@)
            },
        },
{
    match engine.clear_memory(npc_id, ack) {
        Ok(_) => Ok(
            ApiResponse::success(
                MessageResponse { message: compose("Memory cleared for NPC '", npc_id, "'") },
            ),
        ),
        Err(_) => Err(WebError::NotFound(compose("NPC '", npc_id, "' not found"))),
    }
}

} // verus!
