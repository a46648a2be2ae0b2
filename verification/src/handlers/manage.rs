//! Renaming, deleting, joining and looking up files, and what the host tells of itself.

use vstd::prelude::*;
use vstd::string::*;

use crate::error::{storage_answer, JuicehostError, StorageError};
use crate::handlers::auth::{carried_capability, has_api_key, required_file_capability};
use crate::handlers::headers::{has_header, is_header_value, Headers};
use crate::handlers::json::{
    all_texts, json_list, json_text, texts_of, JsonObject, JsonPayload, JsonValue, JsonValueView,
};
use crate::handlers::reply::{
    json_reply, not_found_reply, redirect_reply, Reply, ReplyBody, ReplyBodyView, ReplyView,
};
use crate::handlers::upload::{stored, stored_reply};
use crate::state::AppState;
use crate::storage::names::{is_id, is_valid_id};
use crate::storage::{FileMetadata, StorageMetrics};
use crate::text::{same, text_view, trim_end_char, views, without_trailing};

verus! {

/// The reply of the index page: a permanent redirect to the frontend, or nothing.
pub fn index_handler(frontend_url: Option<&str>) -> (r: Reply)
    requires
        frontend_url is Some ==> is_header_value(frontend_url->0@),
    ensures
        r@ == (match frontend_url {
            Some(url) => redirect_reply(308, url@),
            None => not_found_reply(),
        }),
        frontend_url is Some ==> r@.status == 308 && r@.body is Empty && r@.headers == seq![
            ("location"@, frontend_url->0@),
        ],
        frontend_url is None ==> r@.status == 404 && r@.body is NotFoundPage,
{
    match frontend_url {
        Some(url) => Reply::redirect(308, url),
        None => Reply::not_found(),
    }
}

/// A rename that may be done.
#[derive(Debug, PartialEq, Eq)]
pub struct RenamePlan {
    pub new_id: String,
    pub capability: Option<String>,
}

/// What a rename asks for. The new ID must be valid, and the request must carry the API key or a
/// capability.
pub fn rename_file(payload: &JsonPayload, headers: &Headers, api_key: &str) -> (r: Result<
    RenamePlan,
    JuicehostError,
>)
    ensures
        match r {
            Ok(plan) => {
                &&& json_text(*payload, "new_id"@) == Some(plan.new_id@)
                &&& is_id(plan.new_id@)
                &&& if has_api_key(headers@, api_key@) {
                    plan.capability is None
                } else {
                    plan.capability is Some && carried_capability(headers@) == text_view(
                        plan.capability,
                    )
                }
            },
            Err(e) => if json_text(*payload, "new_id"@) is Some && is_id(
                json_text(*payload, "new_id"@)->0,
            ) {
                e == JuicehostError::Forbidden && !has_api_key(headers@, api_key@)
                    && carried_capability(headers@) is None
            } else {
                e == JuicehostError::BadRequest
            },
        },
{
    let new_id = match payload.text("new_id") {
        Some(id) => id,
        None => return Err(JuicehostError::BadRequest),
    };
    if !is_valid_id(new_id) {
        return Err(JuicehostError::BadRequest);
    }
    match required_file_capability(headers, api_key) {
        Ok(capability) => Ok(RenamePlan { new_id: new_id.to_owned(), capability }),
        Err(e) => Err(e),
    }
}

/// The reply to a rename that was done.
pub open spec fn renamed_reply(old_id: Seq<char>, new_id: Seq<char>) -> ReplyView {
    json_reply(
        seq![
            ("status"@, JsonValueView::Text("ok"@)),
            ("old_id"@, JsonValueView::Text(old_id)),
            ("new_id"@, JsonValueView::Text(new_id)),
        ],
    )
}

/// The reply to a rename.
pub fn rename_done(old_id: &str, new_id: &str, outcome: Result<(), StorageError>) -> (r: Result<
    Reply,
    JuicehostError,
>)
    ensures
        match (outcome, r) {
            (Ok(_), Ok(reply)) => reply@ == renamed_reply(old_id@, new_id@) && reply@.status == 200
                && reply@.body == ReplyBodyView::Json(
                seq![
                    ("status"@, JsonValueView::Text("ok"@)),
                    ("old_id"@, JsonValueView::Text(old_id@)),
                    ("new_id"@, JsonValueView::Text(new_id@)),
                ],
            ),
            (Err(a), Err(b)) => b == storage_answer(a),
            _ => false,
        },
{
    match outcome {
        Ok(_) => {
            let object = JsonObject::new().with("status", JsonValue::Text("ok".to_owned())).with(
                "old_id",
                JsonValue::Text(old_id.to_owned()),
            ).with("new_id", JsonValue::Text(new_id.to_owned()));
            assert(object@ =~= seq![
                ("status"@, JsonValueView::Text("ok"@)),
                ("old_id"@, JsonValueView::Text(old_id@)),
                ("new_id"@, JsonValueView::Text(new_id@)),
            ]);
            Ok(Reply::json(object))
        },
        Err(e) => Err(JuicehostError::from(e)),
    }
}

/// The capability that a deletion needs.
pub fn delete_file(headers: &Headers, api_key: &str) -> (r: Result<Option<String>, JuicehostError>)
    ensures
        match r {
            Ok(None) => has_api_key(headers@, api_key@),
            Ok(Some(capability)) => !has_api_key(headers@, api_key@) && carried_capability(headers@)
                == Some(capability@),
            Err(e) => !has_api_key(headers@, api_key@) && carried_capability(headers@) is None && e
                == JuicehostError::Forbidden,
        },
{
    required_file_capability(headers, api_key)
}

/// The reply to a deletion: nothing, or that there was no such file.
pub fn delete_done(outcome: Result<bool, StorageError>) -> (r: Result<Reply, JuicehostError>)
    ensures
        match (outcome, r) {
            (Ok(true), Ok(reply)) => reply@ == (ReplyView {
                status: 204,
                headers: Seq::empty(),
                body: ReplyBodyView::Empty,
            }),
            (Ok(false), Err(e)) => e == JuicehostError::NotFound,
            (Err(a), Err(b)) => b == storage_answer(a),
            _ => false,
        },
{
    match outcome {
        Ok(true) => Ok(Reply::new(204, ReplyBody::Empty)),
        Ok(false) => Err(JuicehostError::NotFound),
        Err(e) => Err(JuicehostError::from(e)),
    }
}

/// Whether a lookup may be done: the ID must be valid.
pub fn stat_file(id: &str) -> (r: Result<(), JuicehostError>)
    ensures
        r == (if is_id(id@) {
            Ok::<(), JuicehostError>(())
        } else {
            Err(JuicehostError::BadRequest)
        }),
{
    if is_valid_id(id) {
        Ok(())
    } else {
        Err(JuicehostError::BadRequest)
    }
}

/// What is told of a file that is stored.
pub open spec fn present_reply(id: Seq<char>, size: u64, extension: Seq<char>) -> ReplyView {
    json_reply(
        seq![
            ("exists"@, JsonValueView::Flag(true)),
            ("id"@, JsonValueView::Text(id)),
            ("size_bytes"@, JsonValueView::Number(size)),
            ("extension"@, JsonValueView::Text(extension)),
        ],
    )
}

/// What is told of a file that is not stored.
pub open spec fn absent_reply(id: Seq<char>) -> ReplyView {
    json_reply(
        seq![("exists"@, JsonValueView::Flag(false)), ("id"@, JsonValueView::Text(id))],
    )
}

/// The reply to a lookup.
pub fn stat_done(id: &str, outcome: Result<FileMetadata, StorageError>) -> (r: Result<
    Reply,
    JuicehostError,
>)
    ensures
        match (outcome, r) {
            (Ok(meta), Ok(reply)) => reply@ == present_reply(id@, meta.size, meta.extension@)
                && reply@.status == 200 && reply@.body == ReplyBodyView::Json(
                seq![
                    ("exists"@, JsonValueView::Flag(true)),
                    ("id"@, JsonValueView::Text(id@)),
                    ("size_bytes"@, JsonValueView::Number(meta.size)),
                    ("extension"@, JsonValueView::Text(meta.extension@)),
                ],
            ),
            (Err(StorageError::NotFound), Ok(reply)) => reply@ == absent_reply(id@)
                && reply@.status == 200 && reply@.body == ReplyBodyView::Json(
                seq![("exists"@, JsonValueView::Flag(false)), ("id"@, JsonValueView::Text(id@))],
            ),
            (Err(a), Err(b)) => a != StorageError::NotFound && b
                == JuicehostError::InternalServerError,
            _ => false,
        },
{
    match outcome {
        Ok(meta) => {
            let object = JsonObject::new().with("exists", JsonValue::Flag(true)).with(
                "id",
                JsonValue::Text(id.to_owned()),
            ).with("size_bytes", JsonValue::Number(meta.size)).with(
                "extension",
                JsonValue::Text(meta.extension),
            );
            assert(object@ =~= seq![
                ("exists"@, JsonValueView::Flag(true)),
                ("id"@, JsonValueView::Text(id@)),
                ("size_bytes"@, JsonValueView::Number(meta.size)),
                ("extension"@, JsonValueView::Text(meta.extension@)),
            ]);
            Ok(Reply::json(object))
        },
        Err(StorageError::NotFound) => {
            let object = JsonObject::new().with("exists", JsonValue::Flag(false)).with(
                "id",
                JsonValue::Text(id.to_owned()),
            );
            assert(object@ =~= seq![
                ("exists"@, JsonValueView::Flag(false)),
                ("id"@, JsonValueView::Text(id@)),
            ]);
            Ok(Reply::json(object))
        },
        Err(_) => Err(JuicehostError::InternalServerError),
    }
}

/// Where the health of the backend is asked for, if it is. A request that is such a question
/// itself asks no further.
pub fn health(headers: &Headers, backend_url: Option<&str>) -> (r: Option<String>)
    ensures
        text_view(r) == (if has_header(headers@, "x-health-probe"@) {
            None
        } else {
            match backend_url {
                Some(url) => Some(without_trailing(url@, '/') + "/api/health"@),
                None => None,
            }
        }),
{
    if headers.contains("x-health-probe") {
        return None;
    }
    match backend_url {
        Some(url) => Some(trim_end_char(url, '/').to_owned().concat("/api/health")),
        None => None,
    }
}

/// Tells whether the backend is well: it answered with success, with JSON, and with `ok`.
pub fn check_backend_health(answer: Option<JsonPayload>) -> (r: bool)
    ensures
        r == (answer is Some && json_text(answer->0, "status"@) == Some("ok"@)),
{
    match answer {
        Some(body) => match body.text("status") {
            Some(status) => same(status, "ok"),
            None => false,
        },
        None => false,
    }
}

/// What is told of the health of the host.
pub open spec fn health_fields(version: Seq<char>, backend: Option<bool>) -> Seq<
    (Seq<char>, JsonValueView),
> {
    let own = seq![
        ("status"@, JsonValueView::Text("ok"@)),
        ("version"@, JsonValueView::Text(version)),
        ("juicehost"@, JsonValueView::Text("ok"@)),
    ];
    match backend {
        None => own,
        Some(well) => own.push(
            (
                "juiceback"@,
                JsonValueView::Text(
                    if well {
                        "ok"@
                    } else {
                        "unreachable"@
                    },
                ),
            ),
        ),
    }
}

/// The reply that tells the health of the host, and that of the backend where it was asked for.
pub fn health_reply(version: &str, backend: Option<bool>) -> (r: Reply)
    ensures
        r@ == json_reply(health_fields(version@, backend)),
        r@.status == 200,
        r@.body == ReplyBodyView::Json(
            match backend {
                None => seq![
                    ("status"@, JsonValueView::Text("ok"@)),
                    ("version"@, JsonValueView::Text(version@)),
                    ("juicehost"@, JsonValueView::Text("ok"@)),
                ],
                Some(well) => seq![
                    ("status"@, JsonValueView::Text("ok"@)),
                    ("version"@, JsonValueView::Text(version@)),
                    ("juicehost"@, JsonValueView::Text("ok"@)),
                    (
                        "juiceback"@,
                        JsonValueView::Text(
                            if well {
                                "ok"@
                            } else {
                                "unreachable"@
                            },
                        ),
                    ),
                ],
            },
        ),
{
    let own = JsonObject::new().with("status", JsonValue::Text("ok".to_owned())).with(
        "version",
        JsonValue::Text(version.to_owned()),
    ).with("juicehost", JsonValue::Text("ok".to_owned()));
    assert(own@ =~= health_fields(version@, None));
    assert(health_fields(version@, Some(true)) =~= seq![
        ("status"@, JsonValueView::Text("ok"@)),
        ("version"@, JsonValueView::Text(version@)),
        ("juicehost"@, JsonValueView::Text("ok"@)),
        ("juiceback"@, JsonValueView::Text("ok"@)),
    ]);
    assert(health_fields(version@, Some(false)) =~= seq![
        ("status"@, JsonValueView::Text("ok"@)),
        ("version"@, JsonValueView::Text(version@)),
        ("juicehost"@, JsonValueView::Text("ok"@)),
        ("juiceback"@, JsonValueView::Text("unreachable"@)),
    ]);
    match backend {
        None => Reply::json(own),
        Some(well) => {
            let text = if well {
                "ok"
            } else {
                "unreachable"
            };
            Reply::json(own.with("juiceback", JsonValue::Text(text.to_owned())))
        },
    }
}

/// What is told of the storage.
pub open spec fn metrics_fields(metrics: StorageMetrics) -> Seq<(Seq<char>, JsonValueView)> {
    seq![
        ("total_bytes"@, JsonValueView::Number(metrics.total_bytes)),
        ("used_bytes"@, JsonValueView::Number(metrics.used_bytes)),
        ("free_bytes"@, JsonValueView::Number(metrics.free_bytes)),
        ("min_free_bytes"@, JsonValueView::Number(metrics.min_free_bytes)),
        ("out_of_space"@, JsonValueView::Flag(metrics.out_of_space)),
    ]
}

/// The reply that tells the capacity of the storage.
pub fn storage_handler(metrics: &StorageMetrics) -> (r: Reply)
    ensures
        r@ == json_reply(metrics_fields(*metrics)),
        r@.status == 200,
        r@.body == ReplyBodyView::Json(
            seq![
                ("total_bytes"@, JsonValueView::Number(metrics.total_bytes)),
                ("used_bytes"@, JsonValueView::Number(metrics.used_bytes)),
                ("free_bytes"@, JsonValueView::Number(metrics.free_bytes)),
                ("min_free_bytes"@, JsonValueView::Number(metrics.min_free_bytes)),
                ("out_of_space"@, JsonValueView::Flag(metrics.out_of_space)),
            ],
        ),
{
    let object = JsonObject::new().with(
        "total_bytes",
        JsonValue::Number(metrics.total_bytes),
    ).with("used_bytes", JsonValue::Number(metrics.used_bytes)).with(
        "free_bytes",
        JsonValue::Number(metrics.free_bytes),
    ).with("min_free_bytes", JsonValue::Number(metrics.min_free_bytes)).with(
        "out_of_space",
        JsonValue::Flag(metrics.out_of_space),
    );
    assert(object@ =~= metrics_fields(*metrics));
    Reply::json(object)
}

/// What is told of the upload configuration.
pub open spec fn config_fields(state: AppState) -> Seq<(Seq<char>, JsonValueView)> {
    seq![
        ("max_file_size_bytes"@, JsonValueView::Number(state.max_file_size_bytes)),
        ("default_ttl_hours"@, JsonValueView::Real(state.default_ttl_hours)),
        ("allowed_ttl_hours"@, JsonValueView::Reals(state.allowed_ttl_hours@)),
        (
            "danger_level"@,
            JsonValueView::Text(crate::config::security::level_name(state.danger_level)),
        ),
        ("quick_link"@, JsonValueView::Flag(state.quick_link)),
        ("custom_id"@, JsonValueView::Flag(state.custom_id)),
        ("ultrafast"@, JsonValueView::Flag(state.ticket_jwt_secret@.len() > 0)),
    ]
}

/// The reply that tells the upload configuration.
pub fn config_handler(state: &AppState) -> (r: Reply)
    ensures
        r@ == json_reply(config_fields(*state)),
        r@.status == 200,
        r@.body == ReplyBodyView::Json(
            seq![
                ("max_file_size_bytes"@, JsonValueView::Number(state.max_file_size_bytes)),
                ("default_ttl_hours"@, JsonValueView::Real(state.default_ttl_hours)),
                ("allowed_ttl_hours"@, JsonValueView::Reals(state.allowed_ttl_hours@)),
                (
                    "danger_level"@,
                    JsonValueView::Text(crate::config::security::level_name(state.danger_level)),
                ),
                ("quick_link"@, JsonValueView::Flag(state.quick_link)),
                ("custom_id"@, JsonValueView::Flag(state.custom_id)),
                ("ultrafast"@, JsonValueView::Flag(state.ticket_jwt_secret@.len() > 0)),
            ],
        ),
{
    let object = JsonObject::new().with(
        "max_file_size_bytes",
        JsonValue::Number(state.max_file_size_bytes),
    ).with("default_ttl_hours", JsonValue::Real(state.default_ttl_hours)).with(
        "allowed_ttl_hours",
        JsonValue::Reals(crate::config::copy_numbers(&state.allowed_ttl_hours)),
    ).with("danger_level", JsonValue::Text(state.danger_level.as_str().to_owned())).with(
        "quick_link",
        JsonValue::Flag(state.quick_link),
    ).with("custom_id", JsonValue::Flag(state.custom_id)).with(
        "ultrafast",
        JsonValue::Flag(state.ticket_jwt_secret.as_str().unicode_len() > 0),
    );
    assert(object@ =~= config_fields(*state));
    Reply::json(object)
}

/// What is to be done next for a concatenation.
#[derive(Debug, PartialEq, Eq)]
pub enum ConcatStep {
    /// Look up the size of a part; those before it have `aggregate` bytes.
    Stat { index: usize, aggregate: u64 },
    /// Try to get a permit for an upload.
    Permit,
    /// Concatenate the parts.
    Store { capability: Option<String> },
    /// Send the reply.
    Finished { result: Result<Reply, JuicehostError> },
}

/// What came of a step.
#[derive(Debug, PartialEq, Eq)]
pub enum ConcatEvent {
    /// The size of the part.
    Stat(Result<u64, StorageError>),
    /// Whether there is a permit.
    Permit(bool),
    Stored(Result<(), StorageError>),
}

/// A request to concatenate stored files.
#[derive(Debug, PartialEq, Eq)]
pub struct ConcatFiles {
    pub target_id: String,
    pub filename: String,
    pub parts: Vec<String>,
    pub headers: Headers,
    pub api_key: String,
    /// The most bytes that the new file may have.
    pub max_size: u64,
    pub step: ConcatStep,
}

/// What is to be done next for a concatenation.
pub enum ConcatStepView {
    Stat { index: usize, aggregate: u64 },
    Permit,
    Store { capability: Option<Seq<char>> },
    Finished { result: Result<ReplyView, JuicehostError> },
}

/// A concatenation as it stands.
pub struct ConcatView {
    pub target_id: Seq<char>,
    pub filename: Seq<char>,
    pub parts: Seq<Seq<char>>,
    pub headers: Seq<(Seq<char>, Option<Seq<char>>)>,
    pub api_key: Seq<char>,
    pub max_size: u64,
    pub step: ConcatStepView,
}

impl View for ConcatStep {
    type V = ConcatStepView;

    open spec fn view(&self) -> ConcatStepView {
        match self {
            ConcatStep::Stat { index, aggregate } => ConcatStepView::Stat {
                index: *index,
                aggregate: *aggregate,
            },
            ConcatStep::Permit => ConcatStepView::Permit,
            ConcatStep::Store { capability } => ConcatStepView::Store {
                capability: text_view(*capability),
            },
            ConcatStep::Finished { result } => ConcatStepView::Finished {
                result: match result {
                    Ok(reply) => Ok(reply@),
                    Err(e) => Err(*e),
                },
            },
        }
    }
}

impl View for ConcatFiles {
    type V = ConcatView;

    open spec fn view(&self) -> ConcatView {
        ConcatView {
            target_id: self.target_id@,
            filename: self.filename@,
            parts: views(self.parts@),
            headers: self.headers@,
            api_key: self.api_key@,
            max_size: self.max_size,
            step: self.step@,
        }
    }
}

/// Whether parts can be concatenated to a target: there are some, not too many and no two alike,
/// and all IDs are valid and other than that of the target.
pub open spec fn can_concat(target: Seq<char>, parts: Seq<Seq<char>>, max_parts: usize) -> bool {
    &&& 0 < parts.len() <= max_parts
    &&& parts.no_duplicates()
    &&& is_id(target)
    &&& forall|i: int| 0 <= i < parts.len() ==> is_id(#[trigger] parts[i]) && parts[i] != target
}

impl ConcatView {
    /// The part that the step is about is one of the parts.
    pub open spec fn valid(self) -> bool {
        &&& self.parts.len() <= usize::MAX
        &&& self.step matches ConcatStepView::Stat { index, .. } ==> index < self.parts.len()
    }

    /// What is to be done after the event. An event that does not answer the step changes nothing.
    pub open spec fn step_after(self, event: ConcatEvent) -> ConcatStepView {
        match (self.step, event) {
            (ConcatStepView::Stat { index, aggregate }, ConcatEvent::Stat(outcome)) =>
            match outcome {
                Err(e) => ConcatStepView::Finished { result: Err(storage_answer(e)) },
                Ok(size) => if aggregate + size > u64::MAX || aggregate + size > self.max_size {
                    ConcatStepView::Finished { result: Err(JuicehostError::PayloadTooLarge) }
                } else if index + 1 < self.parts.len() {
                    ConcatStepView::Stat {
                        index: (index + 1) as usize,
                        aggregate: (aggregate + size) as u64,
                    }
                } else {
                    ConcatStepView::Permit
                },
            },
            (ConcatStepView::Permit, ConcatEvent::Permit(granted)) => if !granted {
                ConcatStepView::Finished { result: Err(JuicehostError::ServiceUnavailable) }
            } else if has_api_key(self.headers, self.api_key) {
                ConcatStepView::Store { capability: None }
            } else if carried_capability(self.headers) is Some {
                ConcatStepView::Store { capability: carried_capability(self.headers) }
            } else {
                ConcatStepView::Finished { result: Err(JuicehostError::Forbidden) }
            },
            (ConcatStepView::Store { .. }, ConcatEvent::Stored(outcome)) =>
            ConcatStepView::Finished {
                result: match outcome {
                    Ok(_) => Ok(stored_reply(self.target_id)),
                    Err(e) => Err(storage_answer(e)),
                },
            },
            (step, _) => step,
        }
    }
}

fn can_be_joined(target: &str, parts: &Vec<String>, max_parts: usize) -> (r: bool)
    ensures
        r == can_concat(target@, views(parts@), max_parts),
{
    if parts.len() == 0 || parts.len() > max_parts || !is_valid_id(target) {
        return false;
    }
    let mut i: usize = 0;
    while i < parts.len()
        invariant
            i <= parts@.len(),
            forall|j: int|
                0 <= j < i ==> is_id(#[trigger] views(parts@)[j]) && views(parts@)[j] != target@,
            forall|j: int, k: int|
                0 <= j < k < i ==> #[trigger] views(parts@)[j] != #[trigger] views(parts@)[k],
        decreases parts@.len() - i,
    {
        let part = parts[i].as_str();
        assert(views(parts@)[i as int] == part@);
        if !is_valid_id(part) || same(part, target) {
            return false;
        }
        let mut j: usize = 0;
        while j < i
            invariant
                j <= i < parts@.len(),
                views(parts@)[i as int] == part@,
                forall|k: int| 0 <= k < j ==> #[trigger] views(parts@)[k] != part@,
            decreases i - j,
        {
            if same(parts[j].as_str(), part) {
                assert(views(parts@)[j as int] == views(parts@)[i as int]);
                return false;
            }
            j = j + 1;
        }
        i = i + 1;
    }
    true
}

/// Starts to concatenate stored files.
pub fn concat_files(
    payload: &JsonPayload,
    headers: Headers,
    api_key: &str,
    max_parts: usize,
    max_size: u64,
) -> (r: Result<ConcatFiles, JuicehostError>)
    ensures
        match r {
            Ok(concat) => {
                &&& concat@.valid()
                &&& json_text(*payload, "target_id"@) == Some(concat@.target_id)
                &&& concat@.filename == (match json_text(*payload, "filename"@) {
                    Some(name) => name,
                    None => "upload.bin"@,
                })
                &&& json_list(*payload, "parts"@) matches Some(list)
                &&& all_texts(list)
                &&& concat@.parts == texts_of(list)
                &&& can_concat(concat@.target_id, concat@.parts, max_parts)
                &&& concat@.headers == headers@
                &&& concat@.api_key == api_key@
                &&& concat@.max_size == max_size
                &&& concat@.step == (ConcatStepView::Stat { index: 0, aggregate: 0 })
            },
            Err(e) => {
                &&& e == JuicehostError::BadRequest
                &&& !(json_text(*payload, "target_id"@) matches Some(target) && (json_list(
                    *payload,
                    "parts"@,
                ) matches Some(list) && all_texts(list) && can_concat(
                    target,
                    texts_of(list),
                    max_parts,
                )))
            },
        },
        r is Ok <==> {
            let parts = texts_of(json_list(*payload, "parts"@)->0);
            &&& json_text(*payload, "target_id"@) is Some
            &&& json_list(*payload, "parts"@) is Some
            &&& all_texts(json_list(*payload, "parts"@)->0)
            &&& 0 < parts.len() <= max_parts
            &&& is_id(json_text(*payload, "target_id"@)->0)
            &&& forall|i: int| 0 <= i < parts.len() ==> is_id(#[trigger] parts[i])
            &&& forall|i: int|
                0 <= i < parts.len() ==> #[trigger] parts[i] != json_text(
                    *payload,
                    "target_id"@,
                )->0
            &&& forall|i: int, j: int|
                0 <= i < j < parts.len() ==> #[trigger] parts[i] != #[trigger] parts[j]
        },
{
    let target = match payload.text("target_id") {
        Some(id) => id,
        None => return Err(JuicehostError::BadRequest),
    };
    let filename = match payload.text("filename") {
        Some(name) => name,
        None => "upload.bin",
    };
    let parts = match payload.texts("parts") {
        Some(parts) => parts,
        None => return Err(JuicehostError::BadRequest),
    };
    if !can_be_joined(target, &parts, max_parts) {
        return Err(JuicehostError::BadRequest);
    }
    assert(parts.len() <= usize::MAX);
    Ok(
        ConcatFiles {
            target_id: target.to_owned(),
            filename: filename.to_owned(),
            parts,
            headers,
            api_key: api_key.to_owned(),
            max_size,
            step: ConcatStep::Stat { index: 0, aggregate: 0 },
        },
    )
}

impl ConcatFiles {
    /// Goes on with what came of the step.
    pub fn step(self, event: ConcatEvent) -> (r: ConcatFiles)
        requires
            self@.valid(),
        ensures
            r@.valid(),
            r@ == (ConcatView { step: self@.step_after(event), ..self@ }),
    {
        let ConcatFiles { target_id, filename, parts, headers, api_key, max_size, step } = self;
        let count: usize = parts.len();
        let next = match (step, event) {
            (ConcatStep::Stat { index, aggregate }, ConcatEvent::Stat(outcome)) => match outcome {
                Err(e) => ConcatStep::Finished { result: Err(JuicehostError::from(e)) },
                Ok(size) => match aggregate.checked_add(size) {
                    None => ConcatStep::Finished { result: Err(JuicehostError::PayloadTooLarge) },
                    Some(aggregate) => if aggregate > max_size {
                        ConcatStep::Finished { result: Err(JuicehostError::PayloadTooLarge) }
                    } else if index + 1 < count {
                        ConcatStep::Stat { index: index + 1, aggregate }
                    } else {
                        ConcatStep::Permit
                    },
                },
            },
            (ConcatStep::Permit, ConcatEvent::Permit(granted)) => if !granted {
                ConcatStep::Finished { result: Err(JuicehostError::ServiceUnavailable) }
            } else {
                match required_file_capability(&headers, api_key.as_str()) {
                    Ok(capability) => ConcatStep::Store { capability },
                    Err(e) => ConcatStep::Finished { result: Err(e) },
                }
            },
            (ConcatStep::Store { .. }, ConcatEvent::Stored(outcome)) => {
                let result = match outcome {
                    Ok(_) => Ok(stored(target_id.as_str())),
                    Err(e) => Err(JuicehostError::from(e)),
                };
                ConcatStep::Finished { result }
            },
            (step, _) => step,
        };
        ConcatFiles { target_id, filename, parts, headers, api_key, max_size, step: next }
    }
}

/// A concatenation after a sequence of events, and the sizes that the parts were found to have.
pub open spec fn concat_run(concat: ConcatView, events: Seq<ConcatEvent>) -> (
    ConcatStepView,
    Seq<u64>,
)
    decreases events.len(),
{
    if events.len() == 0 {
        (concat.step, Seq::empty())
    } else {
        let (step, sizes) = concat_run(concat, events.drop_last());
        let next = (ConcatView { step, ..concat }).step_after(events.last());
        match (step, events.last()) {
            (ConcatStepView::Stat { .. }, ConcatEvent::Stat(Ok(size))) => (next, sizes.push(size)),
            _ => (next, sizes),
        }
    }
}

proof fn lemma_concat_run(concat: ConcatView, events: Seq<ConcatEvent>)
    requires
        concat.parts.len() > 0,
        concat.parts.len() <= usize::MAX,
        concat.step == (ConcatStepView::Stat { index: 0, aggregate: 0 }),
    ensures
        ({
            let (step, sizes) = concat_run(concat, events);
            let total = crate::handlers::upload::size_total(sizes);
            match step {
                ConcatStepView::Stat { index, aggregate } => index < concat.parts.len() && index
                    == sizes.len() && aggregate == total && total <= concat.max_size,
                ConcatStepView::Permit | ConcatStepView::Store { .. } => sizes.len()
                    == concat.parts.len() && total <= concat.max_size,
                ConcatStepView::Finished { result } => result is Ok ==> sizes.len()
                    == concat.parts.len() && total <= concat.max_size,
            }
        }),
    decreases events.len(),
{
    if events.len() > 0 {
        lemma_concat_run(concat, events.drop_last());
        let (step, sizes) = concat_run(concat, events.drop_last());
        match (step, events.last()) {
            (ConcatStepView::Stat { .. }, ConcatEvent::Stat(Ok(size))) => {
                assert(sizes.push(size).drop_last() =~= sizes);
            },
            _ => {},
        }
    }
}

/// Parts are concatenated only once the size of each was looked up, and only where all together
/// are no larger than a file may be.
pub proof fn concatenation_fits(concat: ConcatView, events: Seq<ConcatEvent>)
    requires
        concat.parts.len() > 0,
        concat.parts.len() <= usize::MAX,
        concat.step == (ConcatStepView::Stat { index: 0, aggregate: 0 }),
    ensures
        ({
            let (step, sizes) = concat_run(concat, events);
            step is Store ==> sizes.len() == concat.parts.len()
                && crate::handlers::upload::size_total(sizes) <= concat.max_size
        }),
{
    lemma_concat_run(concat, events);
}

/// Parts may be called anything that is a valid ID, as long as no two are the same and none is the
/// target: that their names begin, end or overlap with that of the target does not matter.
pub proof fn parts_need_only_differ(target: Seq<char>, parts: Seq<Seq<char>>, max_parts: usize)
    requires
        parts.len() > 0,
        is_id(target),
        forall|i: int| 0 <= i < parts.len() ==> is_id(#[trigger] parts[i]),
    ensures
        can_concat(target, parts, max_parts) <==> (parts.len() <= max_parts && !parts.contains(
            target,
        ) && (forall|i: int, j: int|
            0 <= i < j < parts.len() ==> #[trigger] parts[i] != #[trigger] parts[j])),
{
    if parts.contains(target) {
        let i = choose|i: int| 0 <= i < parts.len() && parts[i] == target;
        assert(parts[i] == target);
    }
}

/// One more part, which is a valid ID other than the target and the parts, can be joined too where
/// there is room for it; in any order; and what cannot be joined stays so with one more part.
pub proof fn joining_goes_part_by_part(
    target: Seq<char>,
    parts: Seq<Seq<char>>,
    part: Seq<char>,
    max_parts: usize,
)
    requires
        parts.len() > 0,
    ensures
        can_concat(target, parts.push(part), max_parts) <==> (parts.len() < max_parts && can_concat(
            target,
            parts,
            max_parts,
        ) && is_id(part) && part != target && !parts.contains(part)),
        can_concat(target, parts.reverse(), max_parts) <==> can_concat(target, parts, max_parts),
{
    let more = parts.push(part);
    assert(more[parts.len() as int] == part);
    assert forall|i: int| 0 <= i < parts.len() implies #[trigger] more[i] == parts[i] by {}
    if can_concat(target, more, max_parts) {
        assert forall|i: int| 0 <= i < parts.len() implies is_id(#[trigger] parts[i]) && parts[i]
            != target by {
            assert(more[i] == parts[i]);
        }
        assert forall|i: int, j: int| 0 <= i < parts.len() && 0 <= j < parts.len() && i != j implies
            parts[i] != parts[j] by {
            assert(more[i] != more[j]);
        }
        if parts.contains(part) {
            let i = choose|i: int| 0 <= i < parts.len() && parts[i] == part;
            assert(more[i] == more[parts.len() as int]);
        }
    }
    let back = parts.reverse();
    let n = parts.len() as int;
    if can_concat(target, parts, max_parts) {
        assert forall|i: int| 0 <= i < n implies is_id(#[trigger] back[i]) && back[i] != target by {
            assert(back[i] == parts[n - 1 - i]);
        }
        assert forall|i: int, j: int| 0 <= i < n && 0 <= j < n && i != j implies back[i]
            != back[j] by {
            assert(parts[n - 1 - i] != parts[n - 1 - j]);
        }
    }
    if can_concat(target, back, max_parts) {
        assert forall|i: int| 0 <= i < n implies is_id(#[trigger] parts[i]) && parts[i] != target by {
            assert(back[n - 1 - i] == parts[i]);
        }
        assert forall|i: int, j: int| 0 <= i < n && 0 <= j < n && i != j implies parts[i]
            != parts[j] by {
            assert(back[n - 1 - i] != back[n - 1 - j]);
        }
    }
}

/// The events that tell the sizes of parts.
pub open spec fn sizes_told(sizes: Seq<u64>) -> Seq<ConcatEvent> {
    Seq::new(sizes.len(), |i: int| ConcatEvent::Stat(Ok(sizes[i])))
}

proof fn lemma_sizes_told(concat: ConcatView, sizes: Seq<u64>)
    requires
        sizes.len() <= concat.parts.len() <= usize::MAX,
        concat.step == (ConcatStepView::Stat { index: 0, aggregate: 0 }),
        crate::handlers::upload::size_total(sizes) <= concat.max_size,
    ensures
        concat_run(concat, sizes_told(sizes)).0 == (if sizes.len() == concat.parts.len()
            && sizes.len() > 0 {
            ConcatStepView::Permit
        } else {
            ConcatStepView::Stat {
                index: sizes.len() as usize,
                aggregate: crate::handlers::upload::size_total(sizes) as u64,
            }
        }),
    decreases sizes.len(),
{
    if sizes.len() > 0 {
        let fewer = sizes.drop_last();
        lemma_sizes_told(concat, fewer);
        assert(sizes_told(sizes).drop_last() =~= sizes_told(fewer));
        assert(sizes_told(sizes).last() == ConcatEvent::Stat(Ok(sizes.last())));
    }
}

/// A concatenation whose parts are found and together no larger than a file may be is done, for whom
/// has the API key or carries a capability; without a permit it is put off, and without key and
/// capability it is refused.
pub proof fn concatenation_that_fits_is_done(concat: ConcatView, sizes: Seq<u64>, permit: bool)
    requires
        0 < concat.parts.len() <= usize::MAX,
        sizes.len() == concat.parts.len(),
        concat.step == (ConcatStepView::Stat { index: 0, aggregate: 0 }),
        crate::handlers::upload::size_total(sizes) <= concat.max_size,
    ensures
        ({
            let events = sizes_told(sizes).push(ConcatEvent::Permit(permit));
            let step = concat_run(concat, events).0;
            if !permit {
                step == (ConcatStepView::Finished {
                    result: Err(JuicehostError::ServiceUnavailable),
                })
            } else if has_api_key(concat.headers, concat.api_key) {
                step == (ConcatStepView::Store { capability: None })
            } else if carried_capability(concat.headers) is Some {
                step == (ConcatStepView::Store { capability: carried_capability(concat.headers) })
            } else {
                step == (ConcatStepView::Finished { result: Err(JuicehostError::Forbidden) })
            }
        }),
{
    lemma_sizes_told(concat, sizes);
    let told = sizes_told(sizes);
    assert(told.push(ConcatEvent::Permit(permit)).drop_last() =~= told);
}

/// Parts that are together larger than a file may be are refused as soon as they are known to be.
pub proof fn concatenation_that_is_too_large_is_refused(
    concat: ConcatView,
    sizes: Seq<u64>,
    size: u64,
)
    requires
        sizes.len() < concat.parts.len() <= usize::MAX,
        concat.step == (ConcatStepView::Stat { index: 0, aggregate: 0 }),
        crate::handlers::upload::size_total(sizes) <= concat.max_size,
        crate::handlers::upload::size_total(sizes) + size > concat.max_size,
    ensures
        concat_run(concat, sizes_told(sizes.push(size))).0 == (ConcatStepView::Finished {
            result: Err(JuicehostError::PayloadTooLarge),
        }),
{
    lemma_sizes_told(concat, sizes);
    assert(sizes_told(sizes.push(size)).drop_last() =~= sizes_told(sizes));
}

/// A part that cannot be looked up ends the concatenation with that error, whatever was found before
/// it.
pub proof fn missing_part_ends_the_concatenation(
    concat: ConcatView,
    sizes: Seq<u64>,
    error: StorageError,
)
    requires
        sizes.len() < concat.parts.len() <= usize::MAX,
        concat.step == (ConcatStepView::Stat { index: 0, aggregate: 0 }),
        crate::handlers::upload::size_total(sizes) <= concat.max_size,
    ensures
        concat_run(concat, sizes_told(sizes).push(ConcatEvent::Stat(Err(error)))).0 == (
        ConcatStepView::Finished { result: Err(storage_answer(error)) }),
{
    lemma_sizes_told(concat, sizes);
    let told = sizes_told(sizes);
    assert(told.push(ConcatEvent::Stat(Err(error))).drop_last() =~= told);
}

/// A concatenation that was stored is answered with the ID of the target, one that could not be with
/// the error of the storage.
pub proof fn concatenation_is_answered(
    concat: ConcatView,
    capability: Option<Seq<char>>,
    outcome: Result<(), StorageError>,
)
    requires
        concat.step == (ConcatStepView::Store { capability }),
    ensures
        concat.step_after(ConcatEvent::Stored(outcome)) matches ConcatStepView::Finished { result }
            && match (outcome, result) {
            (Ok(_), Ok(reply)) => reply.status == 200 && reply.body == ReplyBodyView::Json(
                seq![
                    ("status"@, JsonValueView::Text("ok"@)),
                    ("id"@, JsonValueView::Text(concat.target_id)),
                ],
            ),
            (Err(a), Err(b)) => b == storage_answer(a),
            _ => false,
        },
{
}

/// A request that has ended says no more, and nothing but an answer to what was asked moves it on.
pub proof fn concatenation_waits_for_its_answer(concat: ConcatView, event: ConcatEvent)
    ensures
        concat.step is Finished ==> concat.step_after(event) == concat.step,
        concat.step is Stat && !(event is Stat) ==> concat.step_after(event) == concat.step,
        concat.step is Permit && !(event is Permit) ==> concat.step_after(event) == concat.step,
        concat.step is Store && !(event is Stored) ==> concat.step_after(event) == concat.step,
{
}

} // verus!
