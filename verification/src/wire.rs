//! Tasks, cards and JSON-RPC messages of the A2A protocol.
//!
//! The `a2a` crate reads and writes the protocol's JSON. The rules of this
//! library work on a `Task` of their own, whose messages and artifacts stay
//! JSON documents in the form that the crate writes.

use vstd::prelude::*;

use crate::json::{
    array, as_items, as_members, get, member_text, no_members, object, text_value, with,
};
#[allow(unused_imports)]
use crate::json::{
    empty_members, json_of, jsons, lemma_readable_object, lemma_unreserved_array,
    lemma_unreserved_object, member_of, members_of, parsed_json, readable_within, reserved_name,
    text_items, text_member_of, text_member_or_empty, unreserved, JsonView,
};
#[allow(unused_imports)]
use crate::names::lemma_member_names;
use crate::text::same_text;

verus! {

/// The state of a task.
#[derive(Clone, Copy, Debug, PartialEq, Eq, Structural)]
pub enum TaskState {
    Unspecified,
    Submitted,
    Working,
    Completed,
    Failed,
    Canceled,
    InputRequired,
    Rejected,
    AuthRequired,
}

/// A state that a task does not leave again.
pub open spec fn terminal(state: TaskState) -> bool {
    state == TaskState::Completed || state == TaskState::Failed || state == TaskState::Canceled
        || state == TaskState::Rejected
}

/// The name of a state in the protocol's JSON.
pub open spec fn state_name(state: TaskState) -> Seq<char> {
    match state {
        TaskState::Unspecified => "TASK_STATE_UNSPECIFIED"@,
        TaskState::Submitted => "TASK_STATE_SUBMITTED"@,
        TaskState::Working => "TASK_STATE_WORKING"@,
        TaskState::Completed => "TASK_STATE_COMPLETED"@,
        TaskState::Failed => "TASK_STATE_FAILED"@,
        TaskState::Canceled => "TASK_STATE_CANCELED"@,
        TaskState::InputRequired => "TASK_STATE_INPUT_REQUIRED"@,
        TaskState::Rejected => "TASK_STATE_REJECTED"@,
        TaskState::AuthRequired => "TASK_STATE_AUTH_REQUIRED"@,
    }
}

/// The state by that name; any other name counts as unspecified.
pub open spec fn state_named(name: Seq<char>) -> TaskState {
    if name == state_name(TaskState::Submitted) {
        TaskState::Submitted
    } else if name == state_name(TaskState::Working) {
        TaskState::Working
    } else if name == state_name(TaskState::Completed) {
        TaskState::Completed
    } else if name == state_name(TaskState::Failed) {
        TaskState::Failed
    } else if name == state_name(TaskState::Canceled) {
        TaskState::Canceled
    } else if name == state_name(TaskState::InputRequired) {
        TaskState::InputRequired
    } else if name == state_name(TaskState::Rejected) {
        TaskState::Rejected
    } else if name == state_name(TaskState::AuthRequired) {
        TaskState::AuthRequired
    } else {
        TaskState::Unspecified
    }
}

impl TaskState {
    pub fn is_terminal(self) -> (yes: bool)
        ensures
            yes == terminal(self),
    {
        match self {
            TaskState::Completed
            | TaskState::Failed
            | TaskState::Canceled
            | TaskState::Rejected => true,
            _ => false,
        }
    }

    pub fn name(self) -> (name: &'static str)
        ensures
            name@ == state_name(self),
    {
        match self {
            TaskState::Unspecified => "TASK_STATE_UNSPECIFIED",
            TaskState::Submitted => "TASK_STATE_SUBMITTED",
            TaskState::Working => "TASK_STATE_WORKING",
            TaskState::Completed => "TASK_STATE_COMPLETED",
            TaskState::Failed => "TASK_STATE_FAILED",
            TaskState::Canceled => "TASK_STATE_CANCELED",
            TaskState::InputRequired => "TASK_STATE_INPUT_REQUIRED",
            TaskState::Rejected => "TASK_STATE_REJECTED",
            TaskState::AuthRequired => "TASK_STATE_AUTH_REQUIRED",
        }
    }

    pub fn from_name(name: &str) -> (state: Self)
        ensures
            state == state_named(name@),
    {
        if same_text(name, "TASK_STATE_SUBMITTED") {
            TaskState::Submitted
        } else if same_text(name, "TASK_STATE_WORKING") {
            TaskState::Working
        } else if same_text(name, "TASK_STATE_COMPLETED") {
            TaskState::Completed
        } else if same_text(name, "TASK_STATE_FAILED") {
            TaskState::Failed
        } else if same_text(name, "TASK_STATE_CANCELED") {
            TaskState::Canceled
        } else if same_text(name, "TASK_STATE_INPUT_REQUIRED") {
            TaskState::InputRequired
        } else if same_text(name, "TASK_STATE_REJECTED") {
            TaskState::Rejected
        } else if same_text(name, "TASK_STATE_AUTH_REQUIRED") {
            TaskState::AuthRequired
        } else {
            TaskState::Unspecified
        }
    }
}

/// A point in time: seconds since 1970 and nanoseconds into the second, with its
/// RFC 3339 text and the text that stands for it in the protocol's JSON.
#[derive(Debug)]
pub struct Timestamp {
    pub seconds: i64,
    pub nanos: u32,
    pub rfc3339: String,
    pub wire: String,
}

#[verifier::ext_equal]
pub struct TimestampView {
    pub seconds: int,
    pub nanos: int,
    pub rfc3339: Seq<char>,
    pub wire: Seq<char>,
}

impl View for Timestamp {
    type V = TimestampView;

    open spec fn view(&self) -> TimestampView {
        TimestampView {
            seconds: self.seconds as int,
            nanos: self.nanos as int,
            rfc3339: self.rfc3339@,
            wire: self.wire@,
        }
    }
}

impl Clone for Timestamp {
    fn clone(&self) -> (copy: Self)
        ensures
            copy@ == self@,
    {
        Timestamp {
            seconds: self.seconds,
            nanos: self.nanos,
            rfc3339: self.rfc3339.clone(),
            wire: self.wire.clone(),
        }
    }
}

/// Whether the first time is later than the second.
pub open spec fn is_later(time: TimestampView, than: TimestampView) -> bool {
    time.seconds > than.seconds || (time.seconds == than.seconds && time.nanos > than.nanos)
}

#[derive(Debug)]
pub struct TaskStatus {
    pub state: TaskState,
    pub message: Option<serde_json::Value>,
    pub timestamp: Option<Timestamp>,
}

/// An A2A task.
#[derive(Debug)]
pub struct Task {
    pub id: String,
    pub context_id: String,
    pub status: TaskStatus,
    pub artifacts: Option<Vec<serde_json::Value>>,
    pub history: Option<Vec<serde_json::Value>>,
    pub metadata: Option<serde_json::Map<String, serde_json::Value>>,
}

#[verifier::ext_equal]
pub struct TaskView {
    pub id: Seq<char>,
    pub context_id: Seq<char>,
    pub state: TaskState,
    pub message: Option<JsonView>,
    pub timestamp: Option<TimestampView>,
    pub artifacts: Option<Seq<JsonView>>,
    pub history: Option<Seq<JsonView>>,
    pub metadata: Option<Map<Seq<char>, JsonView>>,
}

pub open spec fn optional_json(value: Option<serde_json::Value>) -> Option<JsonView> {
    match value {
        Some(value) => Some(json_of(value)),
        None => None,
    }
}

pub open spec fn optional_jsons(values: Option<Vec<serde_json::Value>>) -> Option<Seq<JsonView>> {
    match values {
        Some(values) => Some(jsons(values@)),
        None => None,
    }
}

pub open spec fn optional_timestamp(time: Option<Timestamp>) -> Option<TimestampView> {
    match time {
        Some(time) => Some(time@),
        None => None,
    }
}

pub open spec fn optional_members(
    members: Option<serde_json::Map<String, serde_json::Value>>,
) -> Option<Map<Seq<char>, JsonView>> {
    match members {
        Some(members) => Some(members_of(members)),
        None => None,
    }
}

impl View for Task {
    type V = TaskView;

    open spec fn view(&self) -> TaskView {
        TaskView {
            id: self.id@,
            context_id: self.context_id@,
            state: self.status.state,
            message: optional_json(self.status.message),
            timestamp: optional_timestamp(self.status.timestamp),
            artifacts: optional_jsons(self.artifacts),
            history: optional_jsons(self.history),
            metadata: optional_members(self.metadata),
        }
    }
}

/// Copies of some values.
pub(crate) fn copies(values: &Vec<serde_json::Value>) -> (list: Vec<serde_json::Value>)
    ensures
        jsons(list@) == jsons(values@),
{
    let mut list: Vec<serde_json::Value> = Vec::new();
    let mut i: usize = 0;
    while i < values.len()
        invariant
            i <= values@.len(),
            list@.len() == i,
            forall|j: int| 0 <= j < i ==> json_of(#[trigger] list@[j]) == json_of(values@[j]),
        decreases values@.len() - i,
    {
        list.push(values[i].clone());
        i += 1;
    }
    assert(jsons(list@) =~= jsons(values@));
    list
}

fn optional_copies(values: &Option<Vec<serde_json::Value>>) -> (list: Option<
    Vec<serde_json::Value>,
>)
    ensures
        optional_jsons(list) == optional_jsons(*values),
{
    match values {
        Some(values) => Some(copies(values)),
        None => None,
    }
}

impl Clone for Task {
    fn clone(&self) -> (copy: Self)
        ensures
            copy@ == self@,
    {
        Task {
            id: self.id.clone(),
            context_id: self.context_id.clone(),
            status: TaskStatus {
                state: self.status.state,
                message: match &self.status.message {
                    Some(message) => Some(message.clone()),
                    None => None,
                },
                timestamp: match &self.status.timestamp {
                    Some(time) => Some(time.clone()),
                    None => None,
                },
            },
            artifacts: optional_copies(&self.artifacts),
            history: optional_copies(&self.history),
            metadata: match &self.metadata {
                Some(metadata) => Some(metadata.clone()),
                None => None,
            },
        }
    }
}

/// Members with one more, where there is a value for it.
pub open spec fn with_optional(
    members: Map<Seq<char>, JsonView>,
    name: Seq<char>,
    value: Option<JsonView>,
) -> Map<Seq<char>, JsonView> {
    match value {
        Some(value) => members.insert(name, value),
        None => members,
    }
}

pub open spec fn array_of(items: Option<Seq<JsonView>>) -> Option<JsonView> {
    match items {
        Some(items) => Some(JsonView::Array(items)),
        None => None,
    }
}

pub open spec fn object_of(members: Option<Map<Seq<char>, JsonView>>) -> Option<JsonView> {
    match members {
        Some(members) => Some(JsonView::Object(members)),
        None => None,
    }
}

pub open spec fn wire_of(time: Option<TimestampView>) -> Option<JsonView> {
    match time {
        Some(time) => Some(JsonView::Text(time.wire)),
        None => None,
    }
}

pub open spec fn status_document(task: TaskView) -> JsonView {
    let state = empty_members().insert("state"@, JsonView::Text(state_name(task.state)));
    JsonView::Object(
        with_optional(
            with_optional(state, "message"@, task.message),
            "timestamp"@,
            wire_of(task.timestamp),
        ),
    )
}

/// A task as a JSON document. What the task does not have is left out.
pub open spec fn document_of(task: TaskView) -> JsonView {
    let base = empty_members().insert("id"@, JsonView::Text(task.id)).insert(
        "contextId"@,
        JsonView::Text(task.context_id),
    ).insert("status"@, status_document(task));
    JsonView::Object(
        with_optional(
            with_optional(
                with_optional(base, "artifacts"@, array_of(task.artifacts)),
                "history"@,
                array_of(task.history),
            ),
            "metadata"@,
            object_of(task.metadata),
        ),
    )
}

pub open spec fn optional_items(value: Option<JsonView>) -> Option<Seq<JsonView>> {
    match value {
        Some(JsonView::Array(items)) => Some(items),
        _ => None,
    }
}

pub open spec fn optional_object(value: Option<JsonView>) -> Option<Map<Seq<char>, JsonView>> {
    match value {
        Some(JsonView::Object(members)) => Some(members),
        _ => None,
    }
}

pub open spec fn status_in(document: JsonView) -> JsonView {
    match member_of(document, "status"@) {
        Some(status) => status,
        None => JsonView::Null,
    }
}

/// The task that a task document describes, at the time that its status gives.
pub open spec fn task_in(document: JsonView, timestamp: Option<TimestampView>) -> TaskView {
    TaskView {
        id: text_member_or_empty(document, "id"@),
        context_id: text_member_or_empty(document, "contextId"@),
        state: state_named(text_member_or_empty(status_in(document), "state"@)),
        message: member_of(status_in(document), "message"@),
        timestamp: timestamp,
        artifacts: optional_items(member_of(document, "artifacts"@)),
        history: optional_items(member_of(document, "history"@)),
        metadata: optional_object(member_of(document, "metadata"@)),
    }
}

proof fn lemma_state_names(state: TaskState)
    ensures
        state_named(state_name(state)) == state,
{
    reveal_strlit("TASK_STATE_UNSPECIFIED");
    reveal_strlit("TASK_STATE_SUBMITTED");
    reveal_strlit("TASK_STATE_WORKING");
    reveal_strlit("TASK_STATE_COMPLETED");
    reveal_strlit("TASK_STATE_FAILED");
    reveal_strlit("TASK_STATE_CANCELED");
    reveal_strlit("TASK_STATE_INPUT_REQUIRED");
    reveal_strlit("TASK_STATE_REJECTED");
    reveal_strlit("TASK_STATE_AUTH_REQUIRED");
    let names = seq![
        state_name(TaskState::Submitted),
        state_name(TaskState::Working),
        state_name(TaskState::Completed),
        state_name(TaskState::Failed),
        state_name(TaskState::Canceled),
        state_name(TaskState::InputRequired),
        state_name(TaskState::Rejected),
        state_name(TaskState::AuthRequired),
        state_name(TaskState::Unspecified),
    ];
    // The letters from position eleven on tell the names apart.
    assert(names[0][11] == 'S');
    assert(names[1][11] == 'W');
    assert(names[2][11] == 'C' && names[2][12] == 'O');
    assert(names[3][11] == 'F');
    assert(names[4][11] == 'C' && names[4][12] == 'A');
    assert(names[5][11] == 'I');
    assert(names[6][11] == 'R');
    assert(names[7][11] == 'A');
    assert(names[8][11] == 'U');
}

/// A task is read back from its document as it was.
pub proof fn law_document_reads_back(task: TaskView)
    ensures
        task_in(document_of(task), task.timestamp) == task,
{
    reveal_strlit("id");
    reveal_strlit("contextId");
    reveal_strlit("status");
    reveal_strlit("artifacts");
    reveal_strlit("history");
    reveal_strlit("metadata");
    reveal_strlit("state");
    reveal_strlit("message");
    reveal_strlit("timestamp");
    lemma_state_names(task.state);
    assert("id"@.len() == 2);
    assert("contextId"@.len() == 9 && "contextId"@[0] == 'c');
    assert("status"@.len() == 6);
    assert("artifacts"@.len() == 9 && "artifacts"@[0] == 'a');
    assert("history"@.len() == 7);
    assert("metadata"@.len() == 8);
    assert("state"@.len() == 5);
    assert("message"@.len() == 7);
    assert("timestamp"@.len() == 9);
}

/// What the `a2a` crate makes of a task's JSON: the task's document in the form
/// that the crate writes, and the time of its status.
#[derive(Debug)]
pub struct DecodedTask {
    pub document: serde_json::Value,
    pub timestamp: Option<Timestamp>,
}

#[verifier::ext_equal]
pub struct DecodedTaskView {
    pub document: JsonView,
    pub timestamp: Option<TimestampView>,
}

impl View for DecodedTask {
    type V = DecodedTaskView;

    open spec fn view(&self) -> DecodedTaskView {
        DecodedTaskView {
            document: json_of(self.document),
            timestamp: optional_timestamp(self.timestamp),
        }
    }
}

pub open spec fn decoding(result: Result<DecodedTask, String>) -> Result<
    DecodedTaskView,
    Seq<char>,
> {
    match result {
        Ok(task) => Ok(task@),
        Err(error) => Err(error@),
    }
}

/// A document that some task has, at the time that it gives.
pub open spec fn is_task_document(decoded: DecodedTaskView) -> bool {
    exists|task: TaskView| #[trigger]
        document_of(task) == decoded.document && task.timestamp == decoded.timestamp
}

/// What reading a text as an `a2a::Task` gives, or the error's text.
pub uninterp spec fn decoded_task(text: Seq<char>) -> Result<DecodedTaskView, Seq<char>>;

/// What reading a JSON value as an `a2a::Task` gives, where it can be read. It is
/// known of values only in which no object has the reserved name.
pub uninterp spec fn decoded_task_value(value: JsonView) -> Option<DecodedTaskView>;

/// Reading a task's document gives that document again.
pub open spec fn reads_as_itself(decoded: DecodedTaskView) -> bool {
    decoded_task_value(decoded.document) == Some(decoded)
}

/// A task whose document is one that the A2A crate writes: reading the document
/// gives the document again, at the task's time.
pub open spec fn settled(task: TaskView) -> bool {
    &&& unreserved(document_of(task))
    &&& reads_as_itself(
        DecodedTaskView { document: document_of(task), timestamp: task.timestamp },
    )
}

/// What was read is the task's own document, at the task's time.
pub open spec fn gives_task(decoded: Result<DecodedTaskView, Seq<char>>, task: TaskView) -> bool {
    &&& decoded is Ok
    &&& decoded->Ok_0.document == document_of(task)
    &&& decoded->Ok_0.timestamp == task.timestamp
}

/// A part of one text.
pub open spec fn text_part(text: Seq<char>) -> JsonView {
    JsonView::Object(map!["text"@ => JsonView::Text(text)])
}

/// A part of one text, with its media type.
pub open spec fn typed_text_part(text: Seq<char>, media_type: Seq<char>) -> JsonView {
    JsonView::Object(
        map!["text"@ => JsonView::Text(text), "mediaType"@ => JsonView::Text(media_type)],
    )
}

/// A part of data, with its media type.
pub open spec fn data_part(data: JsonView, media_type: Seq<char>) -> JsonView {
    JsonView::Object(map!["data"@ => data, "mediaType"@ => JsonView::Text(media_type)])
}

pub open spec fn plain_part(part: JsonView) -> bool {
    ||| exists|text: Seq<char>| part == #[trigger] text_part(text)
    ||| exists|text: Seq<char>, media_type: Seq<char>|
        part == #[trigger] typed_text_part(text, media_type)
    ||| exists|data: JsonView, media_type: Seq<char>| part == #[trigger] data_part(data, media_type)
}

pub open spec fn plain_parts(parts: Seq<JsonView>) -> bool {
    forall|i: int| 0 <= i < parts.len() ==> plain_part(#[trigger] parts[i])
}

pub open spec fn message_form(id: Seq<char>, role: Seq<char>, parts: Seq<JsonView>) -> JsonView {
    JsonView::Object(
        map![
            "messageId"@ => JsonView::Text(id),
            "role"@ => JsonView::Text(role),
            "parts"@ => JsonView::Array(parts),
        ],
    )
}

pub open spec fn artifact_form(
    id: Seq<char>,
    name: Seq<char>,
    description: Seq<char>,
    parts: Seq<JsonView>,
    metadata: Map<Seq<char>, JsonView>,
) -> JsonView {
    JsonView::Object(
        map![
            "artifactId"@ => JsonView::Text(id),
            "name"@ => JsonView::Text(name),
            "description"@ => JsonView::Text(description),
            "parts"@ => JsonView::Array(parts),
            "metadata"@ => JsonView::Object(metadata),
        ],
    )
}

/// A message of a user or an agent, made of plain parts and of nothing else.
pub open spec fn plain_message(message: JsonView) -> bool {
    exists|id: Seq<char>, role: Seq<char>, parts: Seq<JsonView>|
        message == #[trigger] message_form(id, role, parts) && plain_parts(parts) && (role
            == "ROLE_USER"@ || role == "ROLE_AGENT"@)
}

/// An artifact with a name, a description, metadata and plain parts.
pub open spec fn plain_artifact(artifact: JsonView) -> bool {
    exists|
        id: Seq<char>,
        name: Seq<char>,
        description: Seq<char>,
        parts: Seq<JsonView>,
        metadata: Map<Seq<char>, JsonView>,
    |
        artifact == #[trigger] artifact_form(id, name, description, parts, metadata)
            && plain_parts(parts)
}

/// A list of a task holds the item.
pub open spec fn lists(items: Option<Seq<JsonView>>, item: JsonView) -> bool {
    items is Some && items->0.contains(item)
}

/// A message in the form that the A2A crate writes: a plain one, or one of a
/// settled task.
pub open spec fn known_message(message: JsonView) -> bool {
    ||| plain_message(message)
    ||| exists|task: TaskView| #[trigger]
        settled(task) && (task.message == Some(message) || lists(task.history, message))
}

/// An artifact in the form that the A2A crate writes: a plain one, or one of a
/// settled task.
pub open spec fn known_artifact(artifact: JsonView) -> bool {
    ||| plain_artifact(artifact)
    ||| exists|task: TaskView| #[trigger] settled(task) && lists(task.artifacts, artifact)
}

/// A time of a settled task.
pub open spec fn known_time(time: TimestampView) -> bool {
    exists|task: TaskView| #[trigger] settled(task) && task.timestamp == Some(time)
}

/// A task made of messages, artifacts and a time in the form that the A2A crate
/// writes, in which no object has the reserved name.
pub open spec fn well_made(task: TaskView) -> bool {
    &&& unreserved(document_of(task))
    &&& task.message is Some ==> known_message(task.message->0)
    &&& forall|item: JsonView| #[trigger] lists(task.history, item) ==> known_message(item)
    &&& forall|item: JsonView| #[trigger] lists(task.artifacts, item) ==> known_artifact(item)
    &&& task.timestamp is Some ==> known_time(task.timestamp->0)
}

/// `serde_json::from_str` into an `a2a::Task`, and `serde_json::to_value` of the
/// task. An error is given as its text. The time is that of the task's status:
/// `chrono`'s second, nanosecond and RFC 3339 text of it, and its text in the
/// document. The document is that of a task: it has the members of a task
/// document and no others. Reading the document gives the same task again; of a
/// document in which an object has the reserved name this is not said, since it
/// depends on the order of that object's members.
#[verifier::external_body]
pub(crate) fn decode_task(text: &str) -> (decoded: Result<DecodedTask, String>)
    ensures
        decoding(decoded) == decoded_task(text@),
        decoded is Ok ==> is_task_document(decoded->Ok_0@),
        decoded is Ok && unreserved(decoded->Ok_0@.document) ==> reads_as_itself(decoded->Ok_0@),
{
    let task: a2a::Task = serde_json::from_str(text).map_err(|error| error.to_string())?;
    let document = serde_json::to_value(&task).map_err(|error| error.to_string())?;
    let timestamp = match task.status.timestamp {
        Some(time) => Some(Timestamp {
            seconds: time.timestamp(),
            nanos: time.timestamp_subsec_nanos(),
            rfc3339: time.to_rfc3339(),
            wire: document["status"]["timestamp"].as_str().unwrap_or_default().to_string(),
        }),
        None => None,
    };
    Ok(DecodedTask { document, timestamp })
}

/// `serde_json::from_value` into an `a2a::Task`, and `serde_json::to_value` of
/// the task; otherwise as `decode_task`. What is read is said of a value only in
/// which no object has the reserved name; what is read of it has no such object
/// either. Which error is given is not stated: of several it is the first, and the
/// order of members is no part of what a value holds.
#[verifier::external_body]
pub(crate) fn decode_task_value(value: &serde_json::Value) -> (decoded: Result<
    DecodedTask,
    String,
>)
    ensures
        unreserved(json_of(*value)) ==> match decoded {
            Ok(decoded) => {
                &&& decoded_task_value(json_of(*value)) == Some(decoded@)
                &&& unreserved(decoded@.document)
            },
            Err(_) => decoded_task_value(json_of(*value)) is None,
        },
        decoded is Ok ==> is_task_document(decoded->Ok_0@),
        decoded is Ok && unreserved(decoded->Ok_0@.document) ==> reads_as_itself(decoded->Ok_0@),
{
    let task: a2a::Task = serde_json::from_value(value.clone()).map_err(|error| error.to_string())?;
    let document = serde_json::to_value(&task).map_err(|error| error.to_string())?;
    let timestamp = match task.status.timestamp {
        Some(time) => Some(Timestamp {
            seconds: time.timestamp(),
            nanos: time.timestamp_subsec_nanos(),
            rfc3339: time.to_rfc3339(),
            wire: document["status"]["timestamp"].as_str().unwrap_or_default().to_string(),
        }),
        None => None,
    };
    Ok(DecodedTask { document, timestamp })
}

/// `serde_json::to_string` of the `a2a::Task` that `serde_json::from_value` makes
/// of a document. It fails where the document is no task; with which error is not
/// stated. Reading the text gives what reading the document gives, for documents
/// that the reader takes: it stops at a nesting of 128, and may round a fraction.
/// Messages, artifacts and the time are read one by one, each whatever task it is
/// in, and one in the form that the crate writes is read as it is: so a well made
/// task is read back as it was. Nothing is said of a document in which an
/// object has the reserved name. The order of members in the text is not stated; it
/// changes between runs.
#[verifier::external_body]
pub(crate) fn encode_task(document: &serde_json::Value) -> (text: Result<String, String>)
    ensures
        unreserved(json_of(*document)) ==> match text {
            Ok(text) => {
                &&& decoded_task_value(json_of(*document)) is Some
                &&& readable_within(json_of(*document), 127) ==> decoded_task(text@) is Ok
                    && Some(decoded_task(text@)->Ok_0) == decoded_task_value(json_of(*document))
            },
            Err(_) => decoded_task_value(json_of(*document)) is None,
        },
        forall|task: TaskView| #[trigger]
            document_of(task) == json_of(*document) && well_made(task) ==> text is Ok,
        forall|task: TaskView| #[trigger]
            document_of(task) == json_of(*document) && well_made(task) && readable_within(
                json_of(*document),
                127,
            ) ==> gives_task(decoded_task(text->Ok_0@), task),
{
    let task: a2a::Task = serde_json::from_value(document.clone()).map_err(|error| error.to_string())?;
    serde_json::to_string(&task).map_err(|error| error.to_string())
}

/// A settled task is well made.
pub proof fn law_settled_task_is_well_made(task: TaskView)
    requires
        settled(task),
    ensures
        well_made(task),
{
    assert(task.message is Some ==> settled(task) && task.message == Some(task.message->0));
}

/// A task's document is free of the reserved name where its pieces are.
pub proof fn lemma_unreserved_document(task: TaskView)
    ensures
        unreserved(document_of(task)) == {
            &&& task.message is Some ==> unreserved(task.message->0)
            &&& forall|item: JsonView| #[trigger] lists(task.history, item) ==> unreserved(item)
            &&& forall|item: JsonView| #[trigger] lists(task.artifacts, item) ==> unreserved(item)
            &&& task.metadata is Some ==> unreserved(JsonView::Object(task.metadata->0))
        },
{
    reveal_strlit("id");
    reveal_strlit("contextId");
    reveal_strlit("status");
    reveal_strlit("artifacts");
    reveal_strlit("history");
    reveal_strlit("metadata");
    reveal_strlit("state");
    reveal_strlit("message");
    reveal_strlit("timestamp");
    reveal_strlit("$serde_json::private::RawValue");
    assert("id"@.len() == 2);
    assert("contextId"@.len() == 9 && "contextId"@[0] == 'c');
    assert("status"@.len() == 6);
    assert("artifacts"@.len() == 9 && "artifacts"@[0] == 'a');
    assert("history"@.len() == 7);
    assert("metadata"@.len() == 8);
    assert("state"@.len() == 5);
    assert("message"@.len() == 7);
    assert("timestamp"@.len() == 9);
    assert(reserved_name().len() == 30);
    let document = document_of(task);
    let status = status_document(task);
    let members = document->Object_0;
    let details = status->Object_0;
    lemma_unreserved_object(members);
    lemma_unreserved_object(details);
    lemma_unreserved_list(task.history);
    lemma_unreserved_list(task.artifacts);
    assert(members.contains_key("status"@) && members["status"@] == status);
    if task.message is Some {
        assert(details.contains_key("message"@) && details["message"@] == task.message->0);
    }
    if task.history is Some {
        assert(members.contains_key("history"@) && members["history"@] == JsonView::Array(
            task.history->0,
        ));
    }
    if task.artifacts is Some {
        assert(members.contains_key("artifacts"@) && members["artifacts"@] == JsonView::Array(
            task.artifacts->0,
        ));
    }
    if task.metadata is Some {
        assert(members.contains_key("metadata"@) && members["metadata"@] == JsonView::Object(
            task.metadata->0,
        ));
    }
}

/// A task's document can be read again where its pieces can.
pub proof fn lemma_readable_document(task: TaskView)
    ensures
        readable_within(document_of(task), 127) == {
            &&& task.message is Some ==> readable_within(task.message->0, 125)
            &&& task.history is Some ==> readable_within(JsonView::Array(task.history->0), 126)
            &&& task.artifacts is Some ==> readable_within(JsonView::Array(task.artifacts->0), 126)
            &&& task.metadata is Some ==> readable_within(JsonView::Object(task.metadata->0), 126)
        },
{
    reveal_strlit("id");
    reveal_strlit("contextId");
    reveal_strlit("status");
    reveal_strlit("artifacts");
    reveal_strlit("history");
    reveal_strlit("metadata");
    reveal_strlit("state");
    reveal_strlit("message");
    reveal_strlit("timestamp");
    reveal_strlit("$serde_json::private::RawValue");
    assert("id"@.len() == 2);
    assert("contextId"@.len() == 9 && "contextId"@[0] == 'c');
    assert("status"@.len() == 6);
    assert("artifacts"@.len() == 9 && "artifacts"@[0] == 'a');
    assert("history"@.len() == 7);
    assert("metadata"@.len() == 8);
    assert("state"@.len() == 5);
    assert("message"@.len() == 7);
    assert("timestamp"@.len() == 9);
    assert(reserved_name().len() == 30);
    let members = document_of(task)->Object_0;
    let status = status_document(task);
    let details = status->Object_0;
    assert(members.contains_key("status"@) && members["status"@] == status);
    if task.message is Some {
        assert(details.contains_key("message"@) && details["message"@] == task.message->0);
    }
    if task.history is Some {
        assert(members.contains_key("history"@) && members["history"@] == JsonView::Array(
            task.history->0,
        ));
    }
    if task.artifacts is Some {
        assert(members.contains_key("artifacts"@) && members["artifacts"@] == JsonView::Array(
            task.artifacts->0,
        ));
    }
    if task.metadata is Some {
        assert(members.contains_key("metadata"@) && members["metadata"@] == JsonView::Object(
            task.metadata->0,
        ));
    }
    lemma_readable_object(members, 126);
    lemma_readable_object(details, 125);
}

proof fn lemma_unreserved_list(items: Option<Seq<JsonView>>)
    ensures
        items is Some ==> unreserved(JsonView::Array(items->0)) == (forall|item: JsonView| #[trigger]
            lists(items, item) ==> unreserved(item)),
        items is None ==> forall|item: JsonView| !#[trigger] lists(items, item),
{
    if let Some(list) = items {
        lemma_unreserved_array(list);
        if forall|item: JsonView| #[trigger] lists(items, item) ==> unreserved(item) {
            assert forall|i: int| 0 <= i < list.len() implies unreserved(#[trigger] list[i]) by {
                assert(lists(items, list[i]));
            }
        }
        if unreserved(JsonView::Array(list)) {
            assert forall|item: JsonView| #[trigger] lists(items, item) implies unreserved(
                item,
            ) by {
                let i = choose|i: int| 0 <= i < list.len() && list[i] == item;
                assert(unreserved(list[i]));
            }
        }
    }
}

/// What reading a text as an `a2a::AgentCard` gives: the card's document in the
/// form that the crate writes.
pub uninterp spec fn decoded_card(text: Seq<char>) -> Option<JsonView>;

/// `serde_json::from_str` into an `a2a::AgentCard`, and `serde_json::to_value` of
/// the card. Nothing is said of why a text is no card.
#[verifier::external_body]
pub(crate) fn decode_card(text: &str) -> (document: Option<serde_json::Value>)
    ensures
        optional_json(document) == decoded_card(text@),
{
    match serde_json::from_str::<a2a::AgentCard>(text) {
        Ok(card) => serde_json::to_value(card).ok(),
        Err(_) => None,
    }
}

/// An interface of a card that speaks JSON-RPC.
pub open spec fn interface_form(url: Seq<char>, version: Seq<char>) -> JsonView {
    JsonView::Object(
        map![
            "url"@ => JsonView::Text(url),
            "protocolBinding"@ => JsonView::Text("JSONRPC"@),
            "protocolVersion"@ => JsonView::Text(version),
        ],
    )
}

/// A skill of a card.
pub open spec fn skill_form(
    id: Seq<char>,
    name: Seq<char>,
    description: Seq<char>,
    tags: Seq<Seq<char>>,
) -> JsonView {
    JsonView::Object(
        map![
            "id"@ => JsonView::Text(id),
            "name"@ => JsonView::Text(name),
            "description"@ => JsonView::Text(description),
            "tags"@ => JsonView::Array(text_items(tags)),
        ],
    )
}

/// What a card tells of an agent in plain form.
pub struct CardForm {
    pub name: Seq<char>,
    pub description: Seq<char>,
    pub version: Seq<char>,
    pub interfaces: Seq<JsonView>,
    pub streaming: bool,
    pub input_modes: Seq<Seq<char>>,
    pub output_modes: Seq<Seq<char>>,
    pub skills: Seq<JsonView>,
}

pub open spec fn card_form(card: CardForm) -> JsonView {
    JsonView::Object(
        map![
            "name"@ => JsonView::Text(card.name),
            "description"@ => JsonView::Text(card.description),
            "version"@ => JsonView::Text(card.version),
            "supportedInterfaces"@ => JsonView::Array(card.interfaces),
            "capabilities"@ => JsonView::Object(
                map!["streaming"@ => JsonView::Bool(card.streaming)],
            ),
            "defaultInputModes"@ => JsonView::Array(text_items(card.input_modes)),
            "defaultOutputModes"@ => JsonView::Array(text_items(card.output_modes)),
            "skills"@ => JsonView::Array(card.skills),
        ],
    )
}

pub open spec fn plain_interface(interface: JsonView) -> bool {
    exists|url: Seq<char>, version: Seq<char>| interface == #[trigger] interface_form(url, version)
}

pub open spec fn plain_skill(skill: JsonView) -> bool {
    exists|id: Seq<char>, name: Seq<char>, description: Seq<char>, tags: Seq<Seq<char>>|
        skill == #[trigger] skill_form(id, name, description, tags)
}

/// The document of a card that has a name, a description, a version, interfaces that
/// speak JSON-RPC, whether it streams, its modes and skills, and nothing else.
pub open spec fn plain_card(document: JsonView) -> bool {
    exists|card: CardForm|
        document == #[trigger] card_form(card) && (forall|i: int|
            0 <= i < card.interfaces.len() ==> plain_interface(#[trigger] card.interfaces[i])) && (
        forall|i: int| 0 <= i < card.skills.len() ==> plain_skill(#[trigger] card.skills[i]))
}

/// `serde_json::to_string_pretty` of a value, which always succeeds. Reading the text
/// again, with a line feed behind it, gives what the value holds, for values that the
/// reader takes: it stops at a nesting of 128, may round a fraction, and reads an
/// object otherwise whose first member has the reserved name. Reading the text of a
/// plain card as an `a2a::AgentCard` gives the card's document as it is: the text has
/// each member once, and the crate keeps these members and adds none. How the text is
/// laid out is not stated.
#[verifier::external_body]
pub(crate) fn pretty_text(value: &serde_json::Value) -> (text: Result<String, String>)
    ensures
        text is Ok,
        readable_within(json_of(*value), 127) ==> parsed_json(text->Ok_0@ + "\n"@) is Ok
            && parsed_json(text->Ok_0@ + "\n"@)->Ok_0 == json_of(*value),
        plain_card(json_of(*value)) ==> decoded_card(text->Ok_0@ + "\n"@) == Some(
            json_of(*value),
        ),
{
    serde_json::to_string_pretty(value).map_err(|error| error.to_string())
}

#[derive(Debug)]
pub struct RpcError {
    pub code: i32,
    pub message: String,
}

/// What a JSON-RPC response holds of an outcome.
#[derive(Debug)]
pub struct Reply {
    pub result: Option<serde_json::Value>,
    pub error: Option<RpcError>,
}

#[verifier::ext_equal]
pub struct ReplyView {
    pub result: Option<JsonView>,
    pub error: Option<(int, Seq<char>)>,
}

impl View for Reply {
    type V = ReplyView;

    open spec fn view(&self) -> ReplyView {
        ReplyView {
            result: optional_json(self.result),
            error: match self.error {
                Some(error) => Some((error.code as int, error.message@)),
                None => None,
            },
        }
    }
}

pub open spec fn reply_view(reply: Result<Reply, String>) -> Result<ReplyView, Seq<char>> {
    match reply {
        Ok(reply) => Ok(reply@),
        Err(error) => Err(error@),
    }
}

/// What reading a text as an `a2a::JsonRpcResponse` gives, or the error's text.
pub uninterp spec fn decoded_reply(text: Seq<char>) -> Result<ReplyView, Seq<char>>;

/// What reading bytes as an `a2a::JsonRpcResponse` gives, or the error's text.
pub uninterp spec fn decoded_reply_bytes(bytes: Seq<u8>) -> Result<ReplyView, Seq<char>>;

/// `serde_json::from_str` into an `a2a::JsonRpcResponse`, of which the result and
/// the error's code and message are kept.
#[verifier::external_body]
pub(crate) fn decode_reply(text: &str) -> (reply: Result<Reply, String>)
    ensures
        reply_view(reply) == decoded_reply(text@),
{
    let reply: a2a::JsonRpcResponse = serde_json::from_str(text).map_err(|error| error.to_string())?;
    let error = match reply.error {
        Some(error) => Some(RpcError { code: error.code, message: error.message }),
        None => None,
    };
    Ok(Reply { result: reply.result, error })
}

/// `serde_json::from_slice` into an `a2a::JsonRpcResponse`, of which the result
/// and the error's code and message are kept.
#[verifier::external_body]
pub(crate) fn decode_reply_bytes(bytes: &[u8]) -> (reply: Result<Reply, String>)
    ensures
        reply_view(reply) == decoded_reply_bytes(bytes@),
{
    let reply: a2a::JsonRpcResponse = serde_json::from_slice(bytes).map_err(|error| error.to_string())?;
    let error = match reply.error {
        Some(error) => Some(RpcError { code: error.code, message: error.message }),
        None => None,
    };
    Ok(Reply { result: reply.result, error })
}

/// A JSON-RPC request as a JSON document.
pub open spec fn request_document(id: int, method: Seq<char>, params: JsonView) -> JsonView {
    JsonView::Object(
        map![
            "jsonrpc"@ => JsonView::Text("2.0"@),
            "id"@ => JsonView::Integer(id),
            "method"@ => JsonView::Text(method),
            "params"@ => params,
        ],
    )
}

/// `serde_json::to_string` of `a2a::JsonRpcRequest::new` with a number as its id,
/// which always succeeds. Reading the text as JSON gives the request's document,
/// for parameters that the reader takes: it stops at a nesting of 128, may round a
/// fraction, and reads an object otherwise whose first member has the reserved name.
#[verifier::external_body]
pub(crate) fn encode_request(id: i64, method: &str, params: serde_json::Value) -> (text: Result<
    String,
    String,
>)
    ensures
        text is Ok,
        readable_within(json_of(params), 126) ==> parsed_json(text->Ok_0@) is Ok && parsed_json(
            text->Ok_0@,
        )->Ok_0 == request_document(id as int, method@, json_of(params)),
{
    let request = a2a::JsonRpcRequest::new(a2a::JsonRpcId::Number(id), method, Some(params));
    serde_json::to_string(&request).map_err(|error| error.to_string())
}

/// `a2a::new_message_id` makes a fresh id. It depends on the time and on chance,
/// so nothing is said of it.
#[verifier::external_body]
pub(crate) fn new_message_id() -> (id: String)
{
    a2a::new_message_id()
}

impl Task {
    /// Reads a task out of its document.
    pub(crate) fn from_decoded(decoded: DecodedTask) -> (task: Self)
        ensures
            task@ == task_in(decoded@.document, decoded@.timestamp),
    {
        let document = decoded.document;
        let status = get(&document, "status");
        let state = match status {
            Some(status) => TaskState::from_name(member_text(status, "state").as_str()),
            None => TaskState::from_name(""),
        };
        let message = match status {
            Some(status) => match get(status, "message") {
                Some(message) => Some(message.clone()),
                None => None,
            },
            None => None,
        };
        proof {
            if status is None {
                reveal_strlit("");
                assert(""@ =~= text_member_or_empty(JsonView::Null, "state"@));
            }
        }
        Task {
            id: member_text(&document, "id"),
            context_id: member_text(&document, "contextId"),
            status: TaskStatus { state: state, message: message, timestamp: decoded.timestamp },
            artifacts: list_member(&document, "artifacts"),
            history: list_member(&document, "history"),
            metadata: match get(&document, "metadata") {
                Some(metadata) => match as_members(metadata) {
                    Some(members) => Some(members.clone()),
                    None => None,
                },
                None => None,
            },
        }
    }

    /// The task as a JSON document. What the task does not have is left out.
    pub fn document(&self) -> (document: serde_json::Value)
        ensures
            json_of(document) == document_of(self@),
    {
        let mut status = with(no_members(), "state", text_value(self.status.state.name()));
        if let Some(message) = &self.status.message {
            status = with(status, "message", message.clone());
        }
        if let Some(time) = &self.status.timestamp {
            status = with(status, "timestamp", text_value(time.wire.as_str()));
        }
        let mut members = with(no_members(), "id", text_value(self.id.as_str()));
        members = with(members, "contextId", text_value(self.context_id.as_str()));
        members = with(members, "status", object(status));
        if let Some(artifacts) = &self.artifacts {
            members = with(members, "artifacts", array(copies(artifacts)));
        }
        if let Some(history) = &self.history {
            members = with(members, "history", array(copies(history)));
        }
        if let Some(metadata) = &self.metadata {
            members = with(members, "metadata", object(metadata.clone()));
        }
        object(members)
    }
}

fn list_member(document: &serde_json::Value, name: &str) -> (list: Option<Vec<serde_json::Value>>)
    ensures
        optional_jsons(list) == optional_items(member_of(json_of(*document), name@)),
{
    match get(document, name) {
        Some(member) => match as_items(member) {
            Some(items) => Some(copies(items)),
            None => None,
        },
        None => None,
    }
}

/// The document of a task holds each of its pieces under the piece's own name, and
/// nothing under the name of a piece that the task does not have.
pub proof fn law_document_holds_the_task(task: &Task, document: serde_json::Value)
    requires
        call_ensures(Task::document, (task,), document),
    ensures
        text_member_of(json_of(document), "id"@) == Some(task.id@),
        text_member_of(json_of(document), "contextId"@) == Some(task.context_id@),
        member_of(json_of(document), "artifacts"@) == match task.artifacts {
            Some(artifacts) => Some(JsonView::Array(jsons(artifacts@))),
            None => None,
        },
        member_of(json_of(document), "history"@) == match task.history {
            Some(history) => Some(JsonView::Array(jsons(history@))),
            None => None,
        },
        member_of(json_of(document), "metadata"@) == match task.metadata {
            Some(metadata) => Some(JsonView::Object(members_of(metadata))),
            None => None,
        },
        member_of(json_of(document), "status"@) is Some,
        ({
            let status = member_of(json_of(document), "status"@)->0;
            &&& text_member_of(status, "state"@) == Some(protocol_name(task.status.state))
            &&& member_of(status, "message"@) == match task.status.message {
                Some(message) => Some(json_of(message)),
                None => None,
            }
            &&& text_member_of(status, "timestamp"@) == match task.status.timestamp {
                Some(time) => Some(time.wire@),
                None => None,
            }
        }),
{
    lemma_member_names();
}

/// The names of the states in the A2A protocol.
pub open spec fn protocol_name(state: TaskState) -> Seq<char> {
    match state {
        TaskState::Unspecified => "TASK_STATE_UNSPECIFIED"@,
        TaskState::Submitted => "TASK_STATE_SUBMITTED"@,
        TaskState::Working => "TASK_STATE_WORKING"@,
        TaskState::Completed => "TASK_STATE_COMPLETED"@,
        TaskState::Failed => "TASK_STATE_FAILED"@,
        TaskState::Canceled => "TASK_STATE_CANCELED"@,
        TaskState::InputRequired => "TASK_STATE_INPUT_REQUIRED"@,
        TaskState::Rejected => "TASK_STATE_REJECTED"@,
        TaskState::AuthRequired => "TASK_STATE_AUTH_REQUIRED"@,
    }
}

/// A state is read back from its name, two states have two names, and what is the name
/// of no state is read as none. The states that end a task are those in which the
/// protocol has it completed, failed, canceled or rejected.
pub proof fn law_states_have_their_names(
    state: TaskState,
    name: &'static str,
    text: &str,
    named: TaskState,
    ended: bool,
)
    requires
        call_ensures(TaskState::name, (state,), name),
        call_ensures(TaskState::from_name, (text,), named),
        call_ensures(TaskState::is_terminal, (state,), ended),
    ensures
        name@ == protocol_name(state),
        text@ == name@ ==> named == state,
        named == state && state != TaskState::Unspecified ==> text@ == name@,
        ended <==> state == TaskState::Completed || state == TaskState::Failed || state
            == TaskState::Canceled || state == TaskState::Rejected,
{
    lemma_state_names(state);
}

/// A task that is read has what its document says under each name, and the time that
/// was read with it.
pub proof fn law_read_task_is_the_documents(decoded: DecodedTask, task: Task)
    requires
        task@ == task_in(decoded@.document, decoded@.timestamp),
    ensures
        task.id@ == text_member_or_empty(json_of(decoded.document), "id"@),
        task.context_id@ == text_member_or_empty(json_of(decoded.document), "contextId"@),
        optional_jsons(task.artifacts) == optional_items(
            member_of(json_of(decoded.document), "artifacts"@),
        ),
        optional_jsons(task.history) == optional_items(
            member_of(json_of(decoded.document), "history"@),
        ),
        optional_members(task.metadata) == optional_object(
            member_of(json_of(decoded.document), "metadata"@),
        ),
        member_of(json_of(decoded.document), "status"@) is Some ==> optional_json(
            task.status.message,
        ) == member_of(member_of(json_of(decoded.document), "status"@)->0, "message"@),
        optional_timestamp(task.status.timestamp) == optional_timestamp(decoded.timestamp),
        forall|state: TaskState|
            member_of(json_of(decoded.document), "status"@) is Some && text_member_of(
                member_of(json_of(decoded.document), "status"@)->0,
                "state"@,
            ) == Some(#[trigger] protocol_name(state)) ==> task.status.state == state,
{
    assert forall|state: TaskState|
        member_of(json_of(decoded.document), "status"@) is Some && text_member_of(
            member_of(json_of(decoded.document), "status"@)->0,
            "state"@,
        ) == Some(#[trigger] protocol_name(state)) implies task.status.state == state by {
        lemma_state_names(state);
    }
    let view = task@;
    assert(view.id == task.id@);
}

/// One time is later than another where more nanoseconds have gone by.
pub proof fn law_later_is_more_time(time: TimestampView, than: TimestampView)
    requires
        0 <= time.nanos < 1_000_000_000,
        0 <= than.nanos < 1_000_000_000,
    ensures
        is_later(time, than) <==> time.seconds * 1_000_000_000 + time.nanos > than.seconds
            * 1_000_000_000 + than.nanos,
{
}

} // verus!
