//! What a finished task gives back: its state, its message and its artifacts.

use vstd::prelude::*;

use crate::acp::user_prompt;
#[allow(unused_imports)]
use crate::acp::{message_text_of, user_text};
use crate::json::{
    array, integer_value, member_text, no_members, null_value, object, parse, text_value, with,
};
#[allow(unused_imports)]
use crate::json::{
    items_member, json_of, jsons, lemma_readable_array, lemma_readable_object,
    lemma_unreserved_array, lemma_unreserved_object, member_of, members_of, parsed_json,
    readable_within, reserved_name, text_member_of, text_member_or_empty, unreserved, JsonView,
};
#[allow(unused_imports)]
use crate::names::lemma_member_names;
use crate::order::{sort_by_rank, text_precedes, Ranked};
#[allow(unused_imports)]
use crate::order::{is_ranked, law_sorting, lemma_precedes_irreflexive, ranked, ranks_before};
use crate::paths::{file_name, json_extension};
#[allow(unused_imports)]
use crate::paths::{file_name_of, has_json_extension};
use crate::registry::AgentDefinition;
use crate::text::{ends_with, plus, same_text, trim};
#[allow(unused_imports)]
use crate::text::{has_suffix, trimmed};
use crate::wire::{new_message_id, Task, TaskState, TaskStatus};
#[allow(unused_imports)]
use crate::wire::{
    artifact_form, data_part, document_of, law_settled_task_is_well_made, lemma_readable_document,
    lemma_unreserved_document, lists, message_form, optional_jsons, plain_artifact, plain_message,
    plain_part, plain_parts, settled, text_part, typed_text_part, well_made, TaskView,
};

verus! {

/// The media type that a file name's ending stands for.
pub open spec fn media_type_of(name: Seq<char>) -> Seq<char> {
    if has_suffix(name, ".md"@) {
        "text/markdown"@
    } else if has_suffix(name, ".json"@) {
        "application/json"@
    } else {
        "text/plain"@
    }
}

pub fn media_type_for(path: &str) -> (media_type: &'static str)
    ensures
        media_type@ == media_type_of(path@),
{
    if ends_with(path, ".md") {
        "text/markdown"
    } else if ends_with(path, ".json") {
        "application/json"
    } else {
        "text/plain"
    }
}

/// An artifact of one part, with its id as its name and as the hint of its path.
pub open spec fn artifact_document(
    id: Seq<char>,
    description: Seq<char>,
    part: JsonView,
) -> JsonView {
    artifact_form(id, id, description, seq![part], map!["path_hint"@ => JsonView::Text(id)])
}

/// A text artifact, with the media type of its name.
pub open spec fn text_artifact_of(id: Seq<char>, text: Seq<char>) -> JsonView {
    artifact_document(
        id,
        "Text artifact produced by the ACP harness."@,
        typed_text_part(text, media_type_of(id)),
    )
}

/// A data artifact.
pub open spec fn data_artifact_of(id: Seq<char>, data: JsonView) -> JsonView {
    artifact_document(
        id,
        "Structured artifact produced by the ACP harness."@,
        data_part(data, "application/json"@),
    )
}

fn artifact(id: &str, description: &str, part: serde_json::Value) -> (document: serde_json::Value)
    ensures
        json_of(document) == artifact_document(id@, description@, json_of(part)),
{
    let parts = vec![part];
    assert(jsons(parts@) =~= seq![json_of(part)]);
    let members = with(no_members(), "artifactId", text_value(id));
    let members = with(members, "name", text_value(id));
    let members = with(members, "description", text_value(description));
    let members = with(members, "parts", array(parts));
    let hint = with(no_members(), "path_hint", text_value(id));
    object(with(members, "metadata", object(hint)))
}

pub fn text_artifact(artifact_id: &str, text: &str) -> (document: serde_json::Value)
    ensures
        json_of(document) == text_artifact_of(artifact_id@, text@),
{
    let part = with(no_members(), "text", text_value(text));
    let part = with(part, "mediaType", text_value(media_type_for(artifact_id)));
    artifact(artifact_id, "Text artifact produced by the ACP harness.", object(part))
}

pub fn data_artifact(artifact_id: &str, value: serde_json::Value) -> (document: serde_json::Value)
    ensures
        json_of(document) == data_artifact_of(artifact_id@, json_of(value)),
{
    let part = with(no_members(), "data", value);
    let part = with(part, "mediaType", text_value("application/json"));
    artifact(artifact_id, "Structured artifact produced by the ACP harness.", object(part))
}

/// The findings of a harness that wrote none: its output as the summary.
pub open spec fn fallback_findings(output: Seq<char>) -> JsonView {
    JsonView::Object(
        map![
            "schema_version"@ => JsonView::Integer(1),
            "target"@ => JsonView::Null,
            "status"@ => JsonView::Text("completed"@),
            "summary"@ => JsonView::Text(trimmed(output)),
            "findings"@ => JsonView::Array(seq![]),
            "residual_risk"@ => JsonView::Text(
                "The ACP harness did not write findings.json; review the summary.md artifact for details."@,
            ),
        ],
    )
}

pub fn fallback_findings_json(output: &str) -> (findings: serde_json::Value)
    ensures
        json_of(findings) == fallback_findings(output@),
{
    let none: Vec<serde_json::Value> = Vec::new();
    assert(jsons(none@) =~= Seq::<JsonView>::empty());
    let members = with(no_members(), "schema_version", integer_value(1));
    let members = with(members, "target", null_value());
    let members = with(members, "status", text_value("completed"));
    let members = with(members, "summary", text_value(trim(output).as_str()));
    let members = with(members, "findings", array(none));
    object(
        with(
            members,
            "residual_risk",
            text_value(
                "The ACP harness did not write findings.json; review the summary.md artifact for details.",
            ),
        ),
    )
}

/// What was read of a file that a harness left.
#[derive(Clone, Debug)]
pub enum ArtifactText {
    /// The file's name is no UTF-8.
    BadName,
    Unreadable,
    Text(String),
}

/// A file that a harness left.
#[derive(Clone, Debug)]
pub struct ArtifactFile {
    pub path: String,
    pub content: ArtifactText,
}

impl Ranked for ArtifactFile {
    open spec fn rank(self) -> Seq<Seq<char>> {
        seq![self.path@]
    }

    fn goes_before(&self, other: &Self) -> (yes: bool) {
        proof {
            lemma_precedes_irreflexive(self.path@);
            reveal_with_fuel(ranks_before, 2);
        }
        text_precedes(self.path.as_str(), other.path.as_str())
    }
}

/// The artifact that a file gives: JSON data for a `json` file, text for any
/// other, with the file's name as its id.
pub open spec fn artifact_of_file(file: ArtifactFile) -> Result<JsonView, Seq<char>> {
    match file_name_of(file.path@) {
        None => Err("artifact file name must be UTF-8"@),
        Some(name) => match file.content {
            ArtifactText::BadName => Err("artifact file name must be UTF-8"@),
            ArtifactText::Unreadable => Err("failed to read artifact "@ + file.path@),
            ArtifactText::Text(text) => if has_json_extension(file.path@) {
                match parsed_json(text@) {
                    Ok(data) => Ok(data_artifact_of(name, data)),
                    Err(_) => Err("failed to parse JSON artifact "@ + file.path@),
                }
            } else {
                Ok(text_artifact_of(name, text@))
            },
        },
    }
}

pub open spec fn json_result(result: Result<serde_json::Value, String>) -> Result<
    JsonView,
    Seq<char>,
> {
    match result {
        Ok(value) => Ok(json_of(value)),
        Err(error) => Err(error@),
    }
}

pub fn artifact_from_file(file: &ArtifactFile) -> (artifact: Result<serde_json::Value, String>)
    ensures
        json_result(artifact) == artifact_of_file(*file),
{
    let name = match file_name(file.path.as_str()) {
        Some(name) => name,
        None => {
            return Err("artifact file name must be UTF-8".to_string());
        },
    };
    match &file.content {
        ArtifactText::BadName => Err("artifact file name must be UTF-8".to_string()),
        ArtifactText::Unreadable => Err(
            plus("failed to read artifact ".to_string(), file.path.as_str()),
        ),
        ArtifactText::Text(text) => if json_extension(file.path.as_str()) {
            match parse(text.as_str()) {
                Ok(data) => Ok(data_artifact(name.as_str(), data)),
                Err(_) => Err(
                    plus("failed to parse JSON artifact ".to_string(), file.path.as_str()),
                ),
            }
        } else {
            Ok(text_artifact(name.as_str(), text.as_str()))
        },
    }
}

/// The artifacts of some files from `from` on. The first file that gives none
/// stops the collecting.
pub open spec fn artifacts_of(files: Seq<ArtifactFile>, from: int) -> Result<
    Seq<JsonView>,
    Seq<char>,
>
    decreases files.len() - from,
{
    if from < 0 || from >= files.len() {
        Ok(seq![])
    } else {
        match artifact_of_file(files[from]) {
            Ok(artifact) => match artifacts_of(files, from + 1) {
                Ok(rest) => Ok(seq![artifact] + rest),
                Err(error) => Err(error),
            },
            Err(error) => Err(error),
        }
    }
}

pub open spec fn jsons_result(result: Result<Vec<serde_json::Value>, String>) -> Result<
    Seq<JsonView>,
    Seq<char>,
> {
    match result {
        Ok(values) => Ok(jsons(values@)),
        Err(error) => Err(error@),
    }
}

/// The artifacts of the files in a task's artifacts directory, in the order of
/// their paths.
pub fn artifacts_from_dir(files: Vec<ArtifactFile>) -> (artifacts: Result<
    Vec<serde_json::Value>,
    String,
>)
    ensures
        jsons_result(artifacts) == artifacts_of(ranked(files@), 0),
{
    let sorted = sort_by_rank(files);
    let mut artifacts: Vec<serde_json::Value> = Vec::new();
    let mut i: usize = 0;
    proof {
        if let Ok(list) = artifacts_of(sorted@, 0) {
            assert(jsons(artifacts@) + list =~= list);
        }
    }
    while i < sorted.len()
        invariant
            i <= sorted@.len(),
            sorted@ == ranked(files@),
            match artifacts_of(sorted@, i as int) {
                Ok(rest) => artifacts_of(sorted@, 0) == Ok::<Seq<JsonView>, Seq<char>>(
                    jsons(artifacts@) + rest,
                ),
                Err(error) => artifacts_of(sorted@, 0) == Err::<Seq<JsonView>, Seq<char>>(error),
            },
        decreases sorted@.len() - i,
    {
        let ghost before = jsons(artifacts@);
        match artifact_from_file(&sorted[i]) {
            Ok(artifact) => {
                artifacts.push(artifact);
                proof {
                    let view = json_of(artifact);
                    assert(jsons(artifacts@) =~= before + seq![view]);
                    if let Ok(rest) = artifacts_of(sorted@, i as int + 1) {
                        assert(before + (seq![view] + rest) =~= (before + seq![view]) + rest);
                    }
                }
            },
            Err(error) => {
                return Err(error);
            },
        }
        i += 1;
    }
    assert(jsons(artifacts@) + Seq::<JsonView>::empty() =~= jsons(artifacts@));
    Ok(artifacts)
}

/// The id of an artifact.
pub open spec fn artifact_id_of(artifact: JsonView) -> Seq<char> {
    text_member_or_empty(artifact, "artifactId"@)
}

/// There is an artifact of that id among some.
pub open spec fn has_artifact(artifacts: Seq<JsonView>, id: Seq<char>) -> bool {
    exists|i: int| 0 <= i < artifacts.len() && artifact_id_of(#[trigger] artifacts[i]) == id
}

fn holds_artifact(artifacts: &Vec<serde_json::Value>, id: &str) -> (yes: bool)
    ensures
        yes == has_artifact(jsons(artifacts@), id@),
{
    let ghost all = jsons(artifacts@);
    let mut i: usize = 0;
    while i < artifacts.len()
        invariant
            i <= artifacts@.len(),
            all == jsons(artifacts@),
            forall|j: int| 0 <= j < i ==> artifact_id_of(#[trigger] all[j]) != id@,
        decreases artifacts@.len() - i,
    {
        assert(all[i as int] == json_of(artifacts@[i as int]));
        if same_text(member_text(&artifacts[i], "artifactId").as_str(), id) {
            return true;
        }
        i += 1;
    }
    false
}

/// The artifacts of a task: those that the harness left, with its output as
/// `summary.md` before them and as the summary of `findings.json` behind them
/// where it did not leave these.
pub open spec fn completed_artifacts(left: Seq<JsonView>, output: Seq<char>) -> Seq<JsonView> {
    let with_summary = if has_artifact(left, "summary.md"@) {
        left
    } else {
        left.insert(0, text_artifact_of("summary.md"@, output))
    };
    if has_artifact(with_summary, "findings.json"@) {
        with_summary
    } else {
        with_summary.push(data_artifact_of("findings.json"@, fallback_findings(output)))
    }
}

pub fn with_default_artifacts(left: Vec<serde_json::Value>, output: &str) -> (artifacts: Vec<
    serde_json::Value,
>)
    ensures
        jsons(artifacts@) == completed_artifacts(jsons(left@), output@),
{
    let ghost given = jsons(left@);
    let mut artifacts = left;
    if !holds_artifact(&artifacts, "summary.md") {
        let summary = text_artifact("summary.md", output);
        artifacts.insert(0, summary);
        assert(jsons(artifacts@) =~= given.insert(0, json_of(summary)));
    }
    let ghost with_summary = jsons(artifacts@);
    if !holds_artifact(&artifacts, "findings.json") {
        let findings = data_artifact("findings.json", fallback_findings_json(output));
        artifacts.push(findings);
        assert(jsons(artifacts@) =~= with_summary.push(json_of(findings)));
    }
    artifacts
}

/// The artifacts of a task, out of the files that the harness left and its output.
pub fn task_artifacts(files: Vec<ArtifactFile>, output: &str) -> (artifacts: Result<
    Vec<serde_json::Value>,
    String,
>)
    ensures
        jsons_result(artifacts) == match artifacts_of(ranked(files@), 0) {
            Ok(left) => Ok(completed_artifacts(left, output@)),
            Err(error) => Err(error),
        },
{
    match artifacts_from_dir(files) {
        Ok(left) => Ok(with_default_artifacts(left, output)),
        Err(error) => Err(error),
    }
}

proof fn lemma_made_artifact_id(id: Seq<char>, description: Seq<char>, part: JsonView)
    ensures
        artifact_id_of(artifact_document(id, description, part)) == id,
{
    reveal_strlit("artifactId");
    reveal_strlit("name");
    reveal_strlit("description");
    reveal_strlit("parts");
    reveal_strlit("metadata");
    assert("artifactId"@.len() == 10);
    assert("name"@.len() == 4);
    assert("description"@.len() == 11);
    assert("parts"@.len() == 5);
    assert("metadata"@.len() == 8);
}

/// A completed task always has both default artifacts, and keeps every artifact
/// that the harness left, in order.
pub proof fn law_default_artifacts(left: Seq<JsonView>, output: Seq<char>)
    ensures
        has_artifact(completed_artifacts(left, output), "summary.md"@),
        has_artifact(completed_artifacts(left, output), "findings.json"@),
        has_artifact(left, "summary.md"@) && has_artifact(left, "findings.json"@)
            ==> completed_artifacts(left, output) == left,
        exists|at: int|
            0 <= at && at + left.len() <= completed_artifacts(left, output).len()
                && #[trigger] completed_artifacts(left, output).subrange(at, at + left.len())
                == left,
{
    let summary = text_artifact_of("summary.md"@, output);
    let findings = data_artifact_of("findings.json"@, fallback_findings(output));
    lemma_made_artifact_id(
        "summary.md"@,
        "Text artifact produced by the ACP harness."@,
        typed_text_part(output, media_type_of("summary.md"@)),
    );
    lemma_made_artifact_id(
        "findings.json"@,
        "Structured artifact produced by the ACP harness."@,
        data_part(fallback_findings(output), "application/json"@),
    );
    let with_summary = if has_artifact(left, "summary.md"@) {
        left
    } else {
        left.insert(0, summary)
    };
    let all = completed_artifacts(left, output);
    assert(has_artifact(with_summary, "summary.md"@)) by {
        if !has_artifact(left, "summary.md"@) {
            assert(artifact_id_of(with_summary[0]) == "summary.md"@);
        }
    }
    let i = choose|i: int|
        0 <= i < with_summary.len() && artifact_id_of(#[trigger] with_summary[i])
            == "summary.md"@;
    assert(all[i] == with_summary[i]);
    if !has_artifact(with_summary, "findings.json"@) {
        assert(all[all.len() - 1] == findings);
        assert(artifact_id_of(all[all.len() - 1]) == "findings.json"@);
    }
    let at: int = if has_artifact(left, "summary.md"@) {
        0
    } else {
        1
    };
    assert(all.subrange(at, at + left.len()) =~= left);
}

/// What an executor is told of a task.
#[derive(Debug)]
pub struct ExecutorContext {
    pub message: Option<serde_json::Value>,
    pub task_id: String,
    pub stored_task: Option<Task>,
    pub context_id: String,
}

/// The history of the stored task, where there is one.
pub open spec fn stored_history(context: ExecutorContext) -> Option<Seq<JsonView>> {
    match context.stored_task {
        Some(task) => task@.history,
        None => None,
    }
}

fn history_of(stored_task: Option<Task>) -> (history: Option<Vec<serde_json::Value>>)
    ensures
        optional_jsons(history) == match stored_task {
            Some(task) => task@.history,
            None => None,
        },
{
    match stored_task {
        Some(task) => task.history,
        None => None,
    }
}

/// The stored task whose history is carried on, where there is one, was read from the
/// store.
pub open spec fn carries_on(context: ExecutorContext) -> bool {
    context.stored_task is Some ==> settled(context.stored_task->0@)
}

/// A message of one text part that an agent sends.
pub open spec fn agent_message_of(id: Seq<char>, text: Seq<char>) -> JsonView {
    message_form(id, "ROLE_AGENT"@, seq![text_part(text)])
}

pub fn agent_message(id: &str, text: &str) -> (message: serde_json::Value)
    ensures
        json_of(message) == agent_message_of(id@, text@),
{
    let part = object(with(no_members(), "text", text_value(text)));
    let parts = vec![part];
    assert(jsons(parts@) =~= seq![json_of(part)]);
    let members = with(no_members(), "messageId", text_value(id));
    let members = with(members, "role", text_value("ROLE_AGENT"));
    object(with(members, "parts", array(parts)))
}

/// The note of who ran a task.
pub open spec fn executor_note() -> Map<Seq<char>, JsonView> {
    map!["mesh_llm_executor"@ => JsonView::Text("acp"@)]
}

fn executor_metadata() -> (members: serde_json::Map<String, serde_json::Value>)
    ensures
        members_of(members) == executor_note(),
{
    with(no_members(), "mesh_llm_executor", text_value("acp"))
}

/// A task that the harness has finished, with the message it ends on.
pub open spec fn finished(
    context: ExecutorContext,
    state: TaskState,
    message: JsonView,
    artifacts: Option<Seq<JsonView>>,
) -> TaskView {
    TaskView {
        id: context.task_id@,
        context_id: context.context_id@,
        state: state,
        message: Some(message),
        timestamp: None,
        artifacts: artifacts,
        history: stored_history(context),
        metadata: Some(executor_note()),
    }
}

/// The task that ends on a message.
pub fn finished_task(
    context: ExecutorContext,
    state: TaskState,
    message: serde_json::Value,
    artifacts: Option<Vec<serde_json::Value>>,
) -> (task: Task)
    ensures
        task@ == finished(context, state, json_of(message), optional_jsons(artifacts)),
        task.id@ == context.task_id@,
        task.context_id@ == context.context_id@,
        task@.id == context.task_id@,
        task@.context_id == context.context_id@,
        task@.state == state,
        task@.history == match context.stored_task {
            Some(stored) => stored@.history,
            None => None,
        },
{
    Task {
        id: context.task_id,
        context_id: context.context_id,
        status: TaskStatus { state: state, message: Some(message), timestamp: None },
        artifacts: artifacts,
        history: history_of(context.stored_task),
        metadata: Some(executor_metadata()),
    }
}

/// The task that the harness completed: its output as the message, under a fresh
/// id, and the artifacts.
pub fn completed_task(
    context: ExecutorContext,
    output: &str,
    artifacts: Vec<serde_json::Value>,
) -> (task: Task)
    ensures
        exists|id: Seq<char>|
            task@ == finished(
                context,
                TaskState::Completed,
                #[trigger] agent_message_of(id, output@),
                Some(jsons(artifacts@)),
            ),
        carries_on(context) && (forall|i: int|
            0 <= i < artifacts@.len() ==> sound_artifact(json_of(#[trigger] artifacts@[i])))
            ==> well_made(task@),
        task.id@ == context.task_id@,
        task.context_id@ == context.context_id@,
        task@.id == context.task_id@,
        task@.context_id == context.context_id@,
        task@.state == TaskState::Completed,
        task@.artifacts == Some(jsons(artifacts@)),
        task@.history == match context.stored_task {
            Some(stored) => stored@.history,
            None => None,
        },
{
    let id = new_message_id();
    let message = agent_message(id.as_str(), output);
    assert(json_of(message) == agent_message_of(id@, output@));
    proof {
        let list = jsons(artifacts@);
        if carries_on(context) && (forall|i: int|
            0 <= i < artifacts@.len() ==> sound_artifact(json_of(#[trigger] artifacts@[i]))) {
            assert forall|i: int| 0 <= i < list.len() implies sound_artifact(#[trigger] list[i]) by {
                assert(list[i] == json_of(artifacts@[i]));
            }
            law_ended_task_is_well_made(context, TaskState::Completed, id@, output@, Some(list));
        }
    }
    finished_task(context, TaskState::Completed, message, Some(artifacts))
}

/// The task that failed: the error as the message, under a fresh id, and no
/// artifacts.
pub fn failed_task(context: ExecutorContext, error: &str) -> (task: Task)
    ensures
        exists|id: Seq<char>|
            task@ == finished(
                context,
                TaskState::Failed,
                #[trigger] agent_message_of(id, error@),
                None,
            ),
        carries_on(context) ==> well_made(task@),
        task.id@ == context.task_id@,
        task.context_id@ == context.context_id@,
        task@.id == context.task_id@,
        task@.context_id == context.context_id@,
        task@.state == TaskState::Failed,
        task@.artifacts is None,
        task@.history == match context.stored_task {
            Some(stored) => stored@.history,
            None => None,
        },
{
    let id = new_message_id();
    let message = agent_message(id.as_str(), error);
    assert(json_of(message) == agent_message_of(id@, error@));
    proof {
        if carries_on(context) {
            law_ended_task_is_well_made(context, TaskState::Failed, id@, error@, None);
        }
    }
    finished_task(context, TaskState::Failed, message, None)
}

/// The task that the harness ran to its end: completed with its artifacts, or
/// failed where they cannot be collected.
pub fn task_from_files(
    context: ExecutorContext,
    output: &str,
    files: Vec<ArtifactFile>,
) -> (task: Task)
    ensures
        exists|id: Seq<char>|
            match artifacts_of(ranked(files@), 0) {
                Ok(left) => task@ == finished(
                    context,
                    TaskState::Completed,
                    #[trigger] agent_message_of(id, output@),
                    Some(completed_artifacts(left, output@)),
                ),
                Err(error) => task@ == finished(
                    context,
                    TaskState::Failed,
                    agent_message_of(id, error),
                    None,
                ),
            },
        carries_on(context) && sound_files(ranked(files@)) ==> well_made(task@),
        task.id@ == context.task_id@,
        task.context_id@ == context.context_id@,
        task@.id == context.task_id@,
        task@.context_id == context.context_id@,
        task@.history == match context.stored_task {
            Some(stored) => stored@.history,
            None => None,
        },
{
    let id = new_message_id();
    proof {
        let left = artifacts_of(ranked(files@), 0);
        if carries_on(context) && sound_files(ranked(files@)) {
            match left {
                Ok(found) => {
                    law_collected_artifacts_are_sound(ranked(files@), output@);
                    law_ended_task_is_well_made(
                        context,
                        TaskState::Completed,
                        id@,
                        output@,
                        Some(completed_artifacts(found, output@)),
                    );
                },
                Err(error) => {
                    law_ended_task_is_well_made(context, TaskState::Failed, id@, error, None);
                },
            }
        }
    }
    let task = match task_artifacts(files, output) {
        Ok(artifacts) => {
            let message = agent_message(id.as_str(), output);
            finished_task(context, TaskState::Completed, message, Some(artifacts))
        },
        Err(error) => {
            let message = agent_message(id.as_str(), error.as_str());
            finished_task(context, TaskState::Failed, message, None)
        },
    };
    proof {
        let chosen = id@;
        let _ = agent_message_of(chosen, output@);
    }
    task
}

/// A task that was canceled, with the history it had.
pub open spec fn canceled(context: ExecutorContext) -> TaskView {
    TaskView {
        id: context.task_id@,
        context_id: context.context_id@,
        state: TaskState::Canceled,
        message: None,
        timestamp: None,
        artifacts: None,
        history: stored_history(context),
        metadata: None,
    }
}

pub fn canceled_task(context: ExecutorContext) -> (task: Task)
    ensures
        task@ == canceled(context),
        carries_on(context) ==> well_made(task@),
        task.id@ == context.task_id@,
        task.context_id@ == context.context_id@,
        task@.id == context.task_id@,
        task@.context_id == context.context_id@,
        task@.state == TaskState::Canceled,
        task@.history == match context.stored_task {
            Some(stored) => stored@.history,
            None => None,
        },
{
    proof {
        if carries_on(context) {
            law_ended_task_is_well_made(context, TaskState::Canceled, seq![], seq![], None);
        }
    }
    Task {
        id: context.task_id,
        context_id: context.context_id,
        status: TaskStatus { state: TaskState::Canceled, message: None, timestamp: None },
        artifacts: None,
        history: history_of(context.stored_task),
        metadata: None,
    }
}

/// Runs an agent's tasks through its ACP harness.
#[derive(Clone, Debug)]
pub struct AcpAgentExecutor {
    pub agent: AgentDefinition,
    pub data_dir: String,
}

impl AcpAgentExecutor {
    #[must_use]
    pub fn new(agent: AgentDefinition, data_dir: String) -> (executor: Self)
        ensures
            executor.agent == agent,
            executor.data_dir == data_dir,
    {
        AcpAgentExecutor { agent: agent, data_dir: data_dir }
    }

    pub fn cancel(&self, context: ExecutorContext) -> (task: Task)
        ensures
            task@ == canceled(context),
            task.id@ == context.task_id@,
            task.context_id@ == context.context_id@,
            task@.id == context.task_id@,
            task@.context_id == context.context_id@,
            task@.state == TaskState::Canceled,
            task@.history == match context.stored_task {
                Some(stored) => stored@.history,
                None => None,
            },
    {
        canceled_task(context)
    }
}

/// Answers every task with its own text.
#[derive(Clone, Debug)]
pub struct EchoAgentExecutor;

impl Default for EchoAgentExecutor {
    fn default() -> (executor: Self)
        ensures
            executor == EchoAgentExecutor,
    {
        EchoAgentExecutor
    }
}

/// A task that was answered with its own text.
pub open spec fn echoed(context: ExecutorContext, id: Seq<char>) -> TaskView {
    TaskView {
        id: context.task_id@,
        context_id: context.context_id@,
        state: TaskState::Completed,
        message: Some(
            agent_message_of(
                id,
                "Echo from mesh-llm A2A test executor: "@ + user_text(context.message),
            ),
        ),
        timestamp: None,
        artifacts: None,
        history: None,
        metadata: None,
    }
}

impl EchoAgentExecutor {
    /// The answer to a task, under a fresh message id.
    pub fn execute(&self, context: ExecutorContext) -> (task: Task)
        ensures
            exists|id: Seq<char>| task@ == #[trigger] echoed(context, id),
            well_made(task@),
            task.id@ == context.task_id@,
            task.context_id@ == context.context_id@,
            task@.id == context.task_id@,
            task@.context_id == context.context_id@,
            task@.state == TaskState::Completed,
    {
        let id = new_message_id();
        let ghost given = context;
        proof {
            lemma_echoed_task(context, id@);
        }
        let text = plus(
            "Echo from mesh-llm A2A test executor: ".to_string(),
            user_prompt(&context.message).as_str(),
        );
        let message = agent_message(id.as_str(), text.as_str());
        let task = Task {
            id: context.task_id,
            context_id: context.context_id,
            status: TaskStatus {
                state: TaskState::Completed,
                message: Some(message),
                timestamp: None,
            },
            artifacts: None,
            history: None,
            metadata: None,
        };
        assert(task@ == echoed(given, id@));
        task
    }

    pub fn cancel(&self, context: ExecutorContext) -> (task: Task)
        ensures
            task@ == canceled(context),
            task.id@ == context.task_id@,
            task.context_id@ == context.context_id@,
            task@.id == context.task_id@,
            task@.context_id == context.context_id@,
            task@.state == TaskState::Canceled,
            task@.history == match context.stored_task {
                Some(stored) => stored@.history,
                None => None,
            },
    {
        canceled_task(context)
    }
}

proof fn lemma_names_are_free()
    ensures
        reserved_name().len() == 30,
        "artifactId"@.len() == 10,
        "name"@.len() == 4,
        "description"@.len() == 11,
        "parts"@.len() == 5,
        "metadata"@.len() == 8,
        "path_hint"@.len() == 9,
        "text"@.len() == 4,
        "data"@.len() == 4,
        "mediaType"@.len() == 9,
        "messageId"@.len() == 9,
        "role"@.len() == 4,
        "mesh_llm_executor"@.len() == 17,
{
    reveal_strlit("$serde_json::private::RawValue");
    reveal_strlit("artifactId");
    reveal_strlit("name");
    reveal_strlit("description");
    reveal_strlit("parts");
    reveal_strlit("metadata");
    reveal_strlit("path_hint");
    reveal_strlit("text");
    reveal_strlit("data");
    reveal_strlit("mediaType");
    reveal_strlit("messageId");
    reveal_strlit("role");
    reveal_strlit("mesh_llm_executor");
}

proof fn lemma_made_artifact(id: Seq<char>, description: Seq<char>, part: JsonView)
    requires
        plain_part(part),
    ensures
        plain_artifact(artifact_document(id, description, part)),
        unreserved(part) ==> unreserved(artifact_document(id, description, part)),
{
    let hint = map!["path_hint"@ => JsonView::Text(id)];
    let parts = seq![part];
    assert(plain_parts(parts));
    let artifact = artifact_form(id, id, description, parts, hint);
    lemma_names_are_free();
    lemma_unreserved_object(hint);
    lemma_unreserved_array(parts);
    lemma_unreserved_object(artifact->Object_0);
}

/// An artifact that is made of a text or of data has the form that the A2A crate
/// writes, and an object in it has the reserved name only where one in the data has.
pub proof fn law_made_artifacts_are_plain(id: Seq<char>, text: Seq<char>, data: JsonView)
    ensures
        plain_artifact(text_artifact_of(id, text)),
        unreserved(text_artifact_of(id, text)),
        plain_artifact(data_artifact_of(id, data)),
        unreserved(data) ==> unreserved(data_artifact_of(id, data)),
{
    let text_side = typed_text_part(text, media_type_of(id));
    let data_side = data_part(data, "application/json"@);
    lemma_names_are_free();
    lemma_unreserved_object(text_side->Object_0);
    lemma_unreserved_object(data_side->Object_0);
    lemma_made_artifact(id, "Text artifact produced by the ACP harness."@, text_side);
    lemma_made_artifact(id, "Structured artifact produced by the ACP harness."@, data_side);
}

/// An artifact in the form that the A2A crate writes, in which no object has the
/// reserved name.
pub open spec fn sound_artifact(artifact: JsonView) -> bool {
    plain_artifact(artifact) && unreserved(artifact)
}

/// In no JSON file that a harness left does an object have the reserved name.
pub open spec fn sound_files(files: Seq<ArtifactFile>) -> bool {
    forall|i: int|
        #![trigger files[i]]
        0 <= i < files.len() && files[i].content is Text && parsed_json(
            files[i].content->Text_0@,
        ) is Ok ==> unreserved(parsed_json(files[i].content->Text_0@)->Ok_0)
}

proof fn lemma_collected_artifacts(files: Seq<ArtifactFile>, from: int)
    requires
        0 <= from <= files.len(),
        sound_files(files),
    ensures
        artifacts_of(files, from) is Ok ==> forall|i: int|
            0 <= i < artifacts_of(files, from)->Ok_0.len() ==> sound_artifact(
                #[trigger] artifacts_of(files, from)->Ok_0[i],
            ),
    decreases files.len() - from,
{
    if from < files.len() {
        lemma_collected_artifacts(files, from + 1);
        let file = files[from];
        if let (Some(name), ArtifactText::Text(text)) = (file_name_of(file.path@), file.content) {
            match parsed_json(text@) {
                Ok(data) => {
                    law_made_artifacts_are_plain(name, text@, data);
                },
                Err(_) => {
                    law_made_artifacts_are_plain(name, text@, JsonView::Null);
                },
            }
        }
    }
}

proof fn lemma_fallback_findings(output: Seq<char>)
    ensures
        unreserved(fallback_findings(output)),
{
    reveal_strlit("$serde_json::private::RawValue");
    reveal_strlit("schema_version");
    reveal_strlit("target");
    reveal_strlit("status");
    reveal_strlit("summary");
    reveal_strlit("findings");
    reveal_strlit("residual_risk");
    assert(reserved_name().len() == 30);
    lemma_unreserved_array(seq![]);
    lemma_unreserved_object(fallback_findings(output)->Object_0);
}

/// The artifacts of a completed task have the form that the A2A crate writes.
pub proof fn law_collected_artifacts_are_sound(files: Seq<ArtifactFile>, output: Seq<char>)
    requires
        artifacts_of(files, 0) is Ok,
        sound_files(files),
    ensures
        forall|i: int|
            0 <= i < completed_artifacts(artifacts_of(files, 0)->Ok_0, output).len()
                ==> sound_artifact(
                #[trigger] completed_artifacts(artifacts_of(files, 0)->Ok_0, output)[i],
            ),
{
    let left = artifacts_of(files, 0)->Ok_0;
    lemma_collected_artifacts(files, 0);
    lemma_fallback_findings(output);
    law_made_artifacts_are_plain("summary.md"@, output, JsonView::Null);
    law_made_artifacts_are_plain("findings.json"@, output, fallback_findings(output));
    let summary = text_artifact_of("summary.md"@, output);
    let with_summary = if has_artifact(left, "summary.md"@) {
        left
    } else {
        left.insert(0, summary)
    };
    assert forall|i: int| 0 <= i < with_summary.len() implies sound_artifact(
        #[trigger] with_summary[i],
    ) by {
        if has_artifact(left, "summary.md"@) {
            assert(with_summary[i] == left[i]);
        } else if i > 0 {
            assert(with_summary[i] == left[i - 1]);
        }
    }
    let all = completed_artifacts(left, output);
    assert forall|i: int| 0 <= i < all.len() implies sound_artifact(#[trigger] all[i]) by {
        if i < with_summary.len() {
            assert(all[i] == with_summary[i]);
        }
    }
}

proof fn lemma_agent_message(id: Seq<char>, text: Seq<char>)
    ensures
        plain_message(agent_message_of(id, text)),
        unreserved(agent_message_of(id, text)),
{
    let part = text_part(text);
    let parts = seq![part];
    let message = message_form(id, "ROLE_AGENT"@, parts);
    assert(plain_part(part));
    assert(plain_parts(parts));
    lemma_names_are_free();
    lemma_unreserved_object(part->Object_0);
    lemma_unreserved_array(parts);
    lemma_unreserved_object(message->Object_0);
}

proof fn lemma_echoed_task(context: ExecutorContext, id: Seq<char>)
    ensures
        well_made(echoed(context, id)),
{
    lemma_agent_message(
        id,
        "Echo from mesh-llm A2A test executor: "@ + user_text(context.message),
    );
    lemma_unreserved_document(echoed(context, id));
}

/// Every task that an executor ends is well made, so it is kept and read back as it
/// was: one that is completed with artifacts in the form that the A2A crate writes,
/// that fails, that is canceled or that is echoed, where the task whose history it
/// carries on was read from the store.
pub proof fn law_ended_task_is_well_made(
    context: ExecutorContext,
    state: TaskState,
    id: Seq<char>,
    text: Seq<char>,
    artifacts: Option<Seq<JsonView>>,
)
    requires
        carries_on(context),
        artifacts is Some ==> forall|i: int|
            0 <= i < artifacts->0.len() ==> sound_artifact(#[trigger] artifacts->0[i]),
    ensures
        well_made(finished(context, state, agent_message_of(id, text), artifacts)),
        well_made(canceled(context)),
        well_made(echoed(context, id)),
{
    lemma_names_are_free();
    lemma_agent_message(id, text);
    lemma_echoed_task(context, id);
    lemma_unreserved_object(executor_note());
    let ended = finished(context, state, agent_message_of(id, text), artifacts);
    lemma_unreserved_document(ended);
    lemma_unreserved_document(canceled(context));
    if let Some(stored) = context.stored_task {
        law_settled_task_is_well_made(stored@);
        lemma_unreserved_document(stored@);
    }
    assert forall|item: JsonView| #[trigger] lists(artifacts, item) implies sound_artifact(item) by {
        let i = choose|i: int| 0 <= i < artifacts->0.len() && artifacts->0[i] == item;
        assert(sound_artifact(artifacts->0[i]));
    }
}

/// A text artifact can be read again, and so can an artifact of data that can be, as
/// deep as the data stands in the document of a task.
pub proof fn law_made_artifacts_are_readable(id: Seq<char>, text: Seq<char>, data: JsonView)
    ensures
        readable_within(text_artifact_of(id, text), 125),
        readable_within(data, 122) ==> readable_within(data_artifact_of(id, data), 125),
{
    lemma_names_are_free();
    let hint = map!["path_hint"@ => JsonView::Text(id)];
    let text_side = typed_text_part(text, media_type_of(id));
    let data_side = data_part(data, "application/json"@);
    lemma_readable_object(hint, 123);
    lemma_readable_object(text_side->Object_0, 122);
    lemma_readable_object(data_side->Object_0, 122);
    lemma_readable_array(seq![text_side], 123);
    lemma_readable_array(seq![data_side], 123);
    lemma_readable_object(text_artifact_of(id, text)->Object_0, 124);
    lemma_readable_object(data_artifact_of(id, data)->Object_0, 124);
}

proof fn lemma_readable_message(id: Seq<char>, text: Seq<char>)
    ensures
        readable_within(agent_message_of(id, text), 125),
{
    lemma_names_are_free();
    let part = text_part(text);
    lemma_readable_object(part->Object_0, 122);
    lemma_readable_array(seq![part], 123);
    lemma_readable_object(agent_message_of(id, text)->Object_0, 124);
}

/// The document of a task that an executor ends can be read again, where that of the
/// task whose history it carries on can, and its artifacts can as deep as they stand
/// in it.
pub proof fn law_ended_task_is_readable(
    context: ExecutorContext,
    state: TaskState,
    id: Seq<char>,
    text: Seq<char>,
    artifacts: Option<Seq<JsonView>>,
)
    requires
        context.stored_task is Some ==> readable_within(
            document_of(context.stored_task->0@),
            127,
        ),
        artifacts is Some ==> forall|i: int|
            0 <= i < artifacts->0.len() ==> readable_within(#[trigger] artifacts->0[i], 125),
    ensures
        readable_within(
            document_of(finished(context, state, agent_message_of(id, text), artifacts)),
            127,
        ),
        readable_within(document_of(canceled(context)), 127),
        readable_within(document_of(echoed(context, id)), 127),
{
    lemma_names_are_free();
    lemma_readable_message(id, text);
    lemma_readable_message(
        id,
        "Echo from mesh-llm A2A test executor: "@ + user_text(context.message),
    );
    lemma_readable_object(executor_note(), 125);
    if let Some(list) = artifacts {
        lemma_readable_array(list, 125);
    }
    if let Some(stored) = context.stored_task {
        lemma_readable_document(stored@);
    }
    lemma_readable_document(finished(context, state, agent_message_of(id, text), artifacts));
    lemma_readable_document(canceled(context));
    lemma_readable_document(echoed(context, id));
}

/// Every task that an executor ends is the task it was told to run, in the context it
/// was told, and goes on with the history that was stored: whether it ends completed
/// or failed, with files or without, or is canceled. An echoed task is the task, too.
pub proof fn law_ended_task_is_the_one_begun(
    context: ExecutorContext,
    state: TaskState,
    message: serde_json::Value,
    artifacts: Option<Vec<serde_json::Value>>,
    text: &str,
    left: Vec<serde_json::Value>,
    files: Vec<ArtifactFile>,
    echo: &EchoAgentExecutor,
    bridge: &AcpAgentExecutor,
    task: Task,
)
    requires
        call_ensures(finished_task, (context, state, message, artifacts), task) || call_ensures(
            completed_task,
            (context, text, left),
            task,
        ) || call_ensures(failed_task, (context, text), task) || call_ensures(
            task_from_files,
            (context, text, files),
            task,
        ) || call_ensures(canceled_task, (context,), task) || call_ensures(
            EchoAgentExecutor::execute,
            (echo, context),
            task,
        ) || call_ensures(EchoAgentExecutor::cancel, (echo, context), task) || call_ensures(
            AcpAgentExecutor::cancel,
            (bridge, context),
            task,
        ),
    ensures
        task.id@ == context.task_id@,
        task.context_id@ == context.context_id@,
        call_ensures(EchoAgentExecutor::execute, (echo, context), task) || optional_jsons(
            task.history,
        ) == match context.stored_task {
            Some(stored) => optional_jsons(stored.history),
            None => None,
        },
{
}

/// What a task ends on: one message of the agent with that text.
pub open spec fn ends_on(task: Task, text: Seq<char>) -> bool {
    task.status.message is Some && message_text_of(json_of(task.status.message->0)) == Some(text)
        && text_member_of(json_of(task.status.message->0), "role"@) == Some("ROLE_AGENT"@)
}

proof fn lemma_message_text(id: Seq<char>, text: Seq<char>)
    ensures
        message_text_of(agent_message_of(id, text)) == Some(text),
        text_member_of(agent_message_of(id, text), "role"@) == Some("ROLE_AGENT"@),
        text_member_of(agent_message_of(id, text), "messageId"@) == Some(id),
{
    lemma_member_names();
    let message = agent_message_of(id, text);
    let parts = seq![text_part(text)];
    assert(items_member(message, "parts"@) == parts);
    assert(parts[0] == text_part(text));
    assert(text_member_of(parts[0], "text"@) == Some(text));
}

/// A completed task says the output of its harness and holds the artifacts it was
/// given, as many and in that order. A failed one says the error and holds none.
pub proof fn law_task_ends_on_its_text(
    context: ExecutorContext,
    output: &str,
    artifacts: Vec<serde_json::Value>,
    completed: Task,
    error: &str,
    failed: Task,
)
    requires
        call_ensures(completed_task, (context, output, artifacts), completed),
        call_ensures(failed_task, (context, error), failed),
    ensures
        completed.status.state == TaskState::Completed,
        ends_on(completed, output@),
        optional_jsons(completed.artifacts) == Some(jsons(artifacts@)),
        completed.status.timestamp is None,
        failed.status.state == TaskState::Failed,
        ends_on(failed, error@),
        failed.artifacts is None,
        completed.metadata is Some && members_of(completed.metadata->0)["mesh_llm_executor"@]
            == JsonView::Text("acp"@),
        failed.metadata is Some && members_of(failed.metadata->0)["mesh_llm_executor"@]
            == JsonView::Text("acp"@),
{
    let a = choose|id: Seq<char>|
        completed@ == finished(
            context,
            TaskState::Completed,
            #[trigger] agent_message_of(id, output@),
            Some(jsons(artifacts@)),
        );
    let b = choose|id: Seq<char>|
        failed@ == finished(
            context,
            TaskState::Failed,
            #[trigger] agent_message_of(id, error@),
            None,
        );
    lemma_message_text(a, output@);
    lemma_message_text(b, error@);
    assert(completed@.message == Some(agent_message_of(a, output@)));
    assert(failed@.message == Some(agent_message_of(b, error@)));
    assert(completed@.metadata == Some(executor_note()));
    assert(failed@.metadata == Some(executor_note()));
}

/// An echoed task is completed, and says the text that it was asked.
pub proof fn law_echo_says_the_text(echo: &EchoAgentExecutor, context: ExecutorContext, task: Task)
    requires
        call_ensures(EchoAgentExecutor::execute, (echo, context), task),
    ensures
        task.status.state == TaskState::Completed,
        ends_on(
            task,
            "Echo from mesh-llm A2A test executor: "@ + match context.message {
                Some(message) => match message_text_of(json_of(message)) {
                    Some(text) => text,
                    None => seq![],
                },
                None => seq![],
            },
        ),
        task.artifacts is None,
{
    let id = choose|id: Seq<char>| task@ == #[trigger] echoed(context, id);
    lemma_message_text(
        id,
        "Echo from mesh-llm A2A test executor: "@ + user_text(context.message),
    );
    assert(task@.message == echoed(context, id).message);
}

/// A canceled task says nothing and holds no artifact.
pub proof fn law_canceled_task_is_bare(context: ExecutorContext, task: Task)
    requires
        call_ensures(canceled_task, (context,), task),
    ensures
        task.status.state == TaskState::Canceled,
        task.status.message is None,
        task.artifacts is None,
        task.metadata is None,
{
    assert(task@.message is None);
    assert(task@.metadata is None);
    assert(task@.artifacts is None);
}

/// The artifact is known by that id: it is its id, its name and the hint of its path.
pub open spec fn goes_by(artifact: JsonView, id: Seq<char>) -> bool {
    &&& text_member_of(artifact, "artifactId"@) == Some(id)
    &&& text_member_of(artifact, "name"@) == Some(id)
    &&& member_of(artifact, "metadata"@) is Some
    &&& text_member_of(member_of(artifact, "metadata"@)->0, "path_hint"@) == Some(id)
}

/// A text artifact goes by the id it is given, and its one part holds the text, with
/// the media type that the ending of the id stands for.
pub proof fn law_text_artifact_holds_its_text(
    artifact_id: &str,
    text: &str,
    document: serde_json::Value,
)
    requires
        call_ensures(text_artifact, (artifact_id, text), document),
    ensures
        goes_by(json_of(document), artifact_id@),
        items_member(json_of(document), "parts"@).len() == 1,
        ({
            let part = items_member(json_of(document), "parts"@)[0];
            &&& text_member_of(part, "text"@) == Some(text@)
            &&& member_of(part, "data"@) is None
            &&& has_suffix(artifact_id@, ".md"@) ==> text_member_of(part, "mediaType"@) == Some(
                "text/markdown"@,
            )
            &&& !has_suffix(artifact_id@, ".md"@) && has_suffix(artifact_id@, ".json"@)
                ==> text_member_of(part, "mediaType"@) == Some("application/json"@)
            &&& !has_suffix(artifact_id@, ".md"@) && !has_suffix(artifact_id@, ".json"@)
                ==> text_member_of(part, "mediaType"@) == Some("text/plain"@)
        }),
{
    lemma_member_names();
    let part = typed_text_part(text@, media_type_of(artifact_id@));
    assert(items_member(json_of(document), "parts"@) == seq![part]);
}

/// A data artifact goes by the id it is given, and its one part holds the data.
pub proof fn law_data_artifact_holds_its_data(
    artifact_id: &str,
    value: serde_json::Value,
    document: serde_json::Value,
)
    requires
        call_ensures(data_artifact, (artifact_id, value), document),
    ensures
        goes_by(json_of(document), artifact_id@),
        items_member(json_of(document), "parts"@).len() == 1,
        ({
            let part = items_member(json_of(document), "parts"@)[0];
            &&& member_of(part, "data"@) == Some(json_of(value))
            &&& member_of(part, "text"@) is None
            &&& text_member_of(part, "mediaType"@) == Some("application/json"@)
        }),
{
    lemma_member_names();
    let part = data_part(json_of(value), "application/json"@);
    assert(items_member(json_of(document), "parts"@) == seq![part]);
}

/// A file that was read gives an artifact under its own name: of data, where it is a
/// `json` file, which must then be JSON, and else of its text. Of one that cannot be
/// read or parsed the error names the path.
pub proof fn law_file_gives_its_content(
    file: &ArtifactFile,
    artifact: Result<serde_json::Value, String>,
)
    requires
        call_ensures(artifact_from_file, (file,), artifact),
        file_name_of(file.path@) is Some,
    ensures
        file.content is Text && !has_json_extension(file.path@) ==> {
            &&& artifact is Ok
            &&& goes_by(json_of(artifact->Ok_0), file_name_of(file.path@)->0)
            &&& items_member(json_of(artifact->Ok_0), "parts"@).len() == 1
            &&& text_member_of(items_member(json_of(artifact->Ok_0), "parts"@)[0], "text"@) == Some(
                file.content->Text_0@,
            )
        },
        file.content is Text && has_json_extension(file.path@) ==> {
            &&& artifact is Ok <==> parsed_json(file.content->Text_0@) is Ok
            &&& artifact is Ok ==> {
                &&& goes_by(json_of(artifact->Ok_0), file_name_of(file.path@)->0)
                &&& items_member(json_of(artifact->Ok_0), "parts"@).len() == 1
                &&& member_of(items_member(json_of(artifact->Ok_0), "parts"@)[0], "data"@) == Some(
                    parsed_json(file.content->Text_0@)->Ok_0,
                )
            }
            &&& artifact is Err ==> has_suffix(artifact->Err_0@, file.path@)
        },
        file.content is Unreadable ==> artifact is Err && has_suffix(
            artifact->Err_0@,
            file.path@,
        ),
        file.content is BadName ==> artifact is Err,
{
    lemma_member_names();
    let name = file_name_of(file.path@)->0;
    match file.content {
        ArtifactText::Text(text) => {
            let part = typed_text_part(text@, media_type_of(name));
            assert(items_member(text_artifact_of(name, text@), "parts"@) == seq![part]);
            if let Ok(data) = parsed_json(text@) {
                let part = data_part(data, "application/json"@);
                assert(items_member(data_artifact_of(name, data), "parts"@) == seq![part]);
            } else {
                let said = "failed to parse JSON artifact "@ + file.path@;
                assert(said.skip(said.len() - file.path@.len()) =~= file.path@);
            }
        },
        ArtifactText::Unreadable => {
            let said = "failed to read artifact "@ + file.path@;
            assert(said.skip(said.len() - file.path@.len()) =~= file.path@);
        },
        ArtifactText::BadName => {},
    }
}

proof fn lemma_one_artifact_a_file(files: Seq<ArtifactFile>, from: int, at: int)
    requires
        0 <= from <= at < files.len(),
        artifacts_of(files, from) is Ok,
    ensures
        artifacts_of(files, from)->Ok_0.len() == files.len() - from,
        artifact_of_file(files[at]) is Ok,
        artifact_of_file(files[at])->Ok_0 == artifacts_of(files, from)->Ok_0[at - from],
    decreases files.len() - from,
{
    let rest = artifacts_of(files, from + 1);
    assert(artifact_of_file(files[from]) is Ok);
    assert(rest is Ok);
    let list = artifacts_of(files, from)->Ok_0;
    assert(list == seq![artifact_of_file(files[from])->Ok_0] + rest->Ok_0);
    if from + 1 < files.len() {
        if from < at {
            lemma_one_artifact_a_file(files, from + 1, at);
            assert(list[at - from] == rest->Ok_0[at - from - 1]);
        } else {
            lemma_one_artifact_a_file(files, from + 1, from + 1);
        }
    }
}

proof fn lemma_first_failure(files: Seq<ArtifactFile>, from: int, at: int)
    requires
        0 <= from <= at < files.len(),
        artifact_of_file(files[at]) is Err,
        forall|i: int| from <= i < at ==> artifact_of_file(#[trigger] files[i]) is Ok,
    ensures
        artifacts_of(files, from) is Err,
        artifacts_of(files, from)->Err_0 == artifact_of_file(files[at])->Err_0,
    decreases at - from,
{
    if from < at {
        assert(artifact_of_file(files[from]) is Ok);
        lemma_first_failure(files, from + 1, at);
    }
}

/// The files of a task give one artifact each, in the order of their paths; or, where
/// some file gives none, the error of the first such file.
pub proof fn law_each_file_gives_an_artifact(
    files: Vec<ArtifactFile>,
    artifacts: Result<Vec<serde_json::Value>, String>,
    given: &ArtifactFile,
    single: Result<serde_json::Value, String>,
    i: int,
)
    requires
        call_ensures(artifacts_from_dir, (files,), artifacts),
        0 <= i < files@.len(),
        *given == ranked(files@)[i],
        call_ensures(artifact_from_file, (given,), single),
    ensures
        artifacts is Ok ==> single is Ok && artifacts->Ok_0@.len() == files@.len() && json_of(
            artifacts->Ok_0@[i],
        ) == json_of(single->Ok_0),
        single is Err ==> artifacts is Err,
        single is Err && (forall|k: int|
            0 <= k < i ==> artifact_of_file(#[trigger] ranked(files@)[k]) is Ok)
            ==> artifacts->Err_0@ == single->Err_0@,
        is_ranked(ranked(files@)),
        files@.to_multiset() == ranked(files@).to_multiset(),
{
    let sorted = ranked(files@);
    law_sorting(files@);
    sorted.to_multiset_ensures();
    files@.to_multiset_ensures();
    assert(sorted.len() == files@.len());
    if let Ok(list) = artifacts {
        lemma_one_artifact_a_file(sorted, 0, i);
        assert(jsons(list@)[i] == json_of(list@[i]));
    }
    if single is Err && (forall|k: int|
        0 <= k < i ==> artifact_of_file(#[trigger] sorted[k]) is Ok) {
        lemma_first_failure(sorted, 0, i);
    }
}

/// Where the harness left no summary, the first artifact is `summary.md` with its
/// output. Where it left no findings, the last is `findings.json`, a completed report
/// without findings whose summary is the trimmed output.
pub proof fn law_defaults_tell_the_output(
    left: Vec<serde_json::Value>,
    output: &str,
    artifacts: Vec<serde_json::Value>,
)
    requires
        call_ensures(with_default_artifacts, (left, output), artifacts),
    ensures
        !has_artifact(jsons(left@), "summary.md"@) ==> {
            let first = json_of(artifacts@[0]);
            &&& artifacts@.len() > left@.len()
            &&& goes_by(first, "summary.md"@)
            &&& items_member(first, "parts"@).len() == 1
            &&& text_member_of(items_member(first, "parts"@)[0], "text"@) == Some(output@)
            &&& text_member_of(items_member(first, "parts"@)[0], "mediaType"@) == Some(
                "text/markdown"@,
            )
        },
        !has_artifact(jsons(left@), "findings.json"@) ==> {
            let last = json_of(artifacts@[artifacts@.len() - 1]);
            let findings = member_of(items_member(last, "parts"@)[0], "data"@);
            &&& artifacts@.len() > left@.len()
            &&& goes_by(last, "findings.json"@)
            &&& items_member(last, "parts"@).len() == 1
            &&& findings is Some
            &&& text_member_of(findings->0, "summary"@) == Some(trimmed(output@))
            &&& text_member_of(findings->0, "status"@) == Some("completed"@)
            &&& member_of(findings->0, "findings"@) == Some(JsonView::Array(seq![]))
            &&& member_of(findings->0, "target"@) == Some(JsonView::Null)
            &&& member_of(findings->0, "schema_version"@) == Some(JsonView::Integer(1))
        },
{
    lemma_member_names();
    reveal_strlit("summary.md");
    reveal_strlit("findings.json");
    reveal_strlit(".md");
    let all = jsons(artifacts@);
    let given = jsons(left@);
    let summary = text_artifact_of("summary.md"@, output@);
    let findings = data_artifact_of("findings.json"@, fallback_findings(output@));
    assert("summary.md"@.skip(7) =~= ".md"@);
    assert(has_suffix("summary.md"@, ".md"@));
    assert(items_member(summary, "parts"@) == seq![
        typed_text_part(output@, media_type_of("summary.md"@)),
    ]);
    assert(items_member(findings, "parts"@) == seq![
        data_part(fallback_findings(output@), "application/json"@),
    ]);
    lemma_made_artifact_id(
        "summary.md"@,
        "Text artifact produced by the ACP harness."@,
        typed_text_part(output@, media_type_of("summary.md"@)),
    );
    let with_summary = if has_artifact(given, "summary.md"@) {
        given
    } else {
        given.insert(0, summary)
    };
    if !has_artifact(given, "summary.md"@) {
        assert(with_summary.len() == given.len() + 1);
        assert(all[0] == summary);
        assert(all.len() == artifacts@.len());
        assert(all[0] == json_of(artifacts@[0]));
    }
    if !has_artifact(given, "findings.json"@) {
        assert("summary.md"@.len() != "findings.json"@.len());
        assert forall|i: int| 0 <= i < with_summary.len() implies artifact_id_of(
            #[trigger] with_summary[i],
        ) != "findings.json"@ by {
            if has_artifact(given, "summary.md"@) {
                assert(with_summary[i] == given[i]);
            } else if i > 0 {
                assert(with_summary[i] == given[i - 1]);
            }
        }
        assert(!has_artifact(with_summary, "findings.json"@));
        assert(all == with_summary.push(findings));
        assert(all[all.len() - 1] == findings);
        assert(all[all.len() - 1] == json_of(artifacts@[artifacts@.len() - 1]));
    }
}

/// What happened to a task on the way to and from its harness.
#[derive(Clone, Debug, PartialEq, Eq)]
pub enum BridgeTaskEvent {
    StatusChanged { task_id: String, status: String },
    MessageDelta { task_id: String, text: String },
    ArtifactCreated { task_id: String, artifact_id: String },
    InputRequired { task_id: String, prompt: String },
    Completed { task_id: String },
    Failed { task_id: String, error: String },
}

} // verus!
