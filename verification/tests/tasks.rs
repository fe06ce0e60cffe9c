use mesh_agents::artifacts::{
    artifact_from_file, canceled_task, completed_task, data_artifact, failed_task,
    fallback_findings_json, media_type_for, task_artifacts, task_from_files, text_artifact,
    AcpAgentExecutor, ArtifactFile, ArtifactText, EchoAgentExecutor, ExecutorContext,
};
use mesh_agents::service::agent_task_store_path;
use mesh_agents::task_store::{
    apply_history_length, begin_cancel, create_error, decode_task, list_tasks, load_task_records,
    mark_interrupted, next_version, recover_active_tasks, sql_error, task_from_value, task_params,
    CancelRefusal, ListTasksRequest, StoredRow, TaskRecord,
};
use mesh_agents::tools::{
    data_artifact_answer, find_artifact, task_answer, text_artifact_answer,
};
use mesh_agents::wire::{Task, TaskState, TaskStatus, Timestamp};
use serde_json::Value;

fn json(text: &str) -> Value {
    serde_json::from_str(text).unwrap()
}

fn task(id: &str, context_id: &str, state: TaskState) -> Task {
    Task {
        id: id.to_string(),
        context_id: context_id.to_string(),
        status: TaskStatus {
            state,
            message: None,
            timestamp: None,
        },
        artifacts: None,
        history: None,
        metadata: None,
    }
}

fn list_request() -> ListTasksRequest {
    ListTasksRequest {
        context_id: None,
        status: None,
        page_size: None,
        page_token: None,
        history_length: None,
        status_timestamp_after: None,
        include_artifacts: None,
        tenant: None,
    }
}

fn stored(task: &Task, version: u64) -> StoredRow {
    let row = task_params(task, version).unwrap();
    StoredRow {
        task_json: row.task_json,
        version: row.version,
    }
}

fn context() -> ExecutorContext {
    ExecutorContext {
        message: None,
        task_id: "task-1".to_string(),
        stored_task: None,
        context_id: "context-1".to_string(),
    }
}

fn file(path: &str, text: &str) -> ArtifactFile {
    ArtifactFile {
        path: path.to_string(),
        content: ArtifactText::Text(text.to_string()),
    }
}

#[test]
fn builds_per_agent_sqlite_path() {
    let path = agent_task_store_path("/tmp/mesh-data", "pr-review");

    assert_eq!(path, "/tmp/mesh-data/a2a/agents/pr-review/tasks.sqlite");
    assert!(path != agent_task_store_path("/tmp/mesh-data", "pr-review2"));
}

#[test]
fn persists_task_across_reopen() {
    let row = task_params(&task("task-1", "ctx-1", TaskState::Completed), 1).unwrap();
    assert_eq!(row.id, "task-1");
    assert_eq!(row.context_id, "ctx-1");
    assert_eq!(row.state, "\"TASK_STATE_COMPLETED\"");
    assert_eq!(row.status_timestamp, None);
    assert_eq!(row.version, 1);

    let restored = decode_task(&row.task_json).unwrap();

    assert_eq!(restored.context_id, "ctx-1");
    assert_eq!(restored.status.state, TaskState::Completed);
}

#[test]
fn stored_tasks_come_back_whole() {
    let document = json(
        r#"{
          "id": "t",
          "contextId": "c",
          "status": {
            "state": "TASK_STATE_INPUT_REQUIRED",
            "message": {
              "messageId": "m1",
              "role": "ROLE_AGENT",
              "parts": [{"text": "which one?"}]
            },
            "timestamp": "2024-05-06T07:08:09.123456Z"
          },
          "artifacts": [
            {"artifactId": "a", "parts": [{"data": {"x": [1, null, true]}}]}
          ],
          "history": [
            {"messageId": "m0", "role": "ROLE_USER", "parts": [{"text": "go"}]}
          ],
          "metadata": {"k": {"n": -4}}
        }"#,
    );
    let task = task_from_value(&document).unwrap();
    let time = task.status.timestamp.as_ref().unwrap();
    assert_eq!((time.seconds, time.nanos), (1714979289, 123456000));
    assert_eq!(time.rfc3339, "2024-05-06T07:08:09.123456+00:00");
    let row = task_params(&task, 3).unwrap();
    assert_eq!(
        row.status_timestamp.as_deref(),
        Some("2024-05-06T07:08:09.123456+00:00")
    );
    let restored = decode_task(&row.task_json).unwrap();
    assert_eq!(restored.document(), task.document());
    assert_eq!(restored.document(), document);
    assert_eq!(restored.metadata.unwrap()["k"]["n"], -4);
}

fn nested(levels: usize) -> Task {
    let mut data = Value::Array(Vec::new());
    for _ in 1..levels {
        data = Value::Array(vec![data]);
    }
    let mut deep = task("t", "c", TaskState::Completed);
    deep.artifacts = Some(vec![data_artifact("x.json", data)]);
    deep
}

#[test]
fn deep_documents_come_back_as_far_as_they_can_be_read() {
    // The task, its artifacts, the artifact, its parts and the part lie around the data.
    let deepest = nested(122);
    let row = task_params(&deepest, 1).unwrap();
    assert_eq!(decode_task(&row.task_json).unwrap().document(), deepest.document());
    let row = task_params(&nested(123), 1).unwrap();
    let error = decode_task(&row.task_json).unwrap_err();
    assert!(error.contains("recursion limit exceeded"), "{error}");
}

#[test]
fn fractions_come_back_where_they_read_as_written() {
    let mut exact = task("t", "c", TaskState::Completed);
    let data = json(r#"[0.5, -1.25, 1e300, 3.0]"#);
    exact.artifacts = Some(vec![data_artifact("x.json", data)]);
    let row = task_params(&exact, 1).unwrap();
    assert_eq!(decode_task(&row.task_json).unwrap().document(), exact.document());
}

#[test]
fn versions_keep_their_bits() {
    let row = task_params(&task("t", "c", TaskState::Working), u64::MAX).unwrap();
    assert_eq!(row.version, -1);
    let records = load_task_records(&vec![StoredRow {
        task_json: row.task_json,
        version: row.version,
    }])
    .unwrap();
    assert_eq!(records[0].version, u64::MAX);
    assert_eq!(next_version(Some(4)), Some(5));
    assert_eq!(next_version(None), None);
}

#[test]
fn rows_that_hold_no_task_are_refused() {
    let good = stored(&task("t", "c", TaskState::Working), 1);
    let bad = StoredRow {
        task_json: "{}".to_string(),
        version: 1,
    };
    let error = load_task_records(&vec![good, bad]).unwrap_err();
    assert_eq!(error, decode_task("{}").unwrap_err());
    assert!(error.contains("missing field"), "{error}");
    assert!(task_from_value(&Value::Null).is_err());
}

#[test]
fn marks_active_tasks_failed_on_reopen() {
    let rows = vec![
        stored(&task("task-1", "ctx-1", TaskState::Working), 1),
        stored(&task("task-2", "ctx-1", TaskState::Completed), 1),
    ];
    let updates = recover_active_tasks(load_task_records(&rows).unwrap());

    assert_eq!(updates.len(), 1);
    let restored = &updates[0].task;
    assert_eq!(restored.status.state, TaskState::Failed);
    assert_eq!(
        restored
            .metadata
            .as_ref()
            .and_then(|metadata| metadata.get("mesh_llm_recovery"))
            .and_then(|value| value.get("interrupted")),
        Some(&Value::Bool(true))
    );
    assert_eq!(
        restored.metadata.as_ref().unwrap()["mesh_llm_recovery"]["reason"],
        format!("mesh-llm restarted before {} task reached a terminal state", "this")
    );
    assert_eq!(updates[0].version, 2);
    assert!(recover_active_tasks(updates).is_empty());
}

#[test]
fn interrupted_tasks_keep_the_rest() {
    let mut working = task("t", "c", TaskState::InputRequired);
    working.status.message = Some(json(r#"{"messageId": "m"}"#));
    working.history = Some(vec![json(r#"{"messageId": "h"}"#)]);
    let mut metadata = serde_json::Map::new();
    metadata.insert("k".to_string(), Value::from(1));
    working.metadata = Some(metadata);
    let marked = mark_interrupted(working);
    assert_eq!(marked.status.state, TaskState::Failed);
    assert!(marked.status.message.is_none());
    assert_eq!(marked.history.unwrap().len(), 1);
    assert_eq!(marked.metadata.unwrap()["k"], 1);
}

/// A task that was read from the store, with all that a stored task can have.
fn busy_task() -> Task {
    let text = r#"{
      "id": "t", "contextId": "c",
      "status": {"state": "TASK_STATE_WORKING", "timestamp": "2026-01-02T03:04:05.678Z",
        "message": {"messageId": "m", "role": "ROLE_AGENT", "parts": [{"url": "http://x"}]}},
      "history": [{"messageId": "h", "role": "ROLE_USER", "taskId": "t", "metadata": {"k": [1]},
        "parts": [{"raw": "AAEC", "filename": "f"}, {"text": "x", "metadata": {"n": {"d": 1}}}]}],
      "artifacts": [{"artifactId": "a", "parts": [{"data": null}]}],
      "metadata": {"kept": true}
    }"#;
    decode_task(text).unwrap()
}

fn read_back(task: &Task) -> Task {
    decode_task(&task_params(task, 1).unwrap().task_json).unwrap()
}

#[test]
fn ended_tasks_come_back_as_they_were() {
    let busy = busy_task();
    assert_eq!(read_back(&busy).document(), busy.document());
    let marked = mark_interrupted(busy.clone());
    let again = read_back(&marked);
    assert_eq!(again.document(), marked.document());
    assert_eq!(
        again.status.timestamp.unwrap().rfc3339,
        busy.status.timestamp.as_ref().unwrap().rfc3339
    );
    let context = || ExecutorContext {
        stored_task: Some(busy.clone()),
        ..context()
    };
    let files = vec![file("out/data.json", r#"{"n": [1, null]}"#), file("out/note.txt", "x")];
    for ended in [
        task_from_files(context(), "done", files),
        failed_task(context(), "no"),
        canceled_task(context()),
        EchoAgentExecutor.execute(context()),
    ] {
        assert_eq!(read_back(&ended).document(), ended.document());
    }
}

#[test]
fn a_restart_is_written_over_the_stored_tasks() {
    let rows = vec![
        stored(&task("a", "c", TaskState::Working), 3),
        stored(&task("b", "c", TaskState::Rejected), 1),
        stored(&busy_task(), 7),
    ];
    let updates = recover_active_tasks(load_task_records(&rows).unwrap());
    let written: Vec<StoredRow> = load_task_records(&rows)
        .unwrap()
        .iter()
        .map(|record| {
            let update = updates.iter().find(|update| update.task.id == record.task.id);
            let now = update.unwrap_or(record);
            stored(&now.task, now.version)
        })
        .collect();
    let records = load_task_records(&written).unwrap();
    let summary: Vec<(&str, TaskState, u64)> = records
        .iter()
        .map(|record| (record.task.id.as_str(), record.task.status.state, record.version))
        .collect();
    assert_eq!(
        summary,
        [
            ("a", TaskState::Failed, 4),
            ("b", TaskState::Rejected, 1),
            ("t", TaskState::Failed, 8)
        ]
    );
    assert_eq!(records[2].task.metadata.as_ref().unwrap()["kept"], true);
    assert!(recover_active_tasks(records).is_empty());
}

#[test]
fn reserved_member_names_are_read_by_their_place() {
    let first = json(r#"{"$serde_json::private::RawValue": "[1]"}"#);
    assert_eq!(first, json("[1]"));
    let second = json(r#"{"a": 1, "$serde_json::private::RawValue": "[1]"}"#);
    assert_eq!(second["a"], 1);
}

#[test]
fn stored_tasks_are_canceled_once() {
    let canceled = begin_cancel(Some(busy_task())).unwrap();
    assert_eq!(canceled.status.state, TaskState::Canceled);
    assert_eq!(canceled.history.as_ref().unwrap().len(), 1);
    assert!(canceled.status.message.is_some());
    assert_eq!(begin_cancel(Some(canceled)).unwrap_err(), CancelRefusal::NotCancelable);
    assert_eq!(begin_cancel(None).unwrap_err(), CancelRefusal::NotFound);
}

#[test]
fn lists_with_filters_and_pagination() {
    let tasks = vec![
        task("a", "ctx-1", TaskState::Completed),
        task("b", "ctx-2", TaskState::Completed),
    ];
    let mut req = list_request();
    req.context_id = Some("ctx-1".to_string());
    req.page_size = Some(1);
    let page = list_tasks(tasks, &req);

    assert_eq!(page.total_size, 1);
    assert_eq!(page.tasks[0].id, "a");
    assert_eq!(page.next_page_token, "");
    assert_eq!(page.page_size, 1);
}

fn ids(tasks: &[Task]) -> Vec<&str> {
    tasks.iter().map(|task| task.id.as_str()).collect()
}

#[test]
fn pages_cover_every_task_once_in_order() {
    let tasks = || {
        ["d", "b", "e", "a", "c"]
            .iter()
            .map(|id| task(id, "ctx", TaskState::Working))
            .collect::<Vec<_>>()
    };
    let mut seen = Vec::new();
    let mut token = None;
    let mut pages = Vec::new();
    loop {
        let mut request = list_request();
        request.page_size = Some(2);
        request.page_token = token.clone();
        let page = list_tasks(tasks(), &request);
        assert_eq!(page.total_size, 5);
        seen.extend(page.tasks.iter().map(|task| task.id.clone()));
        pages.push(page.tasks.len());
        if page.next_page_token.is_empty() {
            break;
        }
        token = Some(page.next_page_token);
    }
    assert_eq!(seen, ["a", "b", "c", "d", "e"]);
    assert_eq!(pages, [2, 2, 1]);

    let mut request = list_request();
    request.page_size = Some(0);
    let page = list_tasks(tasks(), &request);
    assert_eq!(page.page_size, 50);
    assert_eq!(page.tasks.len(), 5);
    request.page_token = Some("not a number".to_string());
    assert_eq!(ids(&list_tasks(tasks(), &request).tasks), ["a", "b", "c", "d", "e"]);
    request.page_token = Some("+3".to_string());
    assert_eq!(ids(&list_tasks(tasks(), &request).tasks), ["d", "e"]);
    request.page_token = Some("99".to_string());
    let page = list_tasks(tasks(), &request);
    assert!(page.tasks.is_empty());
    assert_eq!(page.next_page_token, "");
}

fn at(seconds: i64, nanos: u32) -> Option<Timestamp> {
    Some(Timestamp {
        seconds,
        nanos,
        rfc3339: String::new(),
        wire: String::new(),
    })
}

#[test]
fn tasks_are_filtered_by_state_and_time() {
    let mut early = task("early", "ctx", TaskState::Completed);
    early.status.timestamp = at(10, 5);
    let mut late = task("late", "ctx", TaskState::Completed);
    late.status.timestamp = at(10, 7);
    let timeless = task("timeless", "ctx", TaskState::Failed);
    let tasks = || vec![timeless.clone(), late.clone(), early.clone()];
    let mut request = list_request();
    request.status_timestamp_after = at(10, 5);
    assert_eq!(ids(&list_tasks(tasks(), &request).tasks), ["late", "timeless"]);
    request.status = Some(TaskState::Completed);
    assert_eq!(ids(&list_tasks(tasks(), &request).tasks), ["late"]);
}

#[test]
fn lists_cut_histories_and_leave_out_artifacts() {
    let mut long = task("t", "c", TaskState::Completed);
    long.history = Some(["m1", "m2", "m3"].iter().map(|id| Value::from(*id)).collect());
    long.artifacts = Some(vec![text_artifact("a", "b")]);
    let lengths = |length: i32| {
        apply_history_length(long.clone(), Some(length))
            .history
            .unwrap()
    };
    assert_eq!(lengths(2), ["m2", "m3"]);
    assert_eq!(lengths(3).len(), 3);
    assert_eq!(lengths(9).len(), 3);
    assert!(lengths(0).is_empty());
    assert!(lengths(-4).is_empty());
    assert_eq!(apply_history_length(long.clone(), None).history.unwrap().len(), 3);

    let mut request = list_request();
    request.history_length = Some(1);
    let page = list_tasks(vec![long.clone()], &request);
    assert_eq!(page.tasks[0].history.as_ref().unwrap()[..], ["m3"]);
    assert!(page.tasks[0].artifacts.is_some());
    request.include_artifacts = Some(false);
    assert!(list_tasks(vec![long], &request).tasks[0].artifacts.is_none());
}

#[test]
fn table_failures_are_named() {
    assert_eq!(sql_error("read task", "disk full"), "read task: disk full");
    assert_eq!(create_error(true, "UNIQUE"), "task already exists");
    assert_eq!(create_error(false, "locked"), "create task: locked");
}

#[test]
fn states_have_names() {
    let names = [
        (TaskState::Unspecified, "TASK_STATE_UNSPECIFIED"),
        (TaskState::Submitted, "TASK_STATE_SUBMITTED"),
        (TaskState::Working, "TASK_STATE_WORKING"),
        (TaskState::Completed, "TASK_STATE_COMPLETED"),
        (TaskState::Failed, "TASK_STATE_FAILED"),
        (TaskState::Canceled, "TASK_STATE_CANCELED"),
        (TaskState::InputRequired, "TASK_STATE_INPUT_REQUIRED"),
        (TaskState::Rejected, "TASK_STATE_REJECTED"),
        (TaskState::AuthRequired, "TASK_STATE_AUTH_REQUIRED"),
    ];
    for (state, name) in names {
        assert_eq!(state.name(), name);
        assert_eq!(TaskState::from_name(name), state);
        let row = task_params(&task("t", "c", state), 1).unwrap();
        assert_eq!(row.state, format!("\"{name}\""));
        assert_eq!(decode_task(&row.task_json).unwrap().status.state, state);
    }
    assert!(TaskState::Rejected.is_terminal());
    assert!(!TaskState::AuthRequired.is_terminal());
}

#[test]
fn completed_task_collects_harness_artifacts() {
    let files = vec![
        file("/data/artifacts/summary.md", "# Review\n\nNo findings."),
        file(
            "/data/artifacts/findings.json",
            r#"[{"severity":"low","issue":"missing test"}]"#,
        ),
    ];

    let task = task_from_files(context(), "fallback output", files);

    let artifacts = task.artifacts.expect("completed task should have artifacts");
    assert_eq!(artifacts.len(), 2);
    assert_eq!(artifacts[0]["artifactId"], "findings.json");
    assert_eq!(artifacts[1]["artifactId"], "summary.md");
    assert_eq!(artifacts[1]["parts"][0]["text"], "# Review\n\nNo findings.");
    assert_eq!(artifacts[0]["parts"][0]["data"][0]["severity"], "low");
    assert_eq!(task.status.state, TaskState::Completed);
    assert_eq!(task.metadata.unwrap()["mesh_llm_executor"], "acp");
}

#[test]
fn completed_task_adds_default_artifacts_when_harness_writes_none() {
    let artifacts = task_artifacts(Vec::new(), "review output").unwrap();
    let task = completed_task(context(), "review output", artifacts);

    let artifacts = task.artifacts.expect("completed task should have artifacts");
    assert_eq!(artifacts.len(), 2);
    assert_eq!(artifacts[0]["artifactId"], "summary.md");
    assert_eq!(artifacts[0]["parts"][0]["text"], "review output");
    assert_eq!(artifacts[1]["artifactId"], "findings.json");
    let findings = &artifacts[1]["parts"][0];
    assert_eq!(findings["data"]["schema_version"], 1);
    assert_eq!(findings["data"]["findings"], Value::Array(Vec::new()));
    assert_eq!(findings["data"]["summary"], "review output");
    assert_eq!(findings["data"]["target"], Value::Null);
}

#[test]
fn artifacts_are_documents_of_the_protocol() {
    let text = text_artifact("notes.md", "hello");
    let parsed: a2a::Artifact = serde_json::from_value(text.clone()).unwrap();
    assert_eq!(parsed.artifact_id, "notes.md");
    assert_eq!(parsed.parts[0].as_text(), Some("hello"));
    assert_eq!(serde_json::to_value(&parsed).unwrap(), text);
    let data = data_artifact("x.json", fallback_findings_json(" out\n"));
    let parsed: a2a::Artifact = serde_json::from_value(data.clone()).unwrap();
    assert_eq!(serde_json::to_value(&parsed).unwrap(), data);
    assert_eq!(data["parts"][0]["data"]["summary"], "out");
    assert_eq!(media_type_for("a.md"), "text/markdown");
    assert_eq!(media_type_for("a.json"), "application/json");
    assert_eq!(media_type_for("a.txt"), "text/plain");
    let task = failed_task(context(), "no luck");
    let parsed: a2a::Task = serde_json::from_value(task.document()).unwrap();
    assert_eq!(serde_json::to_value(&parsed).unwrap(), task.document());
}

#[test]
fn files_that_are_no_artifacts() {
    let bad = |path: &str, content: ArtifactText| {
        artifact_from_file(&ArtifactFile {
            path: path.to_string(),
            content,
        })
        .unwrap_err()
    };
    assert_eq!(
        bad("/x/a.md", ArtifactText::BadName),
        "artifact file name must be UTF-8"
    );
    assert_eq!(
        bad("/x/a.md", ArtifactText::Unreadable),
        "failed to read artifact /x/a.md"
    );
    assert_eq!(
        bad("/x/a.json", ArtifactText::Text("{".to_string())),
        "failed to parse JSON artifact /x/a.json"
    );
    let task = task_from_files(context(), "out", vec![file("/x/a.json", "{")]);
    assert_eq!(task.status.state, TaskState::Failed);
    assert_eq!(
        task.status.message.unwrap()["parts"][0]["text"],
        "failed to parse JSON artifact /x/a.json"
    );
    assert!(task.artifacts.is_none());
}

#[test]
fn executors_end_tasks() {
    let mut asked = context();
    asked.message = Some(json(
        r#"{"messageId": "m", "role": "ROLE_USER", "parts": [{"data": 1}, {"text": "hi"}, {"text": "there"}]}"#,
    ));
    let echoed = EchoAgentExecutor.execute(asked);
    assert_eq!(echoed.id, "task-1");
    assert_eq!(echoed.context_id, "context-1");
    assert_eq!(echoed.status.state, TaskState::Completed);
    let message = echoed.status.message.unwrap();
    assert_eq!(
        message["parts"][0]["text"],
        "Echo from mesh-llm A2A test executor: hi"
    );
    assert_eq!(message["role"], "ROLE_AGENT");
    assert!(!message["messageId"].as_str().unwrap().is_empty());

    let mut stored = task("task-1", "context-1", TaskState::Working);
    stored.history = Some(vec![Value::from("m0")]);
    let mut known = context();
    known.stored_task = Some(stored);
    let canceled = EchoAgentExecutor.cancel(known);
    assert_eq!(canceled.status.state, TaskState::Canceled);
    assert_eq!(canceled.history.unwrap().len(), 1);
    assert!(canceled_task(context()).history.is_none());

    let failed = failed_task(context(), "no luck");
    assert_eq!(failed.status.state, TaskState::Failed);
    assert_eq!(failed.status.message.unwrap()["parts"][0]["text"], "no luck");
}

#[test]
fn acp_executor_cancels_tasks() {
    let row = json(
        r#"{
          "name": "A", "description": "B", "version": "1",
          "supportedInterfaces": [], "capabilities": {},
          "defaultInputModes": [], "defaultOutputModes": [], "skills": []
        }"#,
    );
    let agent = mesh_agents::registry::AgentDefinition {
        id: "a".to_string(),
        dir: "/agents/a".to_string(),
        card_path: "/agents/a/agent-card.json".to_string(),
        runtime_path: "/agents/a/runtime.toml".to_string(),
        card: mesh_agents::card::AgentCard::from_document(row),
        runtime: mesh_agents::config::AgentRuntimeConfig::default(),
    };
    let executor = AcpAgentExecutor::new(agent, "/data".to_string());
    assert_eq!(executor.data_dir, "/data");
    assert_eq!(executor.cancel(context()).status.state, TaskState::Canceled);
}

#[test]
fn artifacts_are_viewed() {
    let mut done = task("t", "c", TaskState::Completed);
    assert_eq!(
        find_artifact(&done, "t", "a").unwrap_err(),
        "artifact `a` was not found on task `t`"
    );
    done.artifacts = Some(vec![
        json(r#"{"artifactId": "a", "parts": [{"text": "one"}, {"data": 2}, {"text": "three"}]}"#),
        json(r#"{"artifactId": "b", "parts": [{"data": {"x": 1}}]}"#),
    ]);
    let a = find_artifact(&done, "t", "a").unwrap();
    let answer = text_artifact_answer("agent", "t", "a", &a).unwrap();
    assert_eq!(answer["text"], "one\nthree");
    assert_eq!(answer["artifact_id"], "a");
    let b = find_artifact(&done, "t", "b").unwrap();
    assert_eq!(
        text_artifact_answer("agent", "t", "b", &b).unwrap_err(),
        "artifact `b` has no text parts"
    );
    let answer = data_artifact_answer("agent", "t", b);
    assert_eq!(answer["artifact"]["parts"][0]["data"]["x"], 1);
    assert_eq!(answer["task_id"], "t");
    let answer = task_answer("agent", Some("local"), &done);
    assert_eq!(answer["location"], "local");
    assert_eq!(answer["task"]["status"]["state"], "TASK_STATE_COMPLETED");
    assert!(task_answer("agent", None, &done).get("location").is_none());
    let records = vec![TaskRecord { task: done, version: 1 }];
    assert!(recover_active_tasks(records).is_empty());
}
