//! What the task store keeps of a task, how it lists tasks, and what becomes of
//! the tasks that a restart interrupted.

use vstd::prelude::*;

use crate::json::{bool_value, no_members, object, set_member, text_value, with};
#[allow(unused_imports)]
use crate::json::{
    empty_members, json_of, jsons, lemma_readable_is_unreserved, lemma_readable_object,
    lemma_unreserved_object, member_of, members_of, optional_chars, readable_within, reserved_name,
    unreserved, JsonView,
};
#[allow(unused_imports)]
use crate::names::lemma_member_names;
use crate::order::{sort_by_rank, text_precedes, Ranked};
#[allow(unused_imports)]
use crate::order::{
    is_ranked, law_sorting, lemma_precedes_irreflexive, precedes, ranked, ranks_before,
};
use crate::text::{decimal_text, parse_usize, plus, same_text};
#[allow(unused_imports)]
use crate::text::{decimal, has_prefix, has_suffix, law_numeral_reads_back, parsed_usize};
use crate::wire::{
    decode_task as decode_wire_task, decode_task_value, encode_task, Task, TaskState, Timestamp,
};
#[allow(unused_imports)]
use crate::wire::{
    decoded_task, decoded_task_value, document_of, is_later, is_task_document,
    law_document_reads_back, law_settled_task_is_well_made, lemma_readable_document,
    lemma_unreserved_document, optional_json, optional_jsons, optional_members, optional_timestamp,
    protocol_name, reads_as_itself, settled, state_name, task_in, terminal, well_made,
    DecodedTaskView, TaskView,
};

verus! {

/// One row of the table of tasks.
#[derive(Clone, Debug)]
pub struct TaskRow {
    pub id: String,
    pub context_id: String,
    pub state: String,
    pub status_timestamp: Option<String>,
    pub version: i64,
    pub task_json: String,
}

/// The row that keeps a task in its version. The version is kept as a signed
/// number of the same bits. A well made task is always kept, and is read back from
/// the row as it was, where its document is not nested too deep to be read and its
/// fractions are read as they are written. Of a task in which an object has the
/// reserved name, only the row's other columns are stated.
pub fn task_params(task: &Task, version: u64) -> (row: Result<TaskRow, String>)
    ensures
        match row {
            Ok(row) => {
                &&& row.id@ == task.id@
                &&& row.context_id@ == task.context_id@
                &&& row.state@ == "\""@ + state_name(task.status.state) + "\""@
                &&& optional_chars(row.status_timestamp) == match task@.timestamp {
                    Some(time) => Some(time.rfc3339),
                    None => None,
                }
                &&& row.version == version as i64
                &&& unreserved(document_of(task@)) ==> decoded_task_value(document_of(task@)) is Some
                &&& readable_within(document_of(task@), 127) ==> decoded_task(row.task_json@) is Ok
                    && Some(decoded_task(row.task_json@)->Ok_0) == decoded_task_value(
                    document_of(task@),
                )
                &&& readable_within(document_of(task@), 127) && well_made(task@) ==> stored_task(
                    row.task_json@,
                ) is Ok && stored_task(row.task_json@)->Ok_0 == task@
            },
            Err(_) => {
                &&& !well_made(task@)
                &&& unreserved(document_of(task@)) ==> decoded_task_value(document_of(task@)) is None
            },
        },
{
    let task_json = match encode_task(&task.document()) {
        Ok(text) => text,
        Err(error) => {
            return Err(error);
        },
    };
    proof {
        law_document_reads_back(task@);
        if readable_within(document_of(task@), 127) {
            lemma_readable_is_unreserved(document_of(task@), 127);
        }
    }
    let state = plus(plus("\"".to_string(), task.status.state.name()), "\"");
    let timestamp = match &task.status.timestamp {
        Some(time) => Some(time.rfc3339.clone()),
        None => None,
    };
    Ok(
        TaskRow {
            id: task.id.clone(),
            context_id: task.context_id.clone(),
            state: state,
            status_timestamp: timestamp,
            version: version as i64,
            task_json: task_json,
        },
    )
}

/// What reading a stored task gives: the task, or the error's text.
pub open spec fn stored_task(raw: Seq<char>) -> Result<TaskView, Seq<char>> {
    match decoded_task(raw) {
        Ok(decoded) => Ok(task_in(decoded.document, decoded.timestamp)),
        Err(error) => Err("decode task: "@ + error),
    }
}

pub open spec fn task_result(result: Result<Task, String>) -> Result<TaskView, Seq<char>> {
    match result {
        Ok(task) => Ok(task@),
        Err(error) => Err(error@),
    }
}

/// Reads a task as the store keeps it.
pub fn decode_task(raw: &str) -> (task: Result<Task, String>)
    ensures
        task_result(task) == stored_task(raw@),
        task is Ok && unreserved(document_of(task->Ok_0@)) ==> settled(task->Ok_0@),
{
    match decode_wire_task(raw) {
        Ok(decoded) => {
            proof {
                lemma_task_of_document(decoded@);
            }
            Ok(Task::from_decoded(decoded))
        },
        Err(error) => Err(plus("decode task: ".to_string(), error.as_str())),
    }
}

/// What is read of a task's document has that document.
proof fn lemma_task_of_document(decoded: DecodedTaskView)
    requires
        is_task_document(decoded),
    ensures
        document_of(task_in(decoded.document, decoded.timestamp)) == decoded.document,
        reads_as_itself(decoded) && unreserved(decoded.document) ==> settled(
            task_in(decoded.document, decoded.timestamp),
        ),
{
    let task = choose|task: TaskView| #[trigger]
        document_of(task) == decoded.document && task.timestamp == decoded.timestamp;
    law_document_reads_back(task);
}

/// The task that a JSON value spells, where it spells one.
pub open spec fn task_of_value(value: JsonView) -> Option<TaskView> {
    match decoded_task_value(value) {
        Some(decoded) => Some(task_in(decoded.document, decoded.timestamp)),
        None => None,
    }
}

/// Reads a task out of a JSON value. The error is that of the outside reader. What
/// is read of a value in which an object has the reserved name is not stated.
pub fn task_from_value(value: &serde_json::Value) -> (task: Result<Task, String>)
    ensures
        unreserved(json_of(*value)) ==> match task {
            Ok(task) => task_of_value(json_of(*value)) == Some(task@) && settled(task@),
            Err(_) => task_of_value(json_of(*value)) is None,
        },
{
    match decode_task_value(value) {
        Ok(decoded) => {
            proof {
                lemma_task_of_document(decoded@);
            }
            Ok(Task::from_decoded(decoded))
        },
        Err(error) => Err(error),
    }
}

/// A stored task and its version.
#[derive(Debug)]
pub struct TaskRecord {
    pub task: Task,
    pub version: u64,
}

impl View for TaskRecord {
    type V = (TaskView, u64);

    open spec fn view(&self) -> (TaskView, u64) {
        (self.task@, self.version)
    }
}

pub open spec fn record_views(records: Seq<TaskRecord>) -> Seq<(TaskView, u64)> {
    records.map_values(|record: TaskRecord| record@)
}

/// The task text and the version of a row, as the table gives them.
#[derive(Clone, Debug)]
pub struct StoredRow {
    pub task_json: String,
    pub version: i64,
}

/// A version that is kept as a signed number is read back as it was.
pub proof fn law_version_reads_back(version: u64)
    ensures
        (version as i64) as u64 == version,
{
    assert((version as i64) as u64 == version) by (bit_vector);
}

/// What reading some rows from `from` on gives.
pub open spec fn records_of(rows: Seq<StoredRow>, from: int) -> Result<
    Seq<(TaskView, u64)>,
    Seq<char>,
>
    decreases rows.len() - from,
{
    if from < 0 || from >= rows.len() {
        Ok(seq![])
    } else {
        match stored_task(rows[from].task_json@) {
            Ok(task) => match records_of(rows, from + 1) {
                Ok(rest) => Ok(seq![(task, rows[from].version as u64)] + rest),
                Err(error) => Err(error),
            },
            Err(error) => Err(error),
        }
    }
}

pub open spec fn records_result(result: Result<Vec<TaskRecord>, String>) -> Result<
    Seq<(TaskView, u64)>,
    Seq<char>,
> {
    match result {
        Ok(records) => Ok(record_views(records@)),
        Err(error) => Err(error@),
    }
}

/// Reads the stored tasks, in the order of their rows. The first that cannot be
/// read stops the reading.
pub fn load_task_records(rows: &Vec<StoredRow>) -> (records: Result<Vec<TaskRecord>, String>)
    ensures
        records_result(records) == records_of(rows@, 0),
{
    let mut records: Vec<TaskRecord> = Vec::new();
    let mut i: usize = 0;
    proof {
        if let Ok(list) = records_of(rows@, 0) {
            assert(record_views(records@) + list =~= list);
        }
    }
    while i < rows.len()
        invariant
            i <= rows@.len(),
            match records_of(rows@, i as int) {
                Ok(rest) => records_of(rows@, 0) == Ok::<Seq<(TaskView, u64)>, Seq<char>>(
                    record_views(records@) + rest,
                ),
                Err(error) => records_of(rows@, 0) == Err::<Seq<(TaskView, u64)>, Seq<char>>(error),
            },
        decreases rows@.len() - i,
    {
        let ghost before = record_views(records@);
        match decode_task(rows[i].task_json.as_str()) {
            Ok(task) => {
                let record = TaskRecord { task: task, version: rows[i].version as u64 };
                let ghost view = record@;
                records.push(record);
                proof {
                    assert(record_views(records@) =~= before + seq![view]);
                    if let Ok(rest) = records_of(rows@, i as int + 1) {
                        assert(before + (seq![view] + rest) =~= (before + seq![view]) + rest);
                    }
                }
            },
            Err(error) => {
                return Err(error);
            },
        }
        i += 1;
    }
    assert(record_views(records@) + Seq::<(TaskView, u64)>::empty() =~= record_views(records@));
    Ok(records)
}

/// The note that an interrupted task carries.
pub open spec fn recovery_note() -> JsonView {
    JsonView::Object(
        map![
            "interrupted"@ => JsonView::Bool(true),
            "reason"@ => JsonView::Text(
                "mesh-llm restarted before this "@ + "task reached a terminal state"@,
            ),
        ],
    )
}

/// A task that was interrupted: failed, without a message, and with a note.
pub open spec fn interrupted(task: TaskView) -> TaskView {
    let metadata = match task.metadata {
        Some(metadata) => metadata,
        None => empty_members(),
    };
    TaskView {
        state: TaskState::Failed,
        message: None,
        metadata: Some(metadata.insert("mesh_llm_recovery"@, recovery_note())),
        ..task
    }
}

/// Marks a task as interrupted.
pub fn mark_interrupted(task: Task) -> (marked: Task)
    ensures
        marked@ == interrupted(task@),
        settled(task@) ==> well_made(marked@),
{
    proof {
        if settled(task@) {
            law_interrupted_task_is_well_made(task@);
        }
    }
    let mut marked = task;
    let reason = plus(
        "mesh-llm restarted before this ".to_string(),
        "task reached a terminal state",
    );
    let note = with(
        with(no_members(), "interrupted", bool_value(true)),
        "reason",
        text_value(reason.as_str()),
    );
    let mut metadata = match marked.metadata {
        Some(metadata) => metadata,
        None => no_members(),
    };
    set_member(&mut metadata, "mesh_llm_recovery", object(note));
    marked.metadata = Some(metadata);
    marked.status.state = TaskState::Failed;
    marked.status.message = None;
    marked
}

/// A task that was read from the store is well made when it is marked as
/// interrupted, and its document can be read again where it could before; so it is
/// kept and read back as it was marked.
pub proof fn law_interrupted_task_is_well_made(task: TaskView)
    requires
        settled(task),
    ensures
        well_made(interrupted(task)),
        readable_within(document_of(task), 127) ==> readable_within(
            document_of(interrupted(task)),
            127,
        ),
{
    reveal_strlit("$serde_json::private::RawValue");
    reveal_strlit("mesh_llm_recovery");
    reveal_strlit("interrupted");
    reveal_strlit("reason");
    assert(reserved_name().len() == 30);
    law_settled_task_is_well_made(task);
    let marked = interrupted(task);
    lemma_unreserved_document(task);
    lemma_unreserved_document(marked);
    let before = match task.metadata {
        Some(metadata) => metadata,
        None => empty_members(),
    };
    lemma_unreserved_object(before);
    lemma_unreserved_object(recovery_note()->Object_0);
    lemma_unreserved_object(marked.metadata->0);
    assert(unreserved(recovery_note()));
    lemma_readable_document(task);
    lemma_readable_document(marked);
    lemma_readable_object(before, 125);
    lemma_readable_object(recovery_note()->Object_0, 124);
    lemma_readable_object(marked.metadata->0, 125);
}

/// What a restart makes of a stored task: one that had not ended is interrupted
/// and gets the next version.
pub open spec fn after_restart(record: (TaskView, u64)) -> (TaskView, u64) {
    if terminal(record.0.state) {
        record
    } else {
        (interrupted(record.0), (record.1 + 1) as u64)
    }
}

/// The records that a restart changes, as it changes them, in order.
pub open spec fn recovered(records: Seq<(TaskView, u64)>) -> Seq<(TaskView, u64)>
    decreases records.len(),
{
    if records.len() == 0 {
        seq![]
    } else {
        let before = recovered(records.drop_last());
        if terminal(records.last().0.state) {
            before
        } else {
            before.push(after_restart(records.last()))
        }
    }
}

/// The records that have to be written again after a restart.
pub fn recover_active_tasks(records: Vec<TaskRecord>) -> (updates: Vec<TaskRecord>)
    requires
        forall|i: int|
            0 <= i < records@.len() && !terminal((#[trigger] records@[i]).task.status.state)
                ==> records@[i].version < u64::MAX,
    ensures
        record_views(updates@) == recovered(record_views(records@)),
{
    let ghost all = records@;
    let ghost views = record_views(records@);
    let mut rest = records;
    let mut updates: Vec<TaskRecord> = Vec::new();
    let ghost mut done: int = 0;
    assert(all.skip(0) =~= all);
    assert(views.take(0) =~= Seq::<(TaskView, u64)>::empty());
    assert(record_views(updates@) =~= recovered(views.take(0)));
    while rest.len() > 0
        invariant
            0 <= done <= all.len(),
            rest@ == all.skip(done),
            views == record_views(all),
            forall|i: int|
                0 <= i < all.len() && !terminal((#[trigger] all[i]).task.status.state)
                    ==> all[i].version < u64::MAX,
            record_views(updates@) == recovered(views.take(done)),
        decreases rest@.len(),
    {
        let record = rest.remove(0);
        proof {
            assert(record == all[done]);
            assert(views.take(done + 1).drop_last() =~= views.take(done));
            assert(views.take(done + 1).last() == record@);
            assert(all.skip(done).remove(0) =~= all.skip(done + 1));
        }
        if !record.task.status.state.is_terminal() {
            let ghost before = record_views(updates@);
            let next: u64 = record.version + 1;
            let update = TaskRecord { task: mark_interrupted(record.task), version: next };
            let ghost view = update@;
            updates.push(update);
            assert(record_views(updates@) =~= before.push(view));
        }
        proof {
            done = done + 1;
        }
    }
    assert(views.take(done) =~= views);
    updates
}

/// After a restart every task has ended, one that had ended before is left as it
/// was, and another restart changes nothing. A task that is interrupted has failed,
/// without a message, and is otherwise as it was, but for the note among its
/// metadata that it was interrupted.
pub proof fn law_restart_ends_every_task(record: (TaskView, u64))
    ensures
        terminal(after_restart(record).0.state),
        terminal(record.0.state) ==> after_restart(record) == record,
        after_restart(after_restart(record)) == after_restart(record),
        after_restart(record).0.id == record.0.id,
        after_restart(record).0.context_id == record.0.context_id,
        after_restart(record).0.timestamp == record.0.timestamp,
        after_restart(record).0.history == record.0.history,
        after_restart(record).0.artifacts == record.0.artifacts,
        !terminal(record.0.state) ==> {
            let after = after_restart(record).0;
            &&& after.state == TaskState::Failed
            &&& after.message is None
            &&& after.metadata is Some
            &&& after.metadata->0.contains_key("mesh_llm_recovery"@)
            &&& member_of(after.metadata->0["mesh_llm_recovery"@], "interrupted"@) == Some(
                JsonView::Bool(true),
            )
            &&& forall|name: Seq<char>|
                name != "mesh_llm_recovery"@ ==> #[trigger] member_of(
                    JsonView::Object(after.metadata->0),
                    name,
                ) == match record.0.metadata {
                    Some(metadata) => member_of(JsonView::Object(metadata), name),
                    None => None,
                }
        },
{
    reveal_strlit("interrupted");
    reveal_strlit("reason");
    assert("interrupted"@.len() == 11);
    assert("reason"@.len() == 6);
}

/// The records after one of them is written again: it takes the place of the one of
/// its id.
pub open spec fn rewritten(records: Seq<(TaskView, u64)>, update: (TaskView, u64)) -> Seq<
    (TaskView, u64),
> {
    records.map_values(
        |record: (TaskView, u64)|
            if record.0.id == update.0.id {
                update
            } else {
                record
            },
    )
}

/// The records after some of them are written again, one after the other.
pub open spec fn all_rewritten(
    records: Seq<(TaskView, u64)>,
    updates: Seq<(TaskView, u64)>,
) -> Seq<(TaskView, u64)>
    decreases updates.len(),
{
    if updates.len() == 0 {
        records
    } else {
        rewritten(all_rewritten(records, updates.drop_last()), updates.last())
    }
}

/// No two records have the same id.
pub open spec fn ids_differ(records: Seq<(TaskView, u64)>) -> bool {
    forall|i: int, j: int|
        0 <= i < j < records.len() ==> (#[trigger] records[i]).0.id != (#[trigger] records[j]).0.id
}

/// What a restart makes of all stored tasks.
pub open spec fn restarted(records: Seq<(TaskView, u64)>) -> Seq<(TaskView, u64)> {
    records.map_values(|record: (TaskView, u64)| after_restart(record))
}

proof fn lemma_rewritten_so_far(records: Seq<(TaskView, u64)>, upto: int)
    requires
        ids_differ(records),
        0 <= upto <= records.len(),
    ensures
        all_rewritten(records, recovered(records.take(upto))) == restarted(records.take(upto))
            + records.skip(upto),
    decreases upto,
{
    let head = records.take(upto);
    if upto == 0 {
        assert(restarted(head) + records.skip(0) =~= records);
    } else {
        lemma_rewritten_so_far(records, upto - 1);
        let last = records[upto - 1];
        assert(head.drop_last() =~= records.take(upto - 1));
        assert(head.last() == last);
        let before = restarted(records.take(upto - 1)) + records.skip(upto - 1);
        let after = restarted(head) + records.skip(upto);
        assert(before.len() == records.len());
        assert(after.len() == records.len());
        if terminal(last.0.state) {
            assert forall|i: int| 0 <= i < records.len() implies before[i] == after[i] by {
                if i < upto {
                    assert(head[i] == records[i]);
                }
            }
            assert(before =~= after);
        } else {
            let update = after_restart(last);
            let updates = recovered(head);
            assert(updates.drop_last() =~= recovered(records.take(upto - 1)));
            assert(updates.last() == update);
            let now = rewritten(before, update);
            assert forall|i: int| 0 <= i < records.len() implies now[i] == after[i] by {
                assert(before[i].0.id == records[i].0.id);
                if i < upto - 1 {
                    assert(records[i].0.id != records[upto - 1].0.id);
                    assert(head[i] == records[i]);
                } else if i > upto - 1 {
                    assert(records[upto - 1].0.id != records[i].0.id);
                }
            }
            assert(now =~= after);
        }
    }
}

/// Opening the store after a restart: the records that have to be written again,
/// written over the stored ones, leave a record for each that was there, in its
/// place and under its id, as a restart makes it. Every task has then ended, and
/// opening the store again writes nothing.
pub proof fn law_reopened_store(records: Seq<(TaskView, u64)>)
    requires
        ids_differ(records),
    ensures
        all_rewritten(records, recovered(records)) == restarted(records),
        restarted(records).len() == records.len(),
        forall|i: int|
            0 <= i < records.len() ==> {
                &&& #[trigger] restarted(records)[i] == after_restart(records[i])
                &&& restarted(records)[i].0.id == records[i].0.id
                &&& terminal(restarted(records)[i].0.state)
            },
        recovered(restarted(records)) == Seq::<(TaskView, u64)>::empty(),
        restarted(restarted(records)) == restarted(records),
{
    lemma_rewritten_so_far(records, records.len() as int);
    assert(records.take(records.len() as int) =~= records);
    assert(restarted(records) + records.skip(records.len() as int) =~= restarted(records));
    law_restart_is_quiet(restarted(records));
    assert(restarted(restarted(records)) =~= restarted(records));
}

/// A restart writes nothing where every task has ended.
pub proof fn law_restart_is_quiet(records: Seq<(TaskView, u64)>)
    requires
        forall|i: int| 0 <= i < records.len() ==> terminal((#[trigger] records[i]).0.state),
    ensures
        recovered(records) == Seq::<(TaskView, u64)>::empty(),
    decreases records.len(),
{
    if records.len() > 0 {
        let head = records.drop_last();
        assert forall|i: int| 0 <= i < head.len() implies terminal(
            (#[trigger] head[i]).0.state,
        ) by {
            assert(head[i] == records[i]);
        }
        law_restart_is_quiet(head);
        assert(terminal(records[records.len() - 1].0.state));
    }
}

/// The version that an update gives a task whose version is known; a task that is
/// not stored has none.
pub fn next_version(stored: Option<u64>) -> (version: Option<u64>)
    requires
        stored is Some ==> stored->0 < u64::MAX,
    ensures
        match stored {
            Some(stored) => version == Some((stored + 1) as u64),
            None => version is None,
        },
{
    match stored {
        Some(stored) => Some(stored + 1),
        None => None,
    }
}

/// Why a stored task is not canceled.
#[derive(Clone, Copy, Debug, PartialEq, Eq, Structural)]
pub enum CancelRefusal {
    NotFound,
    NotCancelable,
}

/// A stored task that is being canceled: one that has not ended is canceled and
/// otherwise as it was.
pub fn begin_cancel(stored: Option<Task>) -> (canceled: Result<Task, CancelRefusal>)
    ensures
        match stored {
            None => canceled is Err && canceled->Err_0 == CancelRefusal::NotFound,
            Some(task) => if terminal(task@.state) {
                canceled is Err && canceled->Err_0 == CancelRefusal::NotCancelable
            } else {
                canceled is Ok && canceled->Ok_0@ == (TaskView {
                    state: TaskState::Canceled,
                    ..task@
                })
            },
        },
{
    match stored {
        None => Err(CancelRefusal::NotFound),
        Some(task) => {
            if task.status.state.is_terminal() {
                return Err(CancelRefusal::NotCancelable);
            }
            let mut canceled = task;
            canceled.status.state = TaskState::Canceled;
            Ok(canceled)
        },
    }
}

/// A failure of the table, with what was being done.
pub open spec fn failure(context: Seq<char>, error: Seq<char>) -> Seq<char> {
    context + ": "@ + error
}

pub fn sql_error(context: &str, error: &str) -> (message: String)
    ensures
        message@ == failure(context@, error@),
{
    plus(plus(context.to_string(), ": "), error)
}

/// Why a task could not be created: there is one of its id, or the table failed.
pub fn create_error(duplicate: bool, error: &str) -> (message: String)
    ensures
        message@ == if duplicate {
            "task already exists"@
        } else {
            failure("create task"@, error@)
        },
{
    if duplicate {
        "task already exists".to_string()
    } else {
        sql_error("create task", error)
    }
}

/// A request for a list of tasks.
#[derive(Debug)]
pub struct ListTasksRequest {
    pub context_id: Option<String>,
    pub status: Option<TaskState>,
    pub page_size: Option<i32>,
    pub page_token: Option<String>,
    pub history_length: Option<i32>,
    pub status_timestamp_after: Option<Timestamp>,
    pub include_artifacts: Option<bool>,
    pub tenant: Option<String>,
}

/// One page of a list of tasks.
#[derive(Debug)]
pub struct ListTasksResponse {
    pub tasks: Vec<Task>,
    pub next_page_token: String,
    pub page_size: i32,
    pub total_size: i32,
}

/// The request asks for such a task. A task without a time counts as late enough.
pub open spec fn selected(task: TaskView, request: ListTasksRequest) -> bool {
    &&& request.context_id is Some ==> task.context_id == request.context_id->0@
    &&& request.status is Some ==> task.state == request.status->0
    &&& request.status_timestamp_after is Some && task.timestamp is Some ==> is_later(
        task.timestamp->0,
        request.status_timestamp_after->0@,
    )
}

fn is_selected(task: &Task, request: &ListTasksRequest) -> (yes: bool)
    ensures
        yes == selected(task@, *request),
{
    let right_context = match &request.context_id {
        Some(context_id) => same_text(task.context_id.as_str(), context_id.as_str()),
        None => true,
    };
    let right_state = match request.status {
        Some(status) => task.status.state == status,
        None => true,
    };
    let late_enough = match &request.status_timestamp_after {
        Some(after) => match &task.status.timestamp {
            Some(time) => time.seconds > after.seconds || (time.seconds == after.seconds
                && time.nanos > after.nanos),
            None => true,
        },
        None => true,
    };
    right_context && right_state && late_enough
}

impl Ranked for Task {
    open spec fn rank(self) -> Seq<Seq<char>> {
        seq![self.id@]
    }

    fn goes_before(&self, other: &Self) -> (yes: bool) {
        proof {
            lemma_precedes_irreflexive(self.id@);
            reveal_with_fuel(ranks_before, 2);
        }
        text_precedes(self.id.as_str(), other.id.as_str())
    }
}

/// The latest messages of a history, where a length is asked for.
pub open spec fn latest(history: Option<Seq<JsonView>>, length: Option<i32>) -> Option<
    Seq<JsonView>,
> {
    match (history, length) {
        (Some(history), Some(length)) => {
            let kept = if length < 0 {
                0
            } else {
                length as int
            };
            if history.len() > kept {
                Some(history.skip(history.len() - kept))
            } else {
                Some(history)
            }
        },
        _ => history,
    }
}

/// Cuts a task's history to its latest messages, where a length is asked for.
pub fn apply_history_length(task: Task, history_length: Option<i32>) -> (cut: Task)
    ensures
        cut@ == (TaskView { history: latest(task@.history, history_length), ..task@ }),
{
    let mut cut = task;
    let ghost view = cut@;
    if let Some(length) = history_length {
        if let Some(history) = cut.history {
            let kept: usize = if length < 0 {
                0
            } else {
                length as usize
            };
            if history.len() > kept {
                let mut tail: Vec<serde_json::Value> = Vec::new();
                let first: usize = history.len() - kept;
                let mut i: usize = first;
                while i < history.len()
                    invariant
                        first <= i <= history@.len(),
                        tail@.len() == i - first,
                        forall|j: int|
                            0 <= j < i - first ==> json_of(#[trigger] tail@[j]) == json_of(
                                history@[first + j],
                            ),
                    decreases history@.len() - i,
                {
                    tail.push(history[i].clone());
                    i += 1;
                }
                assert(jsons(tail@) =~= jsons(history@).skip(first as int));
                cut.history = Some(tail);
            } else {
                cut.history = Some(history);
            }
        }
    }
    cut
}

/// A cut history is no longer than asked for and ends as the whole one does.
/// Cutting it again changes nothing.
pub proof fn law_history_is_cut(history: Seq<JsonView>, length: i32)
    requires
        length >= 0,
    ensures
        latest(Some(history), Some(length)) is Some,
        latest(Some(history), Some(length))->0.len() <= length,
        latest(latest(Some(history), Some(length)), Some(length)) == latest(
            Some(history),
            Some(length),
        ),
        history.len() > 0 && length > 0 ==> latest(Some(history), Some(length))->0.last()
            == history.last(),
{
}

/// A task as a list shows it.
pub open spec fn presented(task: TaskView, request: ListTasksRequest) -> TaskView {
    TaskView {
        history: latest(task.history, request.history_length),
        artifacts: if request.include_artifacts == Some(false) {
            None
        } else {
            task.artifacts
        },
        ..task
    }
}

/// The tasks that a request asks for, in the order of their ids.
pub open spec fn all_selected(tasks: Seq<Task>, request: ListTasksRequest) -> Seq<Task> {
    ranked(tasks.filter(|task: Task| selected(task@, request)))
}

/// The number of tasks on a page: what is asked for, or fifty.
pub open spec fn page_length(size: Option<i32>) -> int {
    match size {
        Some(size) => if size > 0 {
            size as int
        } else {
            50
        },
        None => 50,
    }
}

/// Where the page of a token starts among `total` tasks. A token that is no
/// number counts as none.
pub open spec fn page_start(token: Option<Seq<char>>, total: int) -> int {
    let start = match token {
        Some(token) => match parsed_usize(token) {
            Some(start) => start as int,
            None => 0,
        },
        None => 0,
    };
    if start < total {
        start
    } else {
        total
    }
}

pub open spec fn page_end(start: int, length: int, total: int) -> int {
    if start + length < total {
        start + length
    } else {
        total
    }
}

/// The token of the page that follows one that ends at `end`.
pub open spec fn token_after(end: int, total: int) -> Seq<char> {
    if end < total {
        decimal(end as nat)
    } else {
        seq![]
    }
}

pub open spec fn task_views(tasks: Seq<Task>) -> Seq<TaskView> {
    tasks.map_values(|task: Task| task@)
}

fn keep_selected(tasks: Vec<Task>, request: &ListTasksRequest) -> (kept: Vec<Task>)
    ensures
        kept@ == tasks@.filter(|task: Task| selected(task@, *request)),
{
    let ghost all = tasks@;
    let ghost wanted = |task: Task| selected(task@, *request);
    let mut rest = tasks;
    let mut kept: Vec<Task> = Vec::new();
    let ghost mut done: int = 0;
    proof {
        reveal(Seq::filter);
        assert(all.skip(0) =~= all);
        assert(all.take(0) =~= Seq::<Task>::empty());
        assert(kept@ =~= all.take(0).filter(wanted));
    }
    while rest.len() > 0
        invariant
            0 <= done <= all.len(),
            rest@ == all.skip(done),
            wanted == (|task: Task| selected(task@, *request)),
            kept@ == all.take(done).filter(wanted),
        decreases rest@.len(),
    {
        let task = rest.remove(0);
        proof {
            reveal(Seq::filter);
            assert(all.take(done + 1).drop_last() =~= all.take(done));
            assert(all.take(done + 1).last() == task);
            assert(all.skip(done).remove(0) =~= all.skip(done + 1));
        }
        if is_selected(&task, request) {
            kept.push(task);
        }
        proof {
            done = done + 1;
        }
    }
    assert(all.take(done) =~= all);
    kept
}

/// One page of a list: the tasks on it as they are shown, and the token of the next.
#[verifier::ext_equal]
pub struct PageView {
    pub tasks: Seq<TaskView>,
    pub next: Seq<char>,
}

/// The page that a request gives, with this page token in place of its own.
pub open spec fn page_of(
    tasks: Seq<Task>,
    request: ListTasksRequest,
    token: Option<Seq<char>>,
) -> PageView {
    let all = all_selected(tasks, request);
    let total = all.len() as int;
    let start = page_start(token, total);
    let end = page_end(start, page_length(request.page_size), total);
    PageView {
        tasks: shown(all.subrange(start, end), request),
        next: token_after(end, total),
    }
}

/// Tasks as a list shows them.
pub open spec fn shown(tasks: Seq<Task>, request: ListTasksRequest) -> Seq<TaskView> {
    tasks.map_values(|task: Task| presented(task@, request))
}

/// The page of tasks that a request asks for.
pub fn list_tasks(tasks: Vec<Task>, request: &ListTasksRequest) -> (response: ListTasksResponse)
    ensures
        task_views(response.tasks@) == page_of(
            tasks@,
            *request,
            optional_chars(request.page_token),
        ).tasks,
        response.next_page_token@ == page_of(
            tasks@,
            *request,
            optional_chars(request.page_token),
        ).next,
        response.page_size == page_length(request.page_size),
        response.total_size == (all_selected(tasks@, *request).len() as usize) as i32,
{
    let sorted = sort_by_rank(keep_selected(tasks, request));
    let total: usize = sorted.len();
    let length: i32 = match request.page_size {
        Some(size) => if size > 0 {
            size
        } else {
            50
        },
        None => 50,
    };
    let asked: usize = match &request.page_token {
        Some(token) => match parse_usize(token.as_str()) {
            Some(start) => start,
            None => 0,
        },
        None => 0,
    };
    let start: usize = if asked < total {
        asked
    } else {
        total
    };
    let end: usize = if (length as usize) < total - start {
        start + length as usize
    } else {
        total
    };
    let next_page_token = if end < total {
        decimal_text(end as u128)
    } else {
        String::new()
    };
    let mut page: Vec<Task> = Vec::new();
    let mut i: usize = start;
    while i < end
        invariant
            start <= i <= end <= sorted@.len(),
            page@.len() == i - start,
            forall|j: int|
                0 <= j < i - start ==> (#[trigger] page@[j])@ == presented(
                    sorted@[start + j]@,
                    *request,
                ),
        decreases end - i,
    {
        let mut task = apply_history_length(sorted[i].clone(), request.history_length);
        if let Some(wanted) = request.include_artifacts {
            if !wanted {
                task.artifacts = None;
            }
        }
        page.push(task);
        i += 1;
    }
    assert(task_views(page@) =~= shown(sorted@.subrange(start as int, end as int), *request));
    ListTasksResponse {
        tasks: page,
        next_page_token: next_page_token,
        page_size: length,
        total_size: total as i32,
    }
}

/// `pages` are the pages that are given one after the other to a request without a
/// token and then to the request with the token of each page, up to the page that
/// gives no token.
pub open spec fn is_listing(
    tasks: Seq<Task>,
    request: ListTasksRequest,
    pages: Seq<PageView>,
) -> bool {
    &&& pages.len() > 0
    &&& pages[0] == page_of(tasks, request, None)
    &&& forall|k: int|
        0 < k < pages.len() ==> #[trigger] pages[k] == page_of(
            tasks,
            request,
            Some(pages[k - 1].next),
        )
    &&& forall|k: int| 0 <= k < pages.len() - 1 ==> (#[trigger] pages[k]).next.len() > 0
    &&& pages.last().next.len() == 0
}

/// The tasks on some pages, one page after the other.
pub open spec fn on_pages(pages: Seq<PageView>) -> Seq<TaskView>
    decreases pages.len(),
{
    if pages.len() == 0 {
        seq![]
    } else {
        on_pages(pages.drop_last()) + pages.last().tasks
    }
}

/// Where the page at a place in a listing starts.
spec fn page_at(place: int, length: int) -> int {
    place * length
}

proof fn lemma_next_page(tasks: Seq<Task>, request: ListTasksRequest, token: Option<Seq<char>>)
    requires
        all_selected(tasks, request).len() <= usize::MAX,
    ensures
        ({
            let total = all_selected(tasks, request).len() as int;
            let start = page_start(token, total);
            let end = page_end(start, page_length(request.page_size), total);
            let page = page_of(tasks, request, token);
            &&& page.next.len() > 0 <==> end < total
            &&& end < total ==> page_start(Some(page.next), total) == end
            &&& page.tasks.len() == end - start
        }),
{
    let total = all_selected(tasks, request).len() as int;
    let start = page_start(token, total);
    let end = page_end(start, page_length(request.page_size), total);
    if end < total {
        law_numeral_reads_back(end as usize);
        if decimal(end as nat).len() == 0 {
            assert(decimal(end as nat) =~= seq![]);
        }
    }
}

proof fn lemma_listing_so_far(
    tasks: Seq<Task>,
    request: ListTasksRequest,
    pages: Seq<PageView>,
    place: int,
)
    requires
        is_listing(tasks, request, pages),
        all_selected(tasks, request).len() <= usize::MAX,
        0 <= place < pages.len(),
    ensures
        ({
            let all = all_selected(tasks, request);
            let total = all.len() as int;
            let length = page_length(request.page_size);
            let start = page_at(place, length);
            let end = page_end(start, length, total);
            &&& 0 <= start <= total
            &&& pages[place].tasks == shown(all.subrange(start, end), request)
            &&& pages[place].next.len() > 0 <==> end < total
            &&& end < total ==> end == page_at(place + 1, length) && page_start(
                Some(pages[place].next),
                total,
            ) == end
            &&& on_pages(pages.take(place + 1)) == shown(all.subrange(0, end), request)
        }),
    decreases place,
{
    let all = all_selected(tasks, request);
    let total = all.len() as int;
    let length = page_length(request.page_size);
    let start = page_at(place, length);
    let end = page_end(start, length, total);
    assert(page_at(0, length) == 0) by (nonlinear_arith);
    assert(page_at(place + 1, length) == page_at(place, length) + length) by {
        assert((place + 1) * length == place * length + length) by (nonlinear_arith);
    }
    let head = pages.take(place + 1);
    assert(head.drop_last() =~= pages.take(place));
    assert(head.last() == pages[place]);
    if place == 0 {
        assert(pages.take(0) =~= Seq::<PageView>::empty());
        lemma_next_page(tasks, request, None);
        assert(on_pages(head) =~= shown(all.subrange(0, end), request)) by {
            assert(on_pages(pages.take(0)) =~= Seq::<TaskView>::empty());
        }
    } else {
        lemma_listing_so_far(tasks, request, pages, place - 1);
        assert(pages[place - 1].next.len() > 0);
        lemma_next_page(tasks, request, Some(pages[place - 1].next));
        assert(on_pages(head) =~= shown(all.subrange(0, end), request));
    }
}

/// Following the tokens from the first page on shows every task that was asked for
/// once, in the order of their ids, as a list shows it. Every page but the last is
/// full, and the last one holds the rest.
pub proof fn law_pages_cover_everything(
    tasks: Seq<Task>,
    request: ListTasksRequest,
    pages: Seq<PageView>,
)
    requires
        is_listing(tasks, request, pages),
        all_selected(tasks, request).len() <= usize::MAX,
    ensures
        on_pages(pages) == shown(all_selected(tasks, request), request),
        is_ranked(all_selected(tasks, request)),
        all_selected(tasks, request).to_multiset() == tasks.filter(
            |task: Task| selected(task@, request),
        ).to_multiset(),
        forall|k: int|
            0 <= k < pages.len() - 1 ==> (#[trigger] pages[k]).tasks.len() == page_length(
                request.page_size,
            ),
        pages.last().tasks.len() <= page_length(request.page_size),
        all_selected(tasks, request).len() > 0 ==> pages.last().tasks.len() > 0,
{
    let all = all_selected(tasks, request);
    let length = page_length(request.page_size);
    let last = pages.len() - 1;
    law_sorting(tasks.filter(|task: Task| selected(task@, request)));
    lemma_listing_so_far(tasks, request, pages, last);
    assert(pages.take(last + 1) =~= pages);
    assert(all.subrange(0, all.len() as int) =~= all);
    assert forall|k: int| 0 <= k < pages.len() - 1 implies (#[trigger] pages[k]).tasks.len()
        == length by {
        lemma_listing_so_far(tasks, request, pages, k);
    }
    if last > 0 {
        lemma_listing_so_far(tasks, request, pages, last - 1);
        assert(pages[last - 1].next.len() > 0);
    }
}

/// The pages from the one of a token on, as their tokens lead on.
pub open spec fn pages_from(
    tasks: Seq<Task>,
    request: ListTasksRequest,
    token: Option<Seq<char>>,
) -> Seq<PageView>
    decreases
            all_selected(tasks, request).len() - page_start(
                token,
                all_selected(tasks, request).len() as int,
            ),
{
    let total = all_selected(tasks, request).len() as int;
    let page = page_of(tasks, request, token);
    if page.next.len() == 0 || page_start(Some(page.next), total) <= page_start(token, total) {
        seq![page]
    } else {
        seq![page] + pages_from(tasks, request, Some(page.next))
    }
}

proof fn lemma_pages_lead_on(tasks: Seq<Task>, request: ListTasksRequest, token: Option<Seq<char>>)
    requires
        all_selected(tasks, request).len() <= usize::MAX,
    ensures
        ({
            let pages = pages_from(tasks, request, token);
            &&& pages.len() > 0
            &&& pages[0] == page_of(tasks, request, token)
            &&& forall|k: int|
                0 < k < pages.len() ==> #[trigger] pages[k] == page_of(
                    tasks,
                    request,
                    Some(pages[k - 1].next),
                )
            &&& forall|k: int| 0 <= k < pages.len() - 1 ==> (#[trigger] pages[k]).next.len() > 0
            &&& pages.last().next.len() == 0
        }),
    decreases
            all_selected(tasks, request).len() - page_start(
                token,
                all_selected(tasks, request).len() as int,
            ),
{
    lemma_next_page(tasks, request, token);
    let page = page_of(tasks, request, token);
    let pages = pages_from(tasks, request, token);
    if page.next.len() > 0 {
        lemma_pages_lead_on(tasks, request, Some(page.next));
        let rest = pages_from(tasks, request, Some(page.next));
        assert(pages == seq![page] + rest);
        assert forall|k: int| 0 < k < pages.len() implies #[trigger] pages[k] == page_of(
            tasks,
            request,
            Some(pages[k - 1].next),
        ) by {
            assert(pages[k] == rest[k - 1]);
            if k > 1 {
                assert(pages[k - 1] == rest[k - 2]);
            }
        }
        assert forall|k: int| 0 <= k < pages.len() - 1 implies (#[trigger] pages[k]).next.len()
            > 0 by {
            if k > 0 {
                assert(pages[k] == rest[k - 1]);
            }
        }
        assert(pages.last() == rest.last());
    }
}

/// Following the tokens from the first page on comes to a page that gives no token.
pub proof fn law_tokens_lead_to_the_last_page(tasks: Seq<Task>, request: ListTasksRequest)
    requires
        all_selected(tasks, request).len() <= usize::MAX,
    ensures
        is_listing(tasks, request, pages_from(tasks, request, None)),
{
    lemma_pages_lead_on(tasks, request, None);
}

/// The listing of a request ends: each page but the last one shows at least one task
/// more, so there are no more pages than tasks, and one where there is no task.
pub proof fn law_listing_ends(
    tasks: Seq<Task>,
    request: ListTasksRequest,
    pages: Seq<PageView>,
)
    requires
        is_listing(tasks, request, pages),
        all_selected(tasks, request).len() <= usize::MAX,
    ensures
        pages.len() <= all_selected(tasks, request).len() || pages.len() == 1,
{
    let length = page_length(request.page_size);
    let last = pages.len() - 1;
    lemma_listing_so_far(tasks, request, pages, last);
    assert(last <= page_at(last, length)) by (nonlinear_arith)
        requires
            last >= 0,
            length >= 1,
            page_at(last, length) == last * length,
    ;
    if last > 0 {
        lemma_listing_so_far(tasks, request, pages, last - 1);
        assert(pages[last - 1].next.len() > 0);
    }
}

/// The row of a task names the task, its context, its state and the time of its
/// status, each in its own column, with the version that it is kept in.
pub proof fn law_row_names_the_task(task: &Task, version: u64, row: Result<TaskRow, String>)
    requires
        call_ensures(task_params, (task, version), row),
        row is Ok,
    ensures
        row->Ok_0.id@ == task.id@,
        row->Ok_0.context_id@ == task.context_id@,
        row->Ok_0.state@ == "\""@ + protocol_name(task.status.state) + "\""@,
        row->Ok_0.status_timestamp is Some <==> task.status.timestamp is Some,
        task.status.timestamp is Some ==> row->Ok_0.status_timestamp->0@
            == task.status.timestamp->0.rfc3339@,
        row->Ok_0.version as u64 == version,
{
    law_version_reads_back(version);
}

/// A task that is kept is read back from its row with the same id, the same context,
/// the same state and all else.
pub proof fn law_kept_task_is_read_back(
    task: &Task,
    version: u64,
    row: Result<TaskRow, String>,
    raw: &str,
    read: Result<Task, String>,
)
    requires
        call_ensures(task_params, (task, version), row),
        well_made(task@),
        readable_within(document_of(task@), 127),
        row is Ok ==> raw@ == row->Ok_0.task_json@,
        call_ensures(decode_task, (raw,), read),
    ensures
        row is Ok,
        read is Ok,
        read->Ok_0.id@ == task.id@,
        read->Ok_0.context_id@ == task.context_id@,
        read->Ok_0.status.state == task.status.state,
        optional_json(read->Ok_0.status.message) == optional_json(task.status.message),
        optional_timestamp(read->Ok_0.status.timestamp) == optional_timestamp(
            task.status.timestamp,
        ),
        optional_jsons(read->Ok_0.artifacts) == optional_jsons(task.artifacts),
        optional_jsons(read->Ok_0.history) == optional_jsons(task.history),
        optional_members(read->Ok_0.metadata) == optional_members(task.metadata),
{
    let view = task@;
    assert(read->Ok_0@ == view);
    assert(read->Ok_0@.message == view.message);
    assert(read->Ok_0@.id == view.id);
}

proof fn lemma_records(rows: Seq<StoredRow>, from: int)
    requires
        0 <= from <= rows.len(),
    ensures
        match records_of(rows, from) {
            Ok(list) => {
                &&& list.len() == rows.len() - from
                &&& forall|i: int|
                    #![trigger rows[i]]
                    from <= i < rows.len() ==> stored_task(rows[i].task_json@) == Ok::<
                        TaskView,
                        Seq<char>,
                    >(list[i - from].0) && list[i - from].1 == rows[i].version as u64
            },
            Err(error) => exists|i: int|
                #![trigger rows[i]]
                from <= i < rows.len() && stored_task(rows[i].task_json@) == Err::<
                    TaskView,
                    Seq<char>,
                >(error),
        },
    decreases rows.len() - from,
{
    if from < rows.len() {
        lemma_records(rows, from + 1);
        assert(rows[from] == rows[from]);
    }
}

/// Each row gives the record of the task that it holds, in its version and in its
/// place; where some row cannot be read, none is given.
pub proof fn law_each_row_is_loaded(
    rows: &Vec<StoredRow>,
    records: Result<Vec<TaskRecord>, String>,
    i: int,
    raw: &str,
    task: Result<Task, String>,
)
    requires
        call_ensures(load_task_records, (rows,), records),
        0 <= i < rows@.len(),
        raw@ == rows@[i].task_json@,
        call_ensures(decode_task, (raw,), task),
    ensures
        records is Ok ==> {
            &&& records->Ok_0@.len() == rows@.len()
            &&& task is Ok
            &&& records->Ok_0@[i].task@ == task->Ok_0@
            &&& records->Ok_0@[i].version == rows@[i].version as u64
        },
        task is Err ==> records is Err,
{
    lemma_records(rows@, 0);
    let row = rows@[i];
    if let Ok(list) = records {
        let views = record_views(list@);
        assert(views.len() == list@.len());
        assert(views[i - 0] == list@[i]@);
    }
}

/// A task that is marked as interrupted has failed, without a message, and carries the
/// note of it. All else of it is as it was, the other notes too.
pub proof fn law_marked_task(task: Task, marked: Task)
    requires
        call_ensures(mark_interrupted, (task,), marked),
    ensures
        marked.id@ == task.id@,
        marked.context_id@ == task.context_id@,
        marked.status.state == TaskState::Failed,
        marked.status.message is None,
        optional_timestamp(marked.status.timestamp) == optional_timestamp(task.status.timestamp),
        optional_jsons(marked.artifacts) == optional_jsons(task.artifacts),
        optional_jsons(marked.history) == optional_jsons(task.history),
        marked.metadata is Some,
        ({
            let notes = JsonView::Object(members_of(marked.metadata->0));
            let note = member_of(notes, "mesh_llm_recovery"@);
            &&& note is Some
            &&& member_of(note->0, "interrupted"@) == Some(JsonView::Bool(true))
            &&& member_of(note->0, "reason"@) is Some
            &&& forall|name: Seq<char>|
                name != "mesh_llm_recovery"@ ==> #[trigger] member_of(notes, name) == match task.metadata {
                    Some(before) => member_of(JsonView::Object(members_of(before)), name),
                    None => None,
                }
        }),
{
    lemma_member_names();
    let view = marked@;
    assert(view.id == task@.id);
    assert(view.message is None);
    assert(view.history == task@.history);
    assert(view.metadata is Some);
    assert(optional_members(marked.metadata) == view.metadata);
    assert(members_of(marked.metadata->0) == view.metadata->0);
}

/// A task is canceled where it is stored and has not ended: then it is canceled, and
/// all else of it is as it was.
pub proof fn law_canceling(stored: Option<Task>, canceled: Result<Task, CancelRefusal>)
    requires
        call_ensures(begin_cancel, (stored,), canceled),
    ensures
        stored is None ==> canceled is Err && canceled->Err_0 == CancelRefusal::NotFound,
        stored is Some ==> {
            let state = stored->0.status.state;
            let ended = state == TaskState::Completed || state == TaskState::Failed || state
                == TaskState::Canceled || state == TaskState::Rejected;
            &&& ended ==> canceled is Err && canceled->Err_0 == CancelRefusal::NotCancelable
            &&& !ended ==> {
                &&& canceled is Ok
                &&& canceled->Ok_0.status.state == TaskState::Canceled
                &&& canceled->Ok_0.id@ == stored->0.id@
                &&& canceled->Ok_0.context_id@ == stored->0.context_id@
                &&& optional_json(canceled->Ok_0.status.message) == optional_json(
                    stored->0.status.message,
                )
                &&& optional_jsons(canceled->Ok_0.artifacts) == optional_jsons(stored->0.artifacts)
                &&& optional_jsons(canceled->Ok_0.history) == optional_jsons(stored->0.history)
                &&& optional_members(canceled->Ok_0.metadata) == optional_members(
                    stored->0.metadata,
                )
            }
        },
{
    if let (Some(task), Ok(after)) = (stored, canceled) {
        assert(after@.id == task@.id);
        assert(after@.message == task@.message);
        assert(after@.metadata == task@.metadata);
    }
}

/// Each update gives the next version, and a task that is not stored gets none.
pub proof fn law_versions_count_up(stored: Option<u64>, version: Option<u64>)
    requires
        stored is Some ==> stored->0 < u64::MAX,
        call_ensures(next_version, (stored,), version),
    ensures
        version is Some <==> stored is Some,
        stored is Some ==> version->0 == stored->0 + 1,
{
}

/// A failure of the table says what was being done and what failed.
pub proof fn law_failures_say_what_failed(
    context: &str,
    error: &str,
    message: String,
    duplicate: bool,
    refused: String,
)
    requires
        call_ensures(sql_error, (context, error), message),
        call_ensures(create_error, (duplicate, error), refused),
    ensures
        has_prefix(message@, context@),
        has_suffix(message@, error@),
        message@.len() == context@.len() + 2 + error@.len(),
        duplicate ==> refused@ == "task already exists"@,
        !duplicate ==> has_prefix(refused@, "create task"@) && has_suffix(refused@, error@),
{
    reveal_strlit(": ");
    assert(message@.take(context@.len() as int) =~= context@);
    assert(message@.skip(message@.len() - error@.len()) =~= error@);
    if !duplicate {
        assert(refused@.take("create task"@.len() as int) =~= "create task"@);
        assert(refused@.skip(refused@.len() - error@.len()) =~= error@);
    }
}

/// A history that is cut is the end of the whole one, as long as asked for where the
/// whole one is longer, and whole otherwise. Nothing else of the task changes.
pub proof fn law_cut_history_is_the_end(task: Task, history_length: Option<i32>, cut: Task)
    requires
        call_ensures(apply_history_length, (task, history_length), cut),
    ensures
        cut.id@ == task.id@,
        cut.context_id@ == task.context_id@,
        cut.status.state == task.status.state,
        optional_jsons(cut.artifacts) == optional_jsons(task.artifacts),
        cut.history is Some <==> task.history is Some,
        task.history is Some && history_length is None ==> jsons(cut.history->0@) == jsons(
            task.history->0@,
        ),
        task.history is Some && history_length is Some ==> {
            let whole = jsons(task.history->0@);
            let kept = jsons(cut.history->0@);
            &&& history_length->0 >= whole.len() ==> kept == whole
            &&& 0 <= history_length->0 < whole.len() ==> kept.len() == history_length->0
            &&& history_length->0 < 0 ==> kept.len() == 0
            &&& kept.len() <= whole.len()
            &&& forall|i: int|
                0 <= i < kept.len() ==> kept[i] == #[trigger] whole[whole.len() - kept.len() + i]
        },
{
    assert(cut@.id == task@.id);
    assert(cut@.artifacts == task@.artifacts);
    assert(optional_jsons(cut.history) == latest(task@.history, history_length));
}

/// The task is one that the request asks for: of its context, in its state and later
/// than its time, as far as it names these.
pub open spec fn asked_for(task: Task, request: ListTasksRequest) -> bool {
    &&& request.context_id is Some ==> task.context_id@ == request.context_id->0@
    &&& request.status is Some ==> task.status.state == request.status->0
    &&& request.status_timestamp_after is Some && task.status.timestamp is Some ==> {
        let time = task.status.timestamp->0;
        let after = request.status_timestamp_after->0;
        time.seconds > after.seconds || (time.seconds == after.seconds && time.nanos
            > after.nanos)
    }
}

/// A listed task is one of the stored tasks, asked for by the request, and shown as it
/// is, with the end of its history, and without artifacts where none are wanted.
pub open spec fn lists_task(listed: Task, stored: Task, request: ListTasksRequest) -> bool {
    &&& asked_for(stored, request)
    &&& listed.id@ == stored.id@
    &&& listed.context_id@ == stored.context_id@
    &&& listed.status.state == stored.status.state
    &&& optional_json(listed.status.message) == optional_json(stored.status.message)
    &&& optional_members(listed.metadata) == optional_members(stored.metadata)
    &&& request.include_artifacts == Some(false) ==> listed.artifacts is None
    &&& request.include_artifacts != Some(false) ==> optional_jsons(listed.artifacts)
        == optional_jsons(stored.artifacts)
    &&& request.history_length is None ==> optional_jsons(listed.history) == optional_jsons(
        stored.history,
    )
}

/// Every task on a page is one of the stored tasks that the request asks for. The
/// tasks are in the order of their ids, and a page holds no more than asked for, or
/// than fifty.
pub proof fn law_page_lists_what_is_asked_for(
    tasks: Vec<Task>,
    request: &ListTasksRequest,
    response: ListTasksResponse,
    i: int,
)
    requires
        call_ensures(list_tasks, (tasks, request), response),
        0 <= i < response.tasks@.len(),
    ensures
        exists|stored: Task| #[trigger]
            tasks@.contains(stored) && lists_task(response.tasks@[i], stored, *request),
        forall|j: int|
            i < j < response.tasks@.len() ==> !precedes(
                (#[trigger] response.tasks@[j]).id@,
                response.tasks@[i].id@,
            ),
        request.page_size is Some && request.page_size->0 > 0 ==> response.tasks@.len()
            <= request.page_size->0 && response.page_size == request.page_size->0,
        request.page_size is None || request.page_size->0 <= 0 ==> response.tasks@.len() <= 50
            && response.page_size == 50,
{
    broadcast use vstd::seq_lib::group_filter_ensures;
    broadcast use vstd::seq_lib::group_to_multiset_ensures;

    let wanted = |task: Task| selected(task@, *request);
    let kept = tasks@.filter(wanted);
    let all = all_selected(tasks@, *request);
    assert(all == ranked(kept));
    law_sorting(kept);
    let total = all.len() as int;
    let start = page_start(optional_chars(request.page_token), total);
    let end = page_end(start, page_length(request.page_size), total);
    let page = all.subrange(start, end);
    let views = task_views(response.tasks@);
    assert(views == shown(page, *request));
    assert(views.len() == response.tasks@.len());
    assert(page.len() == response.tasks@.len());
    let stored = page[i];
    assert(views[i] == response.tasks@[i]@);
    assert(response.tasks@[i]@ == presented(stored@, *request));
    assert(stored == all[start + i]);
    assert(all.contains(stored));
    assert(all.to_multiset().count(stored) > 0);
    assert(kept.contains(stored));
    tasks@.lemma_filter_contains_rev(wanted, stored);
    assert(wanted(stored)) by {
        let k = choose|k: int| 0 <= k < kept.len() && kept[k] == stored;
        assert(wanted(kept[k]));
    }
    let shown_task = response.tasks@[i];
    assert(shown_task@.id == stored@.id);
    assert(shown_task@.message == stored@.message);
    assert(shown_task@.metadata == stored@.metadata);
    assert(shown_task@.artifacts == presented(stored@, *request).artifacts);
    assert(lists_task(response.tasks@[i], stored, *request));
    assert forall|j: int| i < j < response.tasks@.len() implies !precedes(
        (#[trigger] response.tasks@[j]).id@,
        response.tasks@[i].id@,
    ) by {
        assert(views[j] == response.tasks@[j]@);
        assert(response.tasks@[j]@ == presented(page[j]@, *request));
        assert(page[j] == all[start + j]);
        assert(!ranks_before(all[start + j].rank(), all[start + i].rank()));
        reveal_with_fuel(ranks_before, 2);
        lemma_precedes_irreflexive(stored.id@);
        assert(response.tasks@[j]@.id == page[j]@.id);
    }
}

/// The first page of a list that fits it holds every stored task that the request asks
/// for, and no page comes behind it.
pub proof fn law_short_list_is_whole(
    tasks: Vec<Task>,
    request: &ListTasksRequest,
    response: ListTasksResponse,
    stored: Task,
)
    requires
        call_ensures(list_tasks, (tasks, request), response),
        request.page_token is None,
        tasks@.len() <= 50 && (request.page_size is None || request.page_size->0 <= 0) || (
        request.page_size is Some && tasks@.len() <= request.page_size->0 && request.page_size->0
            > 0),
        tasks@.contains(stored),
        asked_for(stored, *request),
    ensures
        exists|i: int|
            0 <= i < response.tasks@.len() && lists_task(
                #[trigger] response.tasks@[i],
                stored,
                *request,
            ),
        response.next_page_token@.len() == 0,
{
    broadcast use vstd::seq_lib::group_filter_ensures;
    broadcast use vstd::seq_lib::group_to_multiset_ensures;

    let wanted = |task: Task| selected(task@, *request);
    let kept = tasks@.filter(wanted);
    let all = all_selected(tasks@, *request);
    assert(all == ranked(kept));
    law_sorting(kept);
    assert(kept.len() <= tasks@.len());
    assert(all.len() == kept.len()) by {
        all.to_multiset_ensures();
        kept.to_multiset_ensures();
    }
    let at = choose|at: int| 0 <= at < tasks@.len() && tasks@[at] == stored;
    assert(wanted(tasks@[at]));
    assert(kept.contains(tasks@[at]));
    assert(kept.to_multiset().count(stored) > 0);
    assert(all.contains(stored));
    let i = choose|i: int| 0 <= i < all.len() && all[i] == stored;
    let total = all.len() as int;
    let page = all.subrange(0, total);
    let views = task_views(response.tasks@);
    assert(views == shown(page, *request));
    assert(views.len() == response.tasks@.len());
    assert(views[i] == response.tasks@[i]@);
    assert(response.tasks@[i]@ == presented(stored@, *request));
    let shown_task = response.tasks@[i];
    assert(shown_task@.id == stored@.id);
    assert(shown_task@.message == stored@.message);
    assert(shown_task@.metadata == stored@.metadata);
    assert(shown_task@.artifacts == presented(stored@, *request).artifacts);
    assert(lists_task(response.tasks@[i], stored, *request));
}

} // verus!
