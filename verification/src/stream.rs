//! The event stream that answers a message to an agent of another node.

use vstd::prelude::*;
use vstd::string::StringExecFns;

#[allow(unused_imports)]
use crate::artifacts::{json_result, jsons_result};
use crate::json::get;
#[allow(unused_imports)]
use crate::json::{json_of, jsons, member_of, JsonView};
use crate::text::{
    blank, chars_of, lines, plus, signed_decimal_text, strip_prefix, trim_start,
};
#[allow(unused_imports)]
use crate::text::{
    has_prefix, is_blank, is_white, lemma_position_of, lines_of, signed_decimal, texts,
    trimmed_start,
};
use crate::wire::decode_reply;
#[allow(unused_imports)]
use crate::wire::decoded_reply;

verus! {

/// What the bytes of a text spell, with what is no UTF-8 replaced.
pub uninterp spec fn lossy_text_of(bytes: Seq<u8>) -> Seq<char>;

/// `String::from_utf8_lossy`. ASCII bytes spell the characters of their numbers.
#[verifier::external_body]
fn lossy_text(bytes: &[u8]) -> (text: String)
    ensures
        text@ == lossy_text_of(bytes@),
        (forall|i: int| 0 <= i < bytes@.len() ==> #[trigger] bytes@[i] < 128) ==> text@
            == bytes@.map_values(|byte: u8| byte as char),
{
    String::from_utf8_lossy(bytes).into_owned()
}

/// What a stream gives: its events, or the error's text.
pub type Events = Result<Seq<JsonView>, Seq<char>>;

/// Events with some before them.
pub open spec fn after_events(before: Seq<JsonView>, rest: Events) -> Events {
    match rest {
        Ok(events) => Ok(before + events),
        Err(error) => Err(error),
    }
}

/// The event that collected data makes: the result of the JSON-RPC response that
/// it spells. Blank data makes none, nor does a response without a result. An
/// error in the response ends the stream.
pub open spec fn flushed(data: Seq<char>) -> Events {
    if is_blank(data) {
        Ok(seq![])
    } else {
        match decoded_reply(data) {
            Err(error) => Err(error),
            Ok(reply) => match reply.error {
                Some(error) => Err(
                    "remote A2A stream error "@ + signed_decimal(error.0) + ": "@ + error.1,
                ),
                None => match reply.result {
                    Some(result) => Ok(seq![result]),
                    None => Ok(seq![]),
                },
            },
        }
    }
}

/// Collected data with one more line.
pub open spec fn data_with(data: Seq<char>, line: Seq<char>) -> Seq<char> {
    if data.len() == 0 {
        line
    } else {
        data.push('\n') + line
    }
}

/// The events of the lines from `at` on, behind the data collected so far. A blank
/// line ends an event; `data:` lines add to it, and other lines are passed over.
pub open spec fn events_from(lines: Seq<Seq<char>>, at: int, data: Seq<char>) -> Events
    decreases lines.len() - at,
{
    if at < 0 || at >= lines.len() {
        flushed(data)
    } else if is_blank(lines[at]) {
        match flushed(data) {
            Ok(events) => after_events(events, events_from(lines, at + 1, seq![])),
            Err(error) => Err(error),
        }
    } else if has_prefix(lines[at], "data:"@) {
        events_from(
            lines,
            at + 1,
            data_with(data, trimmed_start(lines[at].skip("data:"@.len() as int))),
        )
    } else {
        events_from(lines, at + 1, data)
    }
}

/// The events of a stream's text.
pub open spec fn events_of(text: Seq<char>) -> Events {
    events_from(lines_of(text), 0, seq![])
}

fn flush_sse_event(data: &str) -> (event: Result<Option<serde_json::Value>, String>)
    ensures
        match event {
            Ok(Some(event)) => flushed(data@) == Ok::<Seq<JsonView>, Seq<char>>(
                seq![json_of(event)],
            ),
            Ok(None) => flushed(data@) == Ok::<Seq<JsonView>, Seq<char>>(seq![]),
            Err(error) => flushed(data@) == Err::<Seq<JsonView>, Seq<char>>(error@),
        },
{
    if blank(data) {
        return Ok(None);
    }
    let reply = match decode_reply(data) {
        Ok(reply) => reply,
        Err(error) => {
            return Err(error);
        },
    };
    if let Some(error) = &reply.error {
        let code = signed_decimal_text(error.code as i64);
        let opened = plus("remote A2A stream error ".to_string(), code.as_str());
        return Err(plus(plus(opened, ": "), error.message.as_str()));
    }
    Ok(reply.result)
}

proof fn lemma_after_twice(first: Seq<JsonView>, second: Seq<JsonView>, rest: Events)
    ensures
        after_events(first, after_events(second, rest)) == after_events(first + second, rest),
{
    if let Ok(events) = rest {
        assert(first + (second + events) =~= (first + second) + events);
    }
}

/// Reads the events out of a stream's text.
pub fn parse_sse_text(text: &str) -> (events: Result<Vec<serde_json::Value>, String>)
    ensures
        jsons_result(events) == events_of(text@),
{
    let found = lines(text);
    let ghost all = lines_of(text@);
    let mut events: Vec<serde_json::Value> = Vec::new();
    let mut data = String::new();
    let mut i: usize = 0;
    proof {
        assert(data@ =~= Seq::<char>::empty());
        if let Ok(rest) = events_from(all, 0, seq![]) {
            assert(jsons(events@) + rest =~= rest);
        }
    }
    while i < found.len()
        invariant
            i <= found@.len(),
            texts(found@) == all,
            after_events(jsons(events@), events_from(all, i as int, data@)) == events_from(
                all,
                0,
                seq![],
            ),
            all == lines_of(text@),
        decreases found@.len() - i,
    {
        let ghost before = jsons(events@);
        assert(all[i as int] == found@[i as int]@);
        if blank(found[i].as_str()) {
            match flush_sse_event(data.as_str()) {
                Ok(Some(event)) => {
                    proof {
                        lemma_after_twice(
                            before,
                            seq![json_of(event)],
                            events_from(all, i as int + 1, seq![]),
                        );
                    }
                    events.push(event);
                    assert(jsons(events@) =~= before + seq![json_of(event)]);
                },
                Ok(None) => {
                    proof {
                        lemma_after_twice(before, seq![], events_from(all, i as int + 1, seq![]));
                        assert(before + Seq::<JsonView>::empty() =~= before);
                    }
                },
                Err(error) => {
                    return Err(error);
                },
            }
            data = String::new();
            assert(data@ =~= Seq::<char>::empty());
        } else {
            if let Some(value) = strip_prefix(found[i].as_str(), "data:") {
                let ghost held = data@;
                if chars_of(data.as_str()).len() > 0 {
                    data.push('\n');
                }
                let more = trim_start(value.as_str());
                data.append(more.as_str());
                assert(data@ =~= data_with(held, more@));
            }
        }
        i += 1;
    }
    match flush_sse_event(data.as_str()) {
        Ok(Some(event)) => {
            let ghost before = jsons(events@);
            events.push(event);
            assert(jsons(events@) =~= before + seq![json_of(event)]);
            Ok(events)
        },
        Ok(None) => {
            assert(jsons(events@) + Seq::<JsonView>::empty() =~= jsons(events@));
            Ok(events)
        },
        Err(error) => Err(error),
    }
}

/// Reads the events out of a stream's bytes.
pub fn parse_jsonrpc_sse_events(body: &[u8]) -> (events: Result<Vec<serde_json::Value>, String>)
    ensures
        jsons_result(events) == events_of(lossy_text_of(body@)),
{
    parse_sse_text(lossy_text(body).as_str())
}

/// The task that an event carries.
pub open spec fn event_task(event: JsonView) -> Option<JsonView> {
    match member_of(event, "task"@) {
        Some(task) => Some(task),
        None => match member_of(event, "result"@) {
            Some(result) => member_of(result, "task"@),
            None => None,
        },
    }
}

pub fn stream_event_task(event: &serde_json::Value) -> (task: Option<&serde_json::Value>)
    ensures
        match task {
            Some(task) => event_task(json_of(*event)) == Some(json_of(*task)),
            None => event_task(json_of(*event)) is None,
        },
{
    match get(event, "task") {
        Some(task) => Some(task),
        None => match get(event, "result") {
            Some(result) => get(result, "task"),
            None => None,
        },
    }
}

/// The last task among the first `upto` events.
pub open spec fn last_task(events: Seq<JsonView>, upto: int) -> Option<JsonView>
    decreases upto,
{
    if upto <= 0 || upto > events.len() {
        None
    } else {
        match event_task(events[upto - 1]) {
            Some(task) => Some(task),
            None => last_task(events, upto - 1),
        }
    }
}

/// What a stream ends on: the last task that its events carry, or its last event.
pub open spec fn outcome_of(events: Seq<JsonView>) -> Result<JsonView, Seq<char>> {
    if events.len() == 0 {
        Err("remote A2A stream completed without events"@)
    } else {
        match last_task(events, events.len() as int) {
            Some(task) => Ok(task),
            None => Ok(events.last()),
        }
    }
}

pub fn stream_outcome(events: &Vec<serde_json::Value>) -> (outcome: Result<
    serde_json::Value,
    String,
>)
    ensures
        json_result(outcome) == outcome_of(jsons(events@)),
{
    if events.len() == 0 {
        return Err("remote A2A stream completed without events".to_string());
    }
    let ghost all = jsons(events@);
    let mut i: usize = events.len();
    while i > 0
        invariant
            i <= events@.len(),
            events@.len() > 0,
            all == jsons(events@),
            last_task(all, i as int) == last_task(all, all.len() as int),
        decreases i,
    {
        assert(all[i as int - 1] == json_of(events@[i as int - 1]));
        if let Some(task) = stream_event_task(&events[i - 1]) {
            return Ok(task.clone());
        }
        i -= 1;
    }
    Ok(events[events.len() - 1].clone())
}

/// A stream that sends each payload as one `data:` line with a blank line behind it.
pub open spec fn framed(payloads: Seq<Seq<char>>) -> Seq<char>
    decreases payloads.len(),
{
    if payloads.len() == 0 {
        seq![]
    } else {
        "data: "@ + payloads[0] + "\n\n"@ + framed(payloads.drop_first())
    }
}

/// A JSON object written on one line.
pub open spec fn is_payload(payload: Seq<char>) -> bool {
    &&& payload.len() >= 2
    &&& payload[0] == '{'
    &&& payload.last() == '}'
    &&& !payload.contains('\n')
}

/// A payload that is a JSON-RPC response with a result and no error.
pub open spec fn carries(payload: Seq<char>, result: JsonView) -> bool {
    &&& decoded_reply(payload) is Ok
    &&& decoded_reply(payload)->Ok_0.error is None
    &&& decoded_reply(payload)->Ok_0.result == Some(result)
}

/// The results that are sent as a stream come out of it, each once and in order.
pub proof fn law_sent_results_come_out(payloads: Seq<Seq<char>>, results: Seq<JsonView>)
    requires
        payloads.len() == results.len(),
        forall|i: int| 0 <= i < payloads.len() ==> is_payload(#[trigger] payloads[i]),
        forall|i: int| 0 <= i < payloads.len() ==> carries(#[trigger] payloads[i], results[i]),
    ensures
        events_of(framed(payloads)) == Ok::<Seq<JsonView>, Seq<char>>(results),
    decreases payloads.len(),
{
    if payloads.len() == 0 {
        assert(lines_of(framed(payloads)).len() == 0);
        assert(results =~= seq![]);
        assert(is_blank(Seq::<char>::empty()));
    } else {
        let payload = payloads[0];
        let rest = payloads.drop_first();
        let rest_results = results.drop_first();
        assert forall|i: int| 0 <= i < rest.len() implies is_payload(#[trigger] rest[i]) by {
            assert(rest[i] == payloads[i + 1]);
        }
        assert forall|i: int| 0 <= i < rest.len() implies carries(
            #[trigger] rest[i],
            rest_results[i],
        ) by {
            assert(rest[i] == payloads[i + 1]);
        }
        law_sent_results_come_out(rest, rest_results);
        assert(is_payload(payloads[0]));
        assert(carries(payloads[0], results[0]));
        let tail = framed(rest);
        lemma_first_frame(payload, tail);
        let all = lines_of(framed(payloads));
        let line = "data: "@ + payload;
        lemma_data_line(payload);
        assert(all =~= seq![line, Seq::<char>::empty()] + lines_of(tail));
        assert(all.skip(2) =~= lines_of(tail));
        lemma_events_shift(all, lines_of(tail), 2, 0, seq![]);
        assert(all[0] == line);
        assert(all[1] == Seq::<char>::empty());
        assert(is_blank(all[1]));
        assert(!is_white(payload[0]));
        assert(!is_blank(payload));
        assert(flushed(payload) == Ok::<Seq<JsonView>, Seq<char>>(seq![results[0]]));
        assert(data_with(seq![], payload) == payload);
        assert(events_from(all, 1, payload) == after_events(
            seq![results[0]],
            events_from(all, 2, seq![]),
        ));
        assert(events_from(all, 0, seq![]) == events_from(all, 1, payload));
        assert(seq![results[0]] + rest_results =~= results);
    }
}

proof fn lemma_data_line(payload: Seq<char>)
    requires
        is_payload(payload),
    ensures
        ({
            let line = "data: "@ + payload;
            &&& !is_blank(line)
            &&& has_prefix(line, "data:"@)
            &&& trimmed_start(line.skip("data:"@.len() as int)) == payload
        }),
{
    reveal_strlit("data: ");
    reveal_strlit("data:");
    let line = "data: "@ + payload;
    assert(!is_white(line[0]));
    assert(line.take(5) =~= "data:"@);
    let value = line.skip(5);
    assert(value[0] == ' ');
    assert(value.drop_first() =~= payload);
    assert(trimmed_start(payload) == payload);
    assert(trimmed_start(value) == trimmed_start(payload));
}

proof fn lemma_first_frame(payload: Seq<char>, tail: Seq<char>)
    requires
        is_payload(payload),
    ensures
        lines_of("data: "@ + payload + "\n\n"@ + tail) == seq![
            "data: "@ + payload,
            Seq::<char>::empty(),
        ] + lines_of(tail),
{
    reveal_strlit("data: ");
    reveal_strlit("\n\n");
    let line = "data: "@ + payload;
    let text = "data: "@ + payload + "\n\n"@ + tail;
    let end = line.len() as int;
    assert forall|i: int| 0 <= i < end implies #[trigger] text[i] != '\n' by {
        if i >= 6 {
            assert(text[i] == payload[i - 6]);
            assert(payload.contains(payload[i - 6]));
        }
    }
    assert(text[end] == '\n');
    lemma_position_of(text, '\n', end);
    assert(text.take(end) =~= line);
    assert(line.last() == payload.last());
    let second = text.skip(end + 1);
    assert(second =~= seq!['\n'] + tail);
    lemma_position_of(second, '\n', 0);
    assert(second.take(0) =~= Seq::<char>::empty());
    assert(second.skip(1) =~= tail);
    assert(lines_of(second) =~= seq![Seq::<char>::empty()] + lines_of(tail));
    assert(lines_of(text) =~= seq![line] + lines_of(second));
}

proof fn lemma_events_shift(
    all: Seq<Seq<char>>,
    rest: Seq<Seq<char>>,
    by: int,
    at: int,
    data: Seq<char>,
)
    requires
        0 <= by <= all.len(),
        rest == all.skip(by),
        0 <= at <= rest.len(),
    ensures
        events_from(all, by + at, data) == events_from(rest, at, data),
    decreases rest.len() - at,
{
    if at < rest.len() {
        assert(rest[at] == all[by + at]);
        lemma_events_shift(all, rest, by, at + 1, seq![]);
        lemma_events_shift(
            all,
            rest,
            by,
            at + 1,
            data_with(data, trimmed_start(rest[at].skip("data:"@.len() as int))),
        );
        lemma_events_shift(all, rest, by, at + 1, data);
    }
}

/// The task of an event is its own, or else that of its result.
pub proof fn law_task_of_an_event(event: &serde_json::Value, task: Option<&serde_json::Value>)
    requires
        call_ensures(stream_event_task, (event,), task),
    ensures
        member_of(json_of(*event), "task"@) is Some ==> task is Some && Some(json_of(*task->0))
            == member_of(json_of(*event), "task"@),
        member_of(json_of(*event), "task"@) is None && member_of(json_of(*event), "result"@) is Some
            ==> (task is Some <==> member_of(
            member_of(json_of(*event), "result"@)->0,
            "task"@,
        ) is Some) && (task is Some ==> Some(json_of(*task->0)) == member_of(
            member_of(json_of(*event), "result"@)->0,
            "task"@,
        )),
        member_of(json_of(*event), "task"@) is None && member_of(json_of(*event), "result"@) is None
            ==> task is None,
{
}

proof fn lemma_last_task(events: Seq<JsonView>, upto: int, at: int)
    requires
        0 <= at < upto <= events.len(),
        event_task(events[at]) is Some,
        forall|i: int| at < i < upto ==> event_task(#[trigger] events[i]) is None,
    ensures
        last_task(events, upto) == event_task(events[at]),
    decreases upto,
{
    if at < upto - 1 {
        assert(event_task(events[upto - 1]) is None);
        lemma_last_task(events, upto - 1, at);
    }
}

proof fn lemma_no_task(events: Seq<JsonView>, upto: int)
    requires
        0 <= upto <= events.len(),
        forall|i: int| 0 <= i < events.len() ==> event_task(#[trigger] events[i]) is None,
    ensures
        last_task(events, upto) is None,
    decreases upto,
{
    if upto > 0 {
        assert(event_task(events[upto - 1]) is None);
        lemma_no_task(events, upto - 1);
    }
}

/// A stream ends on the task of the last of its events that carries one, and on its
/// last event where none does. Without an event it ends on nothing.
pub proof fn law_stream_ends_on_its_last_task(
    events: &Vec<serde_json::Value>,
    outcome: Result<serde_json::Value, String>,
    at: int,
    carrier: &serde_json::Value,
    task: Option<&serde_json::Value>,
)
    requires
        call_ensures(stream_outcome, (events,), outcome),
        0 <= at < events@.len(),
        *carrier == events@[at],
        call_ensures(stream_event_task, (carrier,), task),
    ensures
        outcome is Ok,
        task is Some && (forall|i: int|
            at < i < events@.len() ==> event_task(json_of(#[trigger] events@[i])) is None)
            ==> json_of(outcome->Ok_0) == json_of(*task->0),
        (forall|i: int| 0 <= i < events@.len() ==> event_task(json_of(#[trigger] events@[i])) is None)
            ==> json_of(outcome->Ok_0) == json_of(events@.last()),
{
    let all = jsons(events@);
    let length = all.len() as int;
    assert(all[at] == json_of(events@[at]));
    assert(all.last() == json_of(events@.last()));
    if task is Some && (forall|i: int|
        at < i < events@.len() ==> event_task(json_of(#[trigger] events@[i])) is None) {
        assert forall|i: int| at < i < length implies event_task(#[trigger] all[i]) is None by {
            assert(all[i] == json_of(events@[i]));
        }
        lemma_last_task(all, length, at);
    }
    if forall|i: int| 0 <= i < events@.len() ==> event_task(json_of(#[trigger] events@[i])) is None {
        assert forall|i: int| 0 <= i < length implies event_task(#[trigger] all[i]) is None by {
            assert(all[i] == json_of(events@[i]));
        }
        lemma_no_task(all, length);
    }
}

/// A stream without events is refused.
pub proof fn law_empty_stream_is_refused(
    events: &Vec<serde_json::Value>,
    outcome: Result<serde_json::Value, String>,
)
    requires
        call_ensures(stream_outcome, (events,), outcome),
        events@.len() == 0,
    ensures
        outcome is Err,
{
}

proof fn lemma_framed_step(payloads: Seq<Seq<char>>)
    requires
        payloads.len() > 0,
        is_payload(payloads[0]),
    ensures
        events_of(framed(payloads)) == match flushed(payloads[0]) {
            Ok(events) => after_events(events, events_of(framed(payloads.drop_first()))),
            Err(error) => Err(error),
        },
{
    let payload = payloads[0];
    let tail = framed(payloads.drop_first());
    lemma_first_frame(payload, tail);
    let all = lines_of(framed(payloads));
    let line = "data: "@ + payload;
    lemma_data_line(payload);
    assert(all =~= seq![line, Seq::<char>::empty()] + lines_of(tail));
    assert(all.skip(2) =~= lines_of(tail));
    lemma_events_shift(all, lines_of(tail), 2, 0, seq![]);
    assert(all[0] == line);
    assert(all[1] == Seq::<char>::empty());
    assert(is_blank(all[1]));
    assert(data_with(seq![], payload) == payload);
    assert(events_from(all, 0, seq![]) == events_from(all, 1, payload));
    assert(events_from(all, 1, payload) == match flushed(payload) {
        Ok(events) => after_events(events, events_from(all, 2, seq![])),
        Err(error) => Err(error),
    });
}

/// An error that is sent ends the stream, whatever came before it and whatever comes
/// behind: the stream then fails with its code and its message.
pub proof fn law_sent_error_ends_the_stream(
    payloads: Seq<Seq<char>>,
    results: Seq<JsonView>,
    at: int,
    text: &str,
    events: Result<Vec<serde_json::Value>, String>,
)
    requires
        0 <= at < payloads.len(),
        results.len() == at,
        forall|i: int| 0 <= i <= at ==> is_payload(#[trigger] payloads[i]),
        forall|i: int| 0 <= i < at ==> carries(#[trigger] payloads[i], results[i]),
        decoded_reply(payloads[at]) is Ok,
        decoded_reply(payloads[at])->Ok_0.error is Some,
        text@ == framed(payloads),
        call_ensures(parse_sse_text, (text,), events),
    ensures
        events is Err,
        ({
            let error = decoded_reply(payloads[at])->Ok_0.error->0;
            events->Err_0@ == "remote A2A stream error "@ + signed_decimal(error.0) + ": "@
                + error.1
        }),
{
    lemma_error_ends(payloads, results, at);
}

proof fn lemma_error_ends(payloads: Seq<Seq<char>>, results: Seq<JsonView>, at: int)
    requires
        0 <= at < payloads.len(),
        results.len() == at,
        forall|i: int| 0 <= i <= at ==> is_payload(#[trigger] payloads[i]),
        forall|i: int| 0 <= i < at ==> carries(#[trigger] payloads[i], results[i]),
        decoded_reply(payloads[at]) is Ok,
        decoded_reply(payloads[at])->Ok_0.error is Some,
    ensures
        ({
            let error = decoded_reply(payloads[at])->Ok_0.error->0;
            events_of(framed(payloads)) == Err::<Seq<JsonView>, Seq<char>>(
                "remote A2A stream error "@ + signed_decimal(error.0) + ": "@ + error.1,
            )
        }),
    decreases at,
{
    assert(is_payload(payloads[0]));
    lemma_framed_step(payloads);
    assert(!is_white(payloads[0][0]));
    assert(!is_blank(payloads[0]));
    if at > 0 {
        let rest = payloads.drop_first();
        let more = results.drop_first();
        assert(carries(payloads[0], results[0]));
        assert forall|i: int| 0 <= i <= at - 1 implies is_payload(#[trigger] rest[i]) by {
            assert(rest[i] == payloads[i + 1]);
        }
        assert forall|i: int| 0 <= i < at - 1 implies carries(#[trigger] rest[i], more[i]) by {
            assert(rest[i] == payloads[i + 1]);
        }
        assert(rest[at - 1] == payloads[at]);
        lemma_error_ends(rest, more, at - 1);
    }
}

/// The data of an event that is sent on several lines is what the lines say, with a
/// line feed between them; lines of another name are passed over.
pub proof fn law_lines_of_an_event_are_joined(
    text: &str,
    events: Result<Vec<serde_json::Value>, String>,
    first: Seq<char>,
    between: Seq<char>,
    second: Seq<char>,
    result: JsonView,
)
    requires
        call_ensures(parse_sse_text, (text,), events),
        lines_of(text@) == seq![
            "data: "@ + first,
            between,
            "data: "@ + second,
            Seq::<char>::empty(),
        ],
        !is_blank(between),
        !has_prefix(between, "data:"@),
        first.len() > 0 && !is_white(first[0]),
        second.len() > 0 && !is_white(second[0]),
        carries(first.push('\n') + second, result),
    ensures
        jsons_result(events) == Ok::<Seq<JsonView>, Seq<char>>(seq![result]),
{
    let all = lines_of(text@);
    let whole = first.push('\n') + second;
    lemma_line_value(first);
    lemma_line_value(second);
    assert(data_with(seq![], first) == first);
    assert(data_with(first, second) == whole);
    assert(whole[0] == first[0]);
    assert(!is_blank(whole));
    assert(is_blank(all[3]));
    assert(is_blank(Seq::<char>::empty()));
    assert(flushed(whole) == Ok::<Seq<JsonView>, Seq<char>>(seq![result]));
    assert(events_from(all, 4, seq![]) == Ok::<Seq<JsonView>, Seq<char>>(seq![]));
    assert(seq![result] + Seq::<JsonView>::empty() =~= seq![result]);
    assert(events_from(all, 3, whole) == Ok::<Seq<JsonView>, Seq<char>>(seq![result]));
    assert(events_from(all, 2, first) == events_from(all, 3, whole));
    assert(events_from(all, 1, first) == events_from(all, 2, first));
    assert(events_from(all, 0, seq![]) == events_from(all, 1, first));
}

proof fn lemma_line_value(value: Seq<char>)
    requires
        value.len() > 0 && !is_white(value[0]),
    ensures
        ({
            let line = "data: "@ + value;
            &&& !is_blank(line)
            &&& has_prefix(line, "data:"@)
            &&& trimmed_start(line.skip("data:"@.len() as int)) == value
        }),
{
    reveal_strlit("data: ");
    reveal_strlit("data:");
    let line = "data: "@ + value;
    assert(!is_white(line[0]));
    assert(line.take(5) =~= "data:"@);
    let rest = line.skip(5);
    assert(rest[0] == ' ');
    assert(rest.drop_first() =~= value);
    assert(trimmed_start(value) == value);
    assert(trimmed_start(rest) == trimmed_start(value));
}

} // verus!
