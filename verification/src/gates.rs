//! How many tasks an agent may run at once, and how many may wait.
//!
//! A gate counts the tasks that run and keeps those that wait, in the order in
//! which they came. A request either runs, waits, or is turned away.

use vstd::prelude::*;

use crate::config::QueueMode;
use crate::registry::AgentDefinition;
use crate::text::{decimal_text, plus, same_text};
#[allow(unused_imports)]
use crate::text::decimal;

verus! {

/// An agent's gate: how many tasks may run, how many do, and which wait.
#[derive(Debug)]
pub struct AgentGate {
    pub limit: usize,
    pub running: usize,
    pub waiting: Vec<u64>,
}

#[verifier::ext_equal]
pub struct GateView {
    pub limit: int,
    pub running: int,
    pub waiting: Seq<u64>,
}

impl View for AgentGate {
    type V = GateView;

    open spec fn view(&self) -> GateView {
        GateView {
            limit: self.limit as int,
            running: self.running as int,
            waiting: self.waiting@,
        }
    }
}

impl GateView {
    /// No more tasks run than may, and none waits while one more may run.
    pub open spec fn well_formed(self) -> bool {
        &&& 0 < self.limit
        &&& 0 <= self.running <= self.limit
        &&& self.waiting.len() > 0 ==> self.running == self.limit
    }
}

/// What becomes of a request.
#[derive(Clone, Copy, Debug, PartialEq, Eq, Structural)]
pub enum Admission {
    Runs,
    Waits,
    AtLimit,
    QueueFull,
}

/// What becomes of a request at a gate. Where tasks are not queued, or no task may
/// wait, a request runs if one more task may run, and is turned away otherwise.
/// Where they are queued, a request is turned away if as many tasks wait as may.
pub open spec fn admission(gate: GateView, mode: QueueMode, max_pending: int) -> Admission {
    if mode == QueueMode::Reject || max_pending == 0 {
        if gate.running < gate.limit {
            Admission::Runs
        } else {
            Admission::AtLimit
        }
    } else if gate.waiting.len() + 1 > max_pending {
        Admission::QueueFull
    } else if gate.running < gate.limit {
        Admission::Runs
    } else {
        Admission::Waits
    }
}

/// A gate after a request with a ticket.
pub open spec fn after_request(gate: GateView, admitted: Admission, ticket: u64) -> GateView {
    match admitted {
        Admission::Runs => GateView { running: gate.running + 1, ..gate },
        Admission::Waits => GateView { waiting: gate.waiting.push(ticket), ..gate },
        _ => gate,
    }
}

/// A gate after a task has ended: the one that waited longest runs in its place.
pub open spec fn after_release(gate: GateView) -> GateView {
    if gate.waiting.len() > 0 {
        GateView { waiting: gate.waiting.drop_first(), ..gate }
    } else {
        GateView { running: gate.running - 1, ..gate }
    }
}

impl AgentGate {
    pub fn new(limit: usize) -> (gate: Self)
        requires
            limit > 0,
        ensures
            gate@ == (GateView { limit: limit as int, running: 0, waiting: seq![] }),
            gate.limit == limit,
            gate.running == 0,
            gate.waiting@.len() == 0,
            gate@.well_formed(),
    {
        let gate = AgentGate { limit: limit, running: 0, waiting: Vec::new() };
        assert(gate@.waiting =~= seq![]);
        gate
    }

    /// Asks for a task to run. A task that has to wait is known by its ticket.
    pub fn request(&mut self, mode: QueueMode, max_pending: usize, ticket: u64) -> (admitted:
        Admission)
        requires
            old(self)@.well_formed(),
        ensures
            admitted == admission(old(self)@, mode, max_pending as int),
            final(self)@ == after_request(old(self)@, admitted, ticket),
            final(self)@.well_formed(),
            final(self).limit == old(self).limit,
            admitted == Admission::Runs <==> old(self).running < old(self).limit,
            final(self).running == old(self).running + if admitted == Admission::Runs {
                1int
            } else {
                0int
            },
            final(self).waiting@ == if admitted == Admission::Waits {
                old(self).waiting@.push(ticket)
            } else {
                old(self).waiting@
            },
    {
        if mode == QueueMode::Reject || max_pending == 0 {
            if self.running < self.limit {
                self.running = self.running + 1;
                return Admission::Runs;
            }
            return Admission::AtLimit;
        }
        if self.waiting.len() >= max_pending {
            return Admission::QueueFull;
        }
        if self.running < self.limit {
            self.running = self.running + 1;
            Admission::Runs
        } else {
            self.waiting.push(ticket);
            Admission::Waits
        }
    }

    /// Ends a task. Gives the ticket of the task that runs in its place.
    pub fn release(&mut self) -> (next: Option<u64>)
        requires
            old(self)@.well_formed(),
            old(self)@.running > 0,
        ensures
            next == if old(self)@.waiting.len() > 0 {
                Some(old(self)@.waiting[0])
            } else {
                None
            },
            final(self)@ == after_release(old(self)@),
            final(self)@.well_formed(),
            final(self).limit == old(self).limit,
            final(self).running == old(self).running - if old(self).waiting@.len() == 0 {
                1int
            } else {
                0int
            },
            next is Some <==> old(self).waiting@.len() > 0,
            next is Some ==> next->0 == old(self).waiting@[0] && final(self).waiting@ == old(
                self,
            ).waiting@.drop_first(),
    {
        if self.waiting.len() > 0 {
            let ghost before = self.waiting@;
            let next: u64 = self.waiting.remove(0);
            assert(self.waiting@ =~= before.drop_first());
            Some(next)
        } else {
            self.running = self.running - 1;
            None
        }
    }

    /// Gives up waiting. Gives whether the ticket was waiting at all.
    pub fn forget(&mut self, ticket: u64) -> (waited: bool)
        requires
            old(self)@.well_formed(),
        ensures
            waited == old(self)@.waiting.contains(ticket),
            !waited ==> final(self)@ == old(self)@,
            waited ==> exists|at: int|
                0 <= at < old(self)@.waiting.len() && old(self)@.waiting[at] == ticket
                    && final(self)@ == (GateView {
                    waiting: #[trigger] old(self)@.waiting.remove(at),
                    ..old(self)@
                }),
            final(self)@.well_formed(),
    {
        let ghost before = self@;
        let mut i: usize = 0;
        while i < self.waiting.len()
            invariant
                i <= self.waiting@.len(),
                self@ == before,
                before == old(self)@,
                before.well_formed(),
                forall|j: int| 0 <= j < i ==> #[trigger] before.waiting[j] != ticket,
            decreases self.waiting@.len() - i,
        {
            if self.waiting[i] == ticket {
                let _ = self.waiting.remove(i);
                assert(self.waiting@ == before.waiting.remove(i as int));
                assert(before.waiting[i as int] == ticket);
                return true;
            }
            i += 1;
        }
        false
    }
}

/// At a gate no more tasks run than may, whatever is asked of it, and a request is
/// turned away or has to wait only where as many run as may. No more tasks come to
/// wait than may.
pub proof fn law_gate_keeps_its_limit(
    gate: GateView,
    mode: QueueMode,
    max_pending: nat,
    ticket: u64,
)
    requires
        gate.well_formed(),
    ensures
        ({
            let admitted = admission(gate, mode, max_pending as int);
            let after = after_request(gate, admitted, ticket);
            &&& after.well_formed()
            &&& after.running <= after.limit
            &&& mode == QueueMode::Queue ==> after.waiting.len() <= if gate.waiting.len()
                > max_pending {
                gate.waiting.len()
            } else {
                max_pending
            }
            &&& admitted == Admission::Runs <==> gate.running < gate.limit
        }),
        gate.running > 0 ==> after_release(gate).well_formed(),
        gate.running > 0 && gate.waiting.len() > 0 ==> after_release(gate).running
            == gate.running,
{
}

/// A gate after some tasks have ended.
pub open spec fn after_releases(gate: GateView, count: nat) -> GateView
    decreases count,
{
    if count == 0 {
        gate
    } else {
        after_release(after_releases(gate, (count - 1) as nat))
    }
}

/// Tasks that wait run in the order in which they came: when as many tasks have
/// ended as came to wait before a task, that one is next, and all places are still
/// taken.
pub proof fn law_waiting_tasks_run_in_order(gate: GateView, at: int)
    requires
        gate.well_formed(),
        0 <= at < gate.waiting.len(),
    ensures
        after_releases(gate, at as nat).well_formed(),
        after_releases(gate, at as nat).running == gate.limit,
        after_releases(gate, at as nat).waiting == gate.waiting.skip(at),
        after_releases(gate, at as nat).waiting[0] == gate.waiting[at],
    decreases at,
{
    if at > 0 {
        law_waiting_tasks_run_in_order(gate, at - 1);
        assert(gate.waiting.skip(at - 1).drop_first() =~= gate.waiting.skip(at));
    } else {
        assert(gate.waiting.skip(0) =~= gate.waiting);
    }
}

/// What happens at a gate: a request with its ticket, the end of a task, or that the
/// task at a place among those that wait gives up.
pub enum GateEvent {
    Request { ticket: u64 },
    Release,
    GiveUp { at: int },
}

/// A gate after an event. The end of a task means nothing where none runs, and giving
/// up means nothing at a place where none waits.
pub open spec fn after_event(
    gate: GateView,
    mode: QueueMode,
    max_pending: int,
    event: GateEvent,
) -> GateView {
    match event {
        GateEvent::Request { ticket } => after_request(
            gate,
            admission(gate, mode, max_pending),
            ticket,
        ),
        GateEvent::Release => if gate.running > 0 {
            after_release(gate)
        } else {
            gate
        },
        GateEvent::GiveUp { at } => if 0 <= at < gate.waiting.len() {
            GateView { waiting: gate.waiting.remove(at), ..gate }
        } else {
            gate
        },
    }
}

/// A gate after a run of events.
pub open spec fn after_events(
    gate: GateView,
    mode: QueueMode,
    max_pending: int,
    events: Seq<GateEvent>,
) -> GateView
    decreases events.len(),
{
    if events.len() == 0 {
        gate
    } else {
        after_event(
            after_events(gate, mode, max_pending, events.drop_last()),
            mode,
            max_pending,
            events.last(),
        )
    }
}

/// Over a whole run from a fresh gate on, no more tasks run than may and no more wait
/// than may. Where tasks are not queued, none ever waits.
pub proof fn law_gate_keeps_its_limits_throughout(
    limit: int,
    mode: QueueMode,
    max_pending: nat,
    events: Seq<GateEvent>,
)
    requires
        limit > 0,
    ensures
        ({
            let fresh = GateView { limit: limit, running: 0, waiting: seq![] };
            let after = after_events(fresh, mode, max_pending as int, events);
            &&& after.well_formed()
            &&& after.limit == limit
            &&& after.running <= limit
            &&& after.waiting.len() <= max_pending
            &&& mode == QueueMode::Reject ==> after.waiting.len() == 0
        }),
    decreases events.len(),
{
    if events.len() > 0 {
        law_gate_keeps_its_limits_throughout(limit, mode, max_pending, events.drop_last());
    }
}

/// At a gate where as many tasks run and wait as may, a request is turned away, and
/// those that wait stay as they are. When a task ends there, the one that waited
/// longest runs, and one more may wait.
pub proof fn law_full_gate(gate: GateView, max_pending: nat, ticket: u64)
    requires
        gate.well_formed(),
        gate.running == gate.limit,
        gate.waiting.len() == max_pending,
        max_pending > 0,
    ensures
        admission(gate, QueueMode::Queue, max_pending as int) == Admission::QueueFull,
        after_request(gate, Admission::QueueFull, ticket) == gate,
        after_release(gate).running == gate.limit,
        after_release(gate).waiting == gate.waiting.drop_first(),
        admission(after_release(gate), QueueMode::Queue, max_pending as int) == Admission::Waits,
{
}

/// A gate that an agent uses, by its number.
#[derive(Debug)]
pub struct GateEntry {
    pub agent_id: String,
    pub number: usize,
}

/// The gates of all agents. A gate keeps its number for as long as tasks run at it.
#[derive(Debug)]
pub struct AgentGates {
    pub entries: Vec<GateEntry>,
    pub gates: Vec<AgentGate>,
}

/// A place at a gate.
#[derive(Clone, Copy, Debug, PartialEq, Eq, Structural)]
pub struct Place {
    pub gate: usize,
    pub waits: bool,
}

pub open spec fn gate_views(gates: Seq<AgentGate>) -> Seq<GateView> {
    gates.map_values(|gate: AgentGate| gate@)
}

/// The number of an agent's gate.
pub open spec fn gate_number(entries: Seq<GateEntry>, agent_id: Seq<char>) -> Option<usize>
    decreases entries.len(),
{
    if entries.len() == 0 {
        None
    } else if entries[0].agent_id@ == agent_id {
        Some(entries[0].number)
    } else {
        gate_number(entries.drop_first(), agent_id)
    }
}

impl AgentGates {
    /// Every gate is well formed, every number is that of a gate, and no two agents
    /// share one.
    pub open spec fn well_formed(self) -> bool {
        &&& forall|i: int|
            0 <= i < self.gates@.len() ==> (#[trigger] self.gates@[i])@.well_formed()
        &&& forall|i: int|
            0 <= i < self.entries@.len() ==> (#[trigger] self.entries@[i]).number
                < self.gates@.len()
        &&& forall|i: int, j: int|
            0 <= i < j < self.entries@.len() ==> (#[trigger] self.entries@[i]).number != (
            #[trigger] self.entries@[j]).number
    }

    /// An agent's gate.
    pub open spec fn gate_of(self, agent_id: Seq<char>) -> Option<GateView> {
        match gate_number(self.entries@, agent_id) {
            Some(number) => Some(self.gates@[number as int]@),
            None => None,
        }
    }
}

impl Default for AgentGates {
    fn default() -> (gates: Self)
        ensures
            gates.well_formed(),
            gates.entries@.len() == 0,
            gates.gates@.len() == 0,
    {
        AgentGates { entries: Vec::new(), gates: Vec::new() }
    }
}

/// The number of tasks that an agent may run at once: at least one.
pub open spec fn task_limit(agent: AgentDefinition) -> int {
    if agent.runtime.runtime.max_concurrent_tasks == 0 {
        1
    } else {
        agent.runtime.runtime.max_concurrent_tasks as int
    }
}

/// What gate a request of an agent meets: the one that it uses, or a fresh one
/// where it has none or its limit has changed.
pub open spec fn gate_met(gates: AgentGates, agent: AgentDefinition) -> GateView {
    match gates.gate_of(agent.id@) {
        Some(gate) if gate.limit == task_limit(agent) => gate,
        _ => GateView { limit: task_limit(agent), running: 0, waiting: seq![] },
    }
}

/// Why a request is turned away.
pub open spec fn refusal(agent: AgentDefinition, admitted: Admission) -> Seq<char> {
    if admitted == Admission::QueueFull {
        "agent `"@ + agent.id@ + "` task queue is full; pending limit is "@ + decimal(
            agent.runtime.runtime.queue.max_pending_tasks as nat,
        )
    } else {
        "agent `"@ + agent.id@ + "` is at its concurrency limit"@
    }
}

proof fn lemma_gate_number(entries: Seq<GateEntry>, agent_id: Seq<char>)
    ensures
        match gate_number(entries, agent_id) {
            Some(number) => exists|i: int|
                0 <= i < entries.len() && (#[trigger] entries[i]).agent_id@ == agent_id
                    && entries[i].number == number,
            None => forall|i: int|
                0 <= i < entries.len() ==> (#[trigger] entries[i]).agent_id@ != agent_id,
        },
    decreases entries.len(),
{
    if entries.len() > 0 && entries[0].agent_id@ != agent_id {
        let rest = entries.drop_first();
        lemma_gate_number(rest, agent_id);
        match gate_number(rest, agent_id) {
            Some(number) => {
                let i = choose|i: int|
                    0 <= i < rest.len() && (#[trigger] rest[i]).agent_id@ == agent_id
                        && rest[i].number == number;
                assert(entries[i + 1] == rest[i]);
            },
            None => {
                assert forall|i: int| 0 <= i < entries.len() implies (#[trigger] entries[i]).agent_id@
                    != agent_id by {
                    if i > 0 {
                        assert(entries[i] == rest[i - 1]);
                    }
                }
            },
        }
    } else if entries.len() > 0 {
        assert(entries[0].agent_id@ == agent_id);
    }
}

proof fn lemma_gate_number_set(entries: Seq<GateEntry>, at: int, entry: GateEntry)
    requires
        0 <= at < entries.len(),
        entries[at].agent_id@ == entry.agent_id@,
        forall|i: int| 0 <= i < at ==> (#[trigger] entries[i]).agent_id@ != entry.agent_id@,
    ensures
        gate_number(entries.update(at, entry), entry.agent_id@) == Some(entry.number),
        forall|other: Seq<char>|
            other != entry.agent_id@ ==> #[trigger] gate_number(entries.update(at, entry), other)
                == gate_number(entries, other),
    decreases entries.len(),
{
    let after = entries.update(at, entry);
    let rest = entries.drop_first();
    if at == 0 {
        assert(after.drop_first() =~= rest);
    } else {
        assert(entries[0].agent_id@ != entry.agent_id@);
        assert forall|i: int| 0 <= i < at - 1 implies (#[trigger] rest[i]).agent_id@
            != entry.agent_id@ by {
            assert(rest[i] == entries[i + 1]);
        }
        assert(rest[at - 1] == entries[at]);
        lemma_gate_number_set(rest, at - 1, entry);
        assert(after.drop_first() =~= rest.update(at - 1, entry));
    }
    assert forall|other: Seq<char>| other != entry.agent_id@ implies #[trigger] gate_number(
        after,
        other,
    ) == gate_number(entries, other) by {
        if at > 0 {
            assert(gate_number(rest.update(at - 1, entry), other) == gate_number(rest, other));
        }
    }
}

proof fn lemma_gate_number_push(entries: Seq<GateEntry>, entry: GateEntry)
    requires
        forall|i: int|
            0 <= i < entries.len() ==> (#[trigger] entries[i]).agent_id@ != entry.agent_id@,
    ensures
        gate_number(entries.push(entry), entry.agent_id@) == Some(entry.number),
        forall|other: Seq<char>|
            other != entry.agent_id@ ==> #[trigger] gate_number(entries.push(entry), other)
                == gate_number(entries, other),
    decreases entries.len(),
{
    let after = entries.push(entry);
    let rest = entries.drop_first();
    if entries.len() == 0 {
        assert(after.drop_first() =~= entries);
    } else {
        assert(entries[0].agent_id@ != entry.agent_id@);
        assert forall|i: int| 0 <= i < rest.len() implies (#[trigger] rest[i]).agent_id@
            != entry.agent_id@ by {
            assert(rest[i] == entries[i + 1]);
        }
        lemma_gate_number_push(rest, entry);
        assert(after.drop_first() =~= rest.push(entry));
    }
    assert forall|other: Seq<char>| other != entry.agent_id@ implies #[trigger] gate_number(
        after,
        other,
    ) == gate_number(entries, other) by {
        if entries.len() > 0 {
            assert(gate_number(rest.push(entry), other) == gate_number(rest, other));
        } else {
            assert(gate_number(after.drop_first(), other) == gate_number(entries, other));
        }
    }
}

impl AgentGates {
    /// The number under which an agent's requests find their gate. An agent without a gate
    /// gets one, and so does an agent whose limit has changed; tasks that run at its
    /// old gate stay there.
    fn gate_for(&mut self, agent: &AgentDefinition) -> (number: usize)
        requires
            old(self).well_formed(),
        ensures
            final(self).well_formed(),
            number < final(self).gates@.len(),
            gate_number(final(self).entries@, agent.id@) == Some(number),
            final(self).gates@[number as int]@ == gate_met(*old(self), *agent),
            old(self).gates@.len() <= final(self).gates@.len(),
            forall|i: int|
                0 <= i < old(self).gates@.len() ==> final(self).gates@[i]
                    == #[trigger] old(self).gates@[i],
            forall|other: Seq<char>|
                other != agent.id@ ==> #[trigger] gate_number(final(self).entries@, other)
                    == gate_number(old(self).entries@, other),
    {
        let limit: usize = if agent.runtime.runtime.max_concurrent_tasks == 0 {
            1
        } else {
            agent.runtime.runtime.max_concurrent_tasks
        };
        let ghost before = self.entries@;
        let ghost gates = self.gates@;
        proof {
            lemma_gate_number(before, agent.id@);
        }
        let mut i: usize = 0;
        while i < self.entries.len() && !same_text(
            self.entries[i].agent_id.as_str(),
            agent.id.as_str(),
        )
            invariant
                i <= self.entries@.len(),
                self.entries@ == before,
                forall|j: int| 0 <= j < i ==> (#[trigger] before[j]).agent_id@ != agent.id@,
            decreases self.entries@.len() - i,
        {
            i += 1;
        }
        proof {
            if i < before.len() {
                lemma_gate_number_set(before, i as int, before[i as int]);
                assert(before.update(i as int, before[i as int]) =~= before);
            }
        }
        if i < self.entries.len() {
            let number: usize = self.entries[i].number;
            if self.gates[number].limit == limit {
                return number;
            }
            let fresh: usize = self.gates.len();
            let entry = GateEntry { agent_id: agent.id.clone(), number: fresh };
            proof {
                lemma_gate_number_set(before, i as int, entry);
            }
            self.gates.push(AgentGate::new(limit));
            self.entries.set(i, entry);
            fresh
        } else {
            let fresh: usize = self.gates.len();
            let entry = GateEntry { agent_id: agent.id.clone(), number: fresh };
            proof {
                lemma_gate_number_push(before, entry);
            }
            self.gates.push(AgentGate::new(limit));
            self.entries.push(entry);
            fresh
        }
    }

    /// Asks for a task of an agent to run.
    pub fn request(&mut self, agent: &AgentDefinition, ticket: u64) -> (place: Result<
        Place,
        String,
    >)
        requires
            old(self).well_formed(),
        ensures
            final(self).well_formed(),
            ({
                let gate = gate_met(*old(self), *agent);
                let queue = agent.runtime.runtime.queue;
                let admitted = admission(gate, queue.mode, queue.max_pending_tasks as int);
                &&& final(self).gate_of(agent.id@) == Some(after_request(gate, admitted, ticket))
                &&& match place {
                    Ok(place) => {
                        &&& admitted == if place.waits {
                            Admission::Waits
                        } else {
                            Admission::Runs
                        }
                        &&& gate_number(final(self).entries@, agent.id@) == Some(place.gate)
                    },
                    Err(error) => {
                        &&& admitted == Admission::AtLimit || admitted == Admission::QueueFull
                        &&& error@ == refusal(*agent, admitted)
                    },
                }
            }),
            forall|i: int|
                0 <= i < old(self).gates@.len() && Some(i as usize) != gate_number(
                    final(self).entries@,
                    agent.id@,
                ) ==> final(self).gates@[i] == #[trigger] old(self).gates@[i],
            forall|other: Seq<char>|
                other != agent.id@ ==> #[trigger] gate_number(final(self).entries@, other)
                    == gate_number(old(self).entries@, other),
            forall|other: Seq<char>|
                other != agent.id@ ==> #[trigger] final(self).gate_of(other) == old(self).gate_of(
                    other,
                ),
    {
        let number: usize = self.gate_for(agent);
        let ghost met = self.gates@;
        let max_pending: usize = agent.runtime.runtime.queue.max_pending_tasks;
        let mut gate = AgentGate::new(1);
        std::mem::swap(&mut gate, &mut self.gates[number]);
        let admitted = gate.request(agent.runtime.runtime.queue.mode, max_pending, ticket);
        self.gates.set(number, gate);
        proof {
            assert forall|i: int| 0 <= i < self.gates@.len() implies (
            #[trigger] self.gates@[i])@.well_formed() by {
                if i != number {
                    assert(self.gates@[i] == met[i]);
                }
            }
            assert forall|other: Seq<char>| other != agent.id@ implies #[trigger] self.gate_of(other)
                == old(self).gate_of(other) by {
                assert(gate_number(self.entries@, other) == gate_number(old(self).entries@, other));
                lemma_gate_number(old(self).entries@, other);
                lemma_gate_number(self.entries@, other);
                lemma_gate_number(self.entries@, agent.id@);
                if let Some(theirs) = gate_number(self.entries@, other) {
                    let i = choose|i: int|
                        0 <= i < self.entries@.len() && (#[trigger] self.entries@[i]).agent_id@
                            == other && self.entries@[i].number == theirs;
                    let j = choose|j: int|
                        0 <= j < self.entries@.len() && (#[trigger] self.entries@[j]).agent_id@
                            == agent.id@ && self.entries@[j].number == number;
                    assert(i != j);
                    assert(theirs != number);
                    assert(self.gates@[theirs as int] == met[theirs as int]);
                }
            }
        }
        match admitted {
            Admission::Runs => Ok(Place { gate: number, waits: false }),
            Admission::Waits => Ok(Place { gate: number, waits: true }),
            Admission::AtLimit => {
                let opened = plus("agent `".to_string(), agent.id.as_str());
                Err(plus(opened, "` is at its concurrency limit"))
            },
            Admission::QueueFull => {
                let opened = plus("agent `".to_string(), agent.id.as_str());
                let limit = decimal_text(max_pending as u128);
                Err(plus(plus(opened, "` task queue is full; pending limit is "), limit.as_str()))
            },
        }
    }

    /// Ends a task that runs at a gate. Gives the ticket of the task that runs in its
    /// place.
    pub fn release(&mut self, number: usize) -> (next: Option<u64>)
        requires
            old(self).well_formed(),
            number < old(self).gates@.len(),
            old(self).gates@[number as int]@.running > 0,
        ensures
            final(self).well_formed(),
            final(self).entries@ == old(self).entries@,
            gate_views(final(self).gates@) == gate_views(old(self).gates@).update(
                number as int,
                after_release(old(self).gates@[number as int]@),
            ),
            next == if old(self).gates@[number as int]@.waiting.len() > 0 {
                Some(old(self).gates@[number as int]@.waiting[0])
            } else {
                None
            },
    {
        let ghost before = self.gates@;
        let mut gate = AgentGate::new(1);
        std::mem::swap(&mut gate, &mut self.gates[number]);
        let next = gate.release();
        self.gates.set(number, gate);
        proof {
            assert forall|i: int| 0 <= i < self.gates@.len() implies (
            #[trigger] self.gates@[i])@.well_formed() by {
                if i != number {
                    assert(self.gates@[i] == before[i]);
                }
            }
            assert(gate_views(self.gates@) =~= gate_views(before).update(
                number as int,
                after_release(before[number as int]@),
            ));
        }
        next
    }

    /// Gives up waiting at a gate. Gives whether the ticket was waiting there.
    pub fn forget(&mut self, number: usize, ticket: u64) -> (waited: bool)
        requires
            old(self).well_formed(),
            number < old(self).gates@.len(),
        ensures
            final(self).well_formed(),
            final(self).entries@ == old(self).entries@,
            waited == old(self).gates@[number as int]@.waiting.contains(ticket),
            !waited ==> gate_views(final(self).gates@) == gate_views(old(self).gates@),
            waited ==> exists|at: int|
                0 <= at < old(self).gates@[number as int]@.waiting.len() && old(
                    self,
                ).gates@[number as int]@.waiting[at] == ticket && gate_views(final(self).gates@)
                    == gate_views(old(self).gates@).update(
                    number as int,
                    GateView {
                        waiting: #[trigger] old(self).gates@[number as int]@.waiting.remove(at),
                        ..old(self).gates@[number as int]@
                    },
                ),
    {
        let ghost before = self.gates@;
        let mut gate = AgentGate::new(1);
        std::mem::swap(&mut gate, &mut self.gates[number]);
        let waited = gate.forget(ticket);
        self.gates.set(number, gate);
        proof {
            assert forall|i: int| 0 <= i < self.gates@.len() implies (
            #[trigger] self.gates@[i])@.well_formed() by {
                if i != number {
                    assert(self.gates@[i] == before[i]);
                }
            }
            assert(gate_views(self.gates@) =~= gate_views(before).update(number as int, gate@));
            assert(gate_views(before).update(number as int, before[number as int]@) =~= gate_views(
                before,
            ));
        }
        waited
    }
}

/// What becomes of a request: it runs where one more task may run. Where none may, it
/// waits if tasks are queued and fewer wait than may; it is told that the queue is full
/// if tasks are queued and as many wait as may; and that the agent is at its limit where
/// tasks are not queued or none may wait.
pub proof fn law_what_becomes_of_a_request(gate: GateView, mode: QueueMode, max_pending: nat)
    requires
        gate.well_formed(),
        gate.waiting.len() <= max_pending,
    ensures
        ({
            let admitted = admission(gate, mode, max_pending as int);
            let full = gate.running == gate.limit;
            let queued = mode == QueueMode::Queue && max_pending > 0;
            &&& admitted == Admission::Runs <==> !full
            &&& admitted == Admission::Waits <==> full && queued && gate.waiting.len()
                < max_pending
            &&& admitted == Admission::QueueFull <==> full && queued && gate.waiting.len()
                == max_pending
            &&& admitted == Admission::AtLimit <==> full && !queued
        }),
{
}

/// A request that runs is one task more that runs, and one that waits stands behind
/// those that wait. One that is turned away changes nothing, and nothing changes the
/// limit.
pub proof fn law_request_changes_its_own_place(gate: GateView, admitted: Admission, ticket: u64)
    ensures
        after_request(gate, admitted, ticket).limit == gate.limit,
        admitted == Admission::Runs ==> after_request(gate, admitted, ticket).running
            == gate.running + 1 && after_request(gate, admitted, ticket).waiting == gate.waiting,
        admitted == Admission::Waits ==> after_request(gate, admitted, ticket).running
            == gate.running && after_request(gate, admitted, ticket).waiting.len()
            == gate.waiting.len() + 1 && after_request(gate, admitted, ticket).waiting.last()
            == ticket && after_request(gate, admitted, ticket).waiting.drop_last()
            == gate.waiting,
        admitted == Admission::AtLimit || admitted == Admission::QueueFull ==> after_request(
            gate,
            admitted,
            ticket,
        ) == gate,
{
    assert(gate.waiting.push(ticket).drop_last() =~= gate.waiting);
}

/// When a task ends, as many run as before if one waits, and one less if none does;
/// those that wait behind the first stay in order. Nothing changes the limit.
pub proof fn law_end_of_a_task(gate: GateView)
    requires
        gate.well_formed(),
        gate.running > 0,
    ensures
        after_release(gate).limit == gate.limit,
        gate.waiting.len() == 0 ==> after_release(gate).running == gate.running - 1
            && after_release(gate).waiting.len() == 0,
        gate.waiting.len() > 0 ==> after_release(gate).running == gate.running && seq![
            gate.waiting[0],
        ] + after_release(gate).waiting == gate.waiting,
{
    if gate.waiting.len() > 0 {
        assert(seq![gate.waiting[0]] + gate.waiting.drop_first() =~= gate.waiting);
    }
}

/// An agent may run as many tasks at once as it is configured to, and one where it is
/// configured to run none.
pub proof fn law_task_limit(agent: AgentDefinition)
    ensures
        agent.runtime.runtime.max_concurrent_tasks >= 1 ==> task_limit(agent)
            == agent.runtime.runtime.max_concurrent_tasks,
        task_limit(agent) >= 1,
        agent.runtime.runtime.max_concurrent_tasks == 0 ==> task_limit(agent) == 1,
{
}

/// A request meets the tasks that run and wait for its agent, as long as the limit
/// stays the same; else it meets none.
pub proof fn law_request_meets_its_gate(gates: AgentGates, agent: AgentDefinition)
    ensures
        ({
            let met = gate_met(gates, agent);
            let used = gates.gate_of(agent.id@);
            &&& met.limit == task_limit(agent)
            &&& used is Some && used->0.limit == met.limit ==> met == used->0
            &&& used is None || used->0.limit != met.limit ==> met.running == 0
                && met.waiting.len() == 0
        }),
{
}

/// A refusal names the agent, and says either how many tasks may wait or that the agent
/// is at its limit.
pub proof fn law_refusals(agent: AgentDefinition)
    ensures
        refusal(agent, Admission::QueueFull) == "agent `"@ + agent.id@
            + "` task queue is full; pending limit is "@ + decimal(
            agent.runtime.runtime.queue.max_pending_tasks as nat,
        ),
        refusal(agent, Admission::AtLimit) == "agent `"@ + agent.id@
            + "` is at its concurrency limit"@,
{
}

} // verus!
