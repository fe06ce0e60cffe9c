//! Agents and tasks of other nodes of the mesh, and what this node says of its
//! own agents.

use vstd::prelude::*;

#[allow(unused_imports)]
use crate::card::card_in;
use crate::config::RuntimeKind;
use crate::json::{
    integer_value, no_members, object, optional_text_value, text_value, with,
};
#[allow(unused_imports)]
use crate::json::{
    json_of, jsons, member_of, optional_chars, text_member_of, text_member_or_empty, text_or_null,
    JsonView,
};
#[allow(unused_imports)]
use crate::names::lemma_member_names;
use crate::order::{sort_by_rank, text_precedes, Ranked};
#[allow(unused_imports)]
use crate::order::{
    is_ranked, law_sorting, lemma_precedes_irreflexive, of_rank, ranked, ranks_before,
};
use crate::paths::join;
#[allow(unused_imports)]
use crate::paths::joined;
use crate::registry::AgentDefinition;
use crate::text::{chars_of, plus, same_text};

verus! {

/// The channel on which nodes speak of their agents.
pub const CHANNEL: &'static str = "agents.discovery.v1";

pub const KIND_ADVERTISE: &'static str = "advertise";

pub const KIND_SEND_MESSAGE_REQUEST: &'static str = "send_message_request";

pub const KIND_SEND_MESSAGE_RESPONSE: &'static str = "send_message_response";

/// What a node says of one of its agents.
#[derive(Clone, Debug)]
pub struct RemoteAgentAd {
    pub agent_id: String,
    pub peer_id: String,
    pub name: String,
    pub description: Option<String>,
    pub version: String,
    /// The agent's card, as a document.
    pub card: serde_json::Value,
    pub updated_at_ms: u64,
}

#[derive(Clone, Debug)]
pub struct RemoteSendMessageRequest {
    pub agent_id: String,
    pub message: String,
    pub context_id: Option<String>,
}

#[derive(Clone, Debug)]
pub struct RemoteSendMessageResponse {
    pub agent_id: String,
    pub task_id: String,
    pub result: serde_json::Value,
    pub error: Option<String>,
}

/// A message on the agents channel.
#[derive(Clone, Debug)]
pub enum MeshProtocolMessage {
    Advertise { agents: Vec<RemoteAgentAd> },
    SendMessageRequest(RemoteSendMessageRequest),
    SendMessageResponse(RemoteSendMessageResponse),
}

/// What is known of a task that another node runs.
#[derive(Clone, Debug)]
pub struct RemoteTaskRecord {
    pub agent_id: String,
    pub task_id: String,
    pub peer_id: String,
    pub correlation_id: String,
    pub result: serde_json::Value,
    pub updated_at_ms: u64,
}

impl Ranked for RemoteAgentAd {
    open spec fn rank(self) -> Seq<Seq<char>> {
        seq![self.agent_id@, self.peer_id@]
    }

    fn goes_before(&self, other: &Self) -> (yes: bool) {
        proof {
            lemma_precedes_irreflexive(self.agent_id@);
            lemma_precedes_irreflexive(self.peer_id@);
            reveal_with_fuel(ranks_before, 3);
            assert(self.rank().drop_first() =~= seq![self.peer_id@]);
            assert(other.rank().drop_first() =~= seq![other.peer_id@]);
        }
        if same_text(self.agent_id.as_str(), other.agent_id.as_str()) {
            text_precedes(self.peer_id.as_str(), other.peer_id.as_str())
        } else {
            text_precedes(self.agent_id.as_str(), other.agent_id.as_str())
        }
    }
}

/// The first advertisement for the same agent of the same peer, from `from` on.
pub open spec fn ad_position(ads: Seq<RemoteAgentAd>, rank: Seq<Seq<char>>, from: int) -> Option<
    int,
>
    decreases ads.len() - from,
{
    if from < 0 || from >= ads.len() {
        None
    } else if ads[from].rank() == rank {
        Some(from)
    } else {
        ad_position(ads, rank, from + 1)
    }
}

/// The advertisements with one more, in place of the one it renews.
pub open spec fn ads_with(ads: Seq<RemoteAgentAd>, ad: RemoteAgentAd) -> Seq<RemoteAgentAd> {
    match ad_position(ads, ad.rank(), 0) {
        Some(at) => ads.update(at, ad),
        None => ads.push(ad),
    }
}

/// The advertisements with some more, one after the other.
pub open spec fn ads_with_all(ads: Seq<RemoteAgentAd>, more: Seq<RemoteAgentAd>) -> Seq<
    RemoteAgentAd,
>
    decreases more.len(),
{
    if more.len() == 0 {
        ads
    } else {
        ads_with(ads_with_all(ads, more.drop_last()), more.last())
    }
}

/// The first advertisement for an agent.
pub open spec fn ad_named(ads: Seq<RemoteAgentAd>, agent_id: Seq<char>) -> Option<RemoteAgentAd>
    decreases ads.len(),
{
    if ads.len() == 0 {
        None
    } else if ads[0].agent_id@ == agent_id {
        Some(ads[0])
    } else {
        ad_named(ads.drop_first(), agent_id)
    }
}

/// The agents that other nodes advertised.
#[derive(Clone, Debug)]
pub struct RemoteAgentCache {
    pub agents: Vec<RemoteAgentAd>,
}

impl Default for RemoteAgentCache {
    fn default() -> (cache: Self)
        ensures
            cache.agents@ == Seq::<RemoteAgentAd>::empty(),
    {
        RemoteAgentCache { agents: Vec::new() }
    }
}

impl RemoteAgentCache {
    /// Takes in an advertisement, in place of the one it renews.
    fn upsert(&mut self, agent: RemoteAgentAd)
        ensures
            final(self).agents@ == ads_with(old(self).agents@, agent),
    {
        let ghost before = self.agents@;
        let ghost rank = agent.rank();
        let mut i: usize = 0;
        while i < self.agents.len()
            invariant
                i <= self.agents@.len(),
                self.agents@ == before,
                before == old(self).agents@,
                rank == seq![agent.agent_id@, agent.peer_id@],
                ad_position(before, rank, i as int) == ad_position(before, rank, 0),
            decreases self.agents@.len() - i,
        {
            let same = same_text(
                self.agents[i].agent_id.as_str(),
                agent.agent_id.as_str(),
            ) && same_text(self.agents[i].peer_id.as_str(), agent.peer_id.as_str());
            proof {
                let there = before[i as int].rank();
                if same {
                    assert(there =~= rank);
                } else {
                    assert(there[0] != rank[0] || there[1] != rank[1]);
                }
            }
            if same {
                self.agents.set(i, agent);
                return;
            }
            i += 1;
        }
        self.agents.push(agent);
    }

    /// Takes in advertisements, each in place of the one it renews, and brings all
    /// into the order of agent and peer.
    pub fn upsert_many(&mut self, agents: Vec<RemoteAgentAd>)
        ensures
            final(self).agents@ == ranked(ads_with_all(old(self).agents@, agents@)),
            is_ranked(final(self).agents@),
    {
        let ghost before = self.agents@;
        let ghost all = agents@;
        let mut rest = agents;
        let ghost mut done: int = 0;
        assert(all.skip(0) =~= all);
        assert(all.take(0) =~= Seq::<RemoteAgentAd>::empty());
        while rest.len() > 0
            invariant
                0 <= done <= all.len(),
                rest@ == all.skip(done),
                self.agents@ == ads_with_all(before, all.take(done)),
            decreases rest@.len(),
        {
            let agent = rest.remove(0);
            proof {
                assert(all.take(done + 1).drop_last() =~= all.take(done));
                assert(all.take(done + 1).last() == agent);
                assert(all.skip(done).remove(0) =~= all.skip(done + 1));
            }
            self.upsert(agent);
            proof {
                done = done + 1;
            }
        }
        assert(all.take(done) =~= all);
        let mut ads: Vec<RemoteAgentAd> = Vec::new();
        std::mem::swap(&mut ads, &mut self.agents);
        proof {
            law_sorting(ads@);
        }
        self.agents = sort_by_rank(ads);
    }

    /// The first advertisement for an agent.
    pub fn get(&self, agent_id: &str) -> (ad: Option<&RemoteAgentAd>)
        ensures
            match ad {
                Some(ad) => ad_named(self.agents@, agent_id@) == Some(*ad),
                None => ad_named(self.agents@, agent_id@) is None,
            },
    {
        let ghost all = self.agents@;
        let mut i: usize = 0;
        assert(all.skip(0) =~= all);
        while i < self.agents.len()
            invariant
                i <= self.agents@.len(),
                all == self.agents@,
                ad_named(all.skip(i as int), agent_id@) == ad_named(all, agent_id@),
            decreases self.agents@.len() - i,
        {
            assert(all.skip(i as int)[0] == all[i as int]);
            if same_text(self.agents[i].agent_id.as_str(), agent_id) {
                return Some(&self.agents[i]);
            }
            assert(all.skip(i as int).drop_first() =~= all.skip(i as int + 1));
            i += 1;
        }
        None
    }
}

/// No agent of a peer is advertised twice.
pub open spec fn each_once(ads: Seq<RemoteAgentAd>) -> bool {
    forall|rank: Seq<Seq<char>>| (#[trigger] of_rank(ads, rank)).len() <= 1
}

proof fn lemma_of_rank_push(ads: Seq<RemoteAgentAd>, ad: RemoteAgentAd, rank: Seq<Seq<char>>)
    ensures
        of_rank(ads.push(ad), rank) == if ad.rank() == rank {
            of_rank(ads, rank).push(ad)
        } else {
            of_rank(ads, rank)
        },
{
    reveal(Seq::filter);
    assert(ads.push(ad).drop_last() =~= ads);
}

proof fn lemma_of_rank_none(ads: Seq<RemoteAgentAd>, rank: Seq<Seq<char>>)
    requires
        forall|i: int| 0 <= i < ads.len() ==> (#[trigger] ads[i]).rank() != rank,
    ensures
        of_rank(ads, rank) == Seq::<RemoteAgentAd>::empty(),
    decreases ads.len(),
{
    reveal(Seq::filter);
    if ads.len() > 0 {
        let head = ads.drop_last();
        assert forall|i: int| 0 <= i < head.len() implies (#[trigger] head[i]).rank() != rank by {
            assert(head[i] == ads[i]);
        }
        lemma_of_rank_none(head, rank);
        lemma_of_rank_push(head, ads.last(), rank);
        assert(head.push(ads.last()) =~= ads);
        assert(ads[ads.len() - 1].rank() != rank);
    }
}

proof fn lemma_of_rank_update(
    ads: Seq<RemoteAgentAd>,
    at: int,
    ad: RemoteAgentAd,
    rank: Seq<Seq<char>>,
)
    requires
        0 <= at < ads.len(),
        ads[at].rank() == ad.rank(),
    ensures
        rank != ad.rank() ==> of_rank(ads.update(at, ad), rank) == of_rank(ads, rank),
        of_rank(ads.update(at, ad), ad.rank()).len() == of_rank(ads, ad.rank()).len(),
        of_rank(ads.update(at, ad), ad.rank()).contains(ad),
    decreases ads.len(),
{
    let head = ads.drop_last();
    let last = ads.last();
    let key = ad.rank();
    let after = ads.update(at, ad);
    assert(head.push(last) =~= ads);
    lemma_of_rank_push(head, last, rank);
    lemma_of_rank_push(head, last, key);
    if at == ads.len() - 1 {
        assert(after =~= head.push(ad));
        lemma_of_rank_push(head, ad, rank);
        lemma_of_rank_push(head, ad, key);
        let kept = of_rank(head, key);
        assert(kept.push(ad)[kept.len() as int] == ad);
    } else {
        assert(head[at] == ads[at]);
        lemma_of_rank_update(head, at, ad, rank);
        let changed = head.update(at, ad);
        assert(after =~= changed.push(last));
        lemma_of_rank_push(changed, last, rank);
        lemma_of_rank_push(changed, last, key);
        let kept = of_rank(changed, key);
        let i = choose|i: int| 0 <= i < kept.len() && kept[i] == ad;
        if last.rank() == key {
            assert(kept.push(last)[i] == ad);
        }
    }
}

proof fn lemma_ad_position(ads: Seq<RemoteAgentAd>, rank: Seq<Seq<char>>, from: int)
    requires
        0 <= from <= ads.len(),
    ensures
        match ad_position(ads, rank, from) {
            Some(at) => from <= at < ads.len() && ads[at].rank() == rank,
            None => forall|i: int| from <= i < ads.len() ==> (#[trigger] ads[i]).rank() != rank,
        },
    decreases ads.len() - from,
{
    if from < ads.len() && ads[from].rank() != rank {
        lemma_ad_position(ads, rank, from + 1);
    }
}

/// Taking in an advertisement leaves exactly that one for its agent and peer, and
/// changes nothing that is known of any other agent or peer.
pub proof fn law_ad_is_taken_in(ads: Seq<RemoteAgentAd>, ad: RemoteAgentAd)
    requires
        each_once(ads),
    ensures
        of_rank(ads_with(ads, ad), ad.rank()) == seq![ad],
        forall|rank: Seq<Seq<char>>|
            rank != ad.rank() ==> #[trigger] of_rank(ads_with(ads, ad), rank) == of_rank(
                ads,
                rank,
            ),
        each_once(ads_with(ads, ad)),
{
    let key = ad.rank();
    let after = ads_with(ads, ad);
    lemma_ad_position(ads, key, 0);
    match ad_position(ads, key, 0) {
        Some(at) => {
            lemma_of_rank_update(ads, at, ad, key);
            assert(of_rank(ads, key).len() <= 1);
            let found = of_rank(after, key);
            let i = choose|i: int| 0 <= i < found.len() && found[i] == ad;
            assert(found =~= seq![ad]);
            assert forall|rank: Seq<Seq<char>>| rank != key implies #[trigger] of_rank(after, rank)
                == of_rank(ads, rank) by {
                lemma_of_rank_update(ads, at, ad, rank);
            }
        },
        None => {
            lemma_of_rank_none(ads, key);
            lemma_of_rank_push(ads, ad, key);
            assert(of_rank(after, key) =~= seq![ad]);
            assert forall|rank: Seq<Seq<char>>| rank != key implies #[trigger] of_rank(after, rank)
                == of_rank(ads, rank) by {
                lemma_of_rank_push(ads, ad, rank);
            }
        },
    }
    assert forall|rank: Seq<Seq<char>>| (#[trigger] of_rank(after, rank)).len() <= 1 by {
        if rank != key {
            assert(of_rank(ads, rank).len() <= 1);
        }
    }
}

/// No advertisement behind the one at `at` is for the same agent of the same peer.
pub open spec fn is_latest(more: Seq<RemoteAgentAd>, at: int) -> bool {
    forall|j: int| at < j < more.len() ==> (#[trigger] more[j]).rank() != more[at].rank()
}

/// A cache that advertises no agent of a peer twice still does not after taking in
/// more, and holds its advertisements in order. For each agent and peer it has the
/// latest of those taken in, and what it had before where none was taken in.
pub proof fn law_cache_stays_in_order(ads: Seq<RemoteAgentAd>, more: Seq<RemoteAgentAd>)
    requires
        each_once(ads),
    ensures
        is_ranked(ranked(ads_with_all(ads, more))),
        each_once(ranked(ads_with_all(ads, more))),
        forall|i: int|
            0 <= i < more.len() && is_latest(more, i) ==> of_rank(
                ranked(ads_with_all(ads, more)),
                (#[trigger] more[i]).rank(),
            ) == seq![more[i]],
        forall|rank: Seq<Seq<char>>|
            (forall|i: int| 0 <= i < more.len() ==> (#[trigger] more[i]).rank() != rank)
                ==> #[trigger] of_rank(ranked(ads_with_all(ads, more)), rank) == of_rank(ads, rank),
{
    lemma_all_once(ads, more);
    let all = ads_with_all(ads, more);
    law_sorting(all);
    assert forall|rank: Seq<Seq<char>>| (#[trigger] of_rank(ranked(all), rank)).len() <= 1 by {
        assert(of_rank(ranked(all), rank) == of_rank(all, rank));
        assert(of_rank(all, rank).len() <= 1);
    }
    assert forall|i: int| 0 <= i < more.len() && is_latest(more, i) implies of_rank(
        ranked(all),
        (#[trigger] more[i]).rank(),
    ) == seq![more[i]] by {
        lemma_latest_is_kept(ads, more, i);
        assert(of_rank(ranked(all), more[i].rank()) == of_rank(all, more[i].rank()));
    }
    assert forall|rank: Seq<Seq<char>>|
        (forall|i: int| 0 <= i < more.len() ==> (#[trigger] more[i]).rank()
            != rank) implies #[trigger] of_rank(ranked(all), rank) == of_rank(ads, rank) by {
        lemma_others_are_kept(ads, more, rank);
        assert(of_rank(ranked(all), rank) == of_rank(all, rank));
    }
}

proof fn lemma_others_are_kept(
    ads: Seq<RemoteAgentAd>,
    more: Seq<RemoteAgentAd>,
    rank: Seq<Seq<char>>,
)
    requires
        each_once(ads),
        forall|i: int| 0 <= i < more.len() ==> (#[trigger] more[i]).rank() != rank,
    ensures
        of_rank(ads_with_all(ads, more), rank) == of_rank(ads, rank),
    decreases more.len(),
{
    if more.len() > 0 {
        let head = more.drop_last();
        assert forall|i: int| 0 <= i < head.len() implies (#[trigger] head[i]).rank() != rank by {
            assert(head[i] == more[i]);
        }
        lemma_others_are_kept(ads, head, rank);
        lemma_all_once(ads, head);
        law_ad_is_taken_in(ads_with_all(ads, head), more.last());
        assert(more[more.len() - 1].rank() != rank);
    }
}

proof fn lemma_latest_is_kept(ads: Seq<RemoteAgentAd>, more: Seq<RemoteAgentAd>, at: int)
    requires
        each_once(ads),
        0 <= at < more.len(),
        is_latest(more, at),
    ensures
        of_rank(ads_with_all(ads, more), more[at].rank()) == seq![more[at]],
    decreases more.len(),
{
    let head = more.drop_last();
    lemma_all_once(ads, head);
    law_ad_is_taken_in(ads_with_all(ads, head), more.last());
    if at < more.len() - 1 {
        assert(head[at] == more[at]);
        assert forall|j: int| at < j < head.len() implies (#[trigger] head[j]).rank()
            != head[at].rank() by {
            assert(head[j] == more[j]);
        }
        lemma_latest_is_kept(ads, head, at);
        assert(more[more.len() - 1].rank() != more[at].rank());
    }
}

proof fn lemma_all_once(ads: Seq<RemoteAgentAd>, more: Seq<RemoteAgentAd>)
    requires
        each_once(ads),
    ensures
        each_once(ads_with_all(ads, more)),
    decreases more.len(),
{
    if more.len() > 0 {
        lemma_all_once(ads, more.drop_last());
        law_ad_is_taken_in(ads_with_all(ads, more.drop_last()), more.last());
    }
}

/// Two texts that are the same and not empty.
pub open spec fn same_and_nonempty(left: Seq<char>, right: Seq<char>) -> bool {
    left.len() > 0 && left == right
}

fn same_nonempty(left: &str, right: &str) -> (yes: bool)
    ensures
        yes == same_and_nonempty(left@, right@),
{
    chars_of(left).len() > 0 && same_text(left, right)
}

/// A record of the same task: of the same agent, and of the same task id or the
/// same correlation id.
pub open spec fn same_task(record: RemoteTaskRecord, other: RemoteTaskRecord) -> bool {
    &&& record.agent_id@ == other.agent_id@
    &&& record.task_id@ == other.task_id@ || same_and_nonempty(
        record.correlation_id@,
        other.correlation_id@,
    )
}

/// A record that an agent's task id or correlation id leads to.
pub open spec fn answers(record: RemoteTaskRecord, agent_id: Seq<char>, task_id: Seq<char>) -> bool {
    &&& record.agent_id@ == agent_id
    &&& record.task_id@ == task_id || same_and_nonempty(record.correlation_id@, task_id)
}

/// The first record of the same task, from `from` on.
pub open spec fn task_position(
    tasks: Seq<RemoteTaskRecord>,
    record: RemoteTaskRecord,
    from: int,
) -> Option<int>
    decreases tasks.len() - from,
{
    if from < 0 || from >= tasks.len() {
        None
    } else if same_task(tasks[from], record) {
        Some(from)
    } else {
        task_position(tasks, record, from + 1)
    }
}

/// The records with one more, in place of the one of the same task.
pub open spec fn tasks_with(tasks: Seq<RemoteTaskRecord>, record: RemoteTaskRecord) -> Seq<
    RemoteTaskRecord,
> {
    match task_position(tasks, record, 0) {
        Some(at) => tasks.update(at, record),
        None => tasks.push(record),
    }
}

/// The first record that an id leads to.
pub open spec fn task_found(
    tasks: Seq<RemoteTaskRecord>,
    agent_id: Seq<char>,
    task_id: Seq<char>,
) -> Option<RemoteTaskRecord>
    decreases tasks.len(),
{
    if tasks.len() == 0 {
        None
    } else if answers(tasks[0], agent_id, task_id) {
        Some(tasks[0])
    } else {
        task_found(tasks.drop_first(), agent_id, task_id)
    }
}

/// The tasks that other nodes run for this one.
#[derive(Clone, Debug)]
pub struct RemoteTaskCache {
    pub tasks: Vec<RemoteTaskRecord>,
}

impl Default for RemoteTaskCache {
    fn default() -> (cache: Self)
        ensures
            cache.tasks@ == Seq::<RemoteTaskRecord>::empty(),
    {
        RemoteTaskCache { tasks: Vec::new() }
    }
}

/// The record of a task that was sent off and not answered yet: its correlation id
/// stands for the task's id.
pub open spec fn is_pending_record(
    record: RemoteTaskRecord,
    agent_id: Seq<char>,
    peer_id: Seq<char>,
    correlation_id: Seq<char>,
    result: JsonView,
    now_ms: u64,
) -> bool {
    &&& record.agent_id@ == agent_id
    &&& record.task_id@ == correlation_id
    &&& record.peer_id@ == peer_id
    &&& record.correlation_id@ == correlation_id
    &&& json_of(record.result) == result
    &&& record.updated_at_ms == now_ms
}

impl RemoteTaskCache {
    /// Takes in a record, in place of the one of the same task.
    pub fn upsert(&mut self, task: RemoteTaskRecord)
        ensures
            final(self).tasks@ == tasks_with(old(self).tasks@, task),
    {
        let ghost before = self.tasks@;
        let mut i: usize = 0;
        while i < self.tasks.len()
            invariant
                i <= self.tasks@.len(),
                self.tasks@ == before,
                before == old(self).tasks@,
                task_position(before, task, i as int) == task_position(before, task, 0),
            decreases self.tasks@.len() - i,
        {
            let same = same_text(self.tasks[i].agent_id.as_str(), task.agent_id.as_str()) && (
            same_text(self.tasks[i].task_id.as_str(), task.task_id.as_str()) || same_nonempty(
                self.tasks[i].correlation_id.as_str(),
                task.correlation_id.as_str(),
            ));
            if same {
                self.tasks.set(i, task);
                return;
            }
            i += 1;
        }
        self.tasks.push(task);
    }

    /// Takes in a task that was sent off and not answered yet.
    pub fn upsert_pending(
        &mut self,
        agent_id: String,
        peer_id: String,
        correlation_id: String,
        result: serde_json::Value,
        now_ms: u64,
    )
        ensures
            exists|record: RemoteTaskRecord|
                is_pending_record(
                    record,
                    agent_id@,
                    peer_id@,
                    correlation_id@,
                    json_of(result),
                    now_ms,
                ) && final(self).tasks@ == #[trigger] tasks_with(old(self).tasks@, record),
    {
        let record = RemoteTaskRecord {
            agent_id: agent_id,
            task_id: correlation_id.clone(),
            peer_id: peer_id,
            correlation_id: correlation_id,
            result: result,
            updated_at_ms: now_ms,
        };
        self.upsert(record);
    }

    /// The first record that a task id or a correlation id leads to.
    pub fn get(&self, agent_id: &str, task_id: &str) -> (record: Option<&RemoteTaskRecord>)
        ensures
            match record {
                Some(record) => task_found(self.tasks@, agent_id@, task_id@) == Some(*record),
                None => task_found(self.tasks@, agent_id@, task_id@) is None,
            },
    {
        let ghost all = self.tasks@;
        let mut i: usize = 0;
        assert(all.skip(0) =~= all);
        while i < self.tasks.len()
            invariant
                i <= self.tasks@.len(),
                all == self.tasks@,
                task_found(all.skip(i as int), agent_id@, task_id@) == task_found(
                    all,
                    agent_id@,
                    task_id@,
                ),
            decreases self.tasks@.len() - i,
        {
            assert(all.skip(i as int)[0] == all[i as int]);
            let found = same_text(self.tasks[i].agent_id.as_str(), agent_id) && (same_text(
                self.tasks[i].task_id.as_str(),
                task_id,
            ) || same_nonempty(self.tasks[i].correlation_id.as_str(), task_id));
            if found {
                return Some(&self.tasks[i]);
            }
            assert(all.skip(i as int).drop_first() =~= all.skip(i as int + 1));
            i += 1;
        }
        None
    }
}

proof fn lemma_task_position(tasks: Seq<RemoteTaskRecord>, record: RemoteTaskRecord, from: int)
    requires
        0 <= from <= tasks.len(),
    ensures
        match task_position(tasks, record, from) {
            Some(at) => {
                &&& from <= at < tasks.len()
                &&& same_task(tasks[at], record)
                &&& forall|i: int| from <= i < at ==> !same_task(#[trigger] tasks[i], record)
            },
            None => forall|i: int|
                from <= i < tasks.len() ==> !same_task(#[trigger] tasks[i], record),
        },
    decreases tasks.len() - from,
{
    if from < tasks.len() && !same_task(tasks[from], record) {
        lemma_task_position(tasks, record, from + 1);
    }
}

proof fn lemma_task_found_at(
    tasks: Seq<RemoteTaskRecord>,
    agent_id: Seq<char>,
    task_id: Seq<char>,
    at: int,
)
    requires
        0 <= at < tasks.len(),
        answers(tasks[at], agent_id, task_id),
        forall|i: int| 0 <= i < at ==> !answers(#[trigger] tasks[i], agent_id, task_id),
    ensures
        task_found(tasks, agent_id, task_id) == Some(tasks[at]),
    decreases tasks.len(),
{
    if at > 0 {
        assert(!answers(tasks[0], agent_id, task_id));
        let rest = tasks.drop_first();
        assert forall|i: int| 0 <= i < at - 1 implies !answers(
            #[trigger] rest[i],
            agent_id,
            task_id,
        ) by {
            assert(rest[i] == tasks[i + 1]);
        }
        lemma_task_found_at(rest, agent_id, task_id, at - 1);
    }
}

/// A record that was taken in is found by an id that leads to it, where that id
/// leads to no record of another task.
pub proof fn law_taken_in_task_is_found(
    tasks: Seq<RemoteTaskRecord>,
    record: RemoteTaskRecord,
    id: Seq<char>,
)
    requires
        answers(record, record.agent_id@, id),
        forall|i: int|
            0 <= i < tasks.len() && answers(#[trigger] tasks[i], record.agent_id@, id)
                ==> same_task(tasks[i], record),
    ensures
        task_found(tasks_with(tasks, record), record.agent_id@, id) == Some(record),
{
    lemma_task_position(tasks, record, 0);
    let after = tasks_with(tasks, record);
    match task_position(tasks, record, 0) {
        Some(at) => {
            assert forall|i: int| 0 <= i < at implies !answers(
                #[trigger] after[i],
                record.agent_id@,
                id,
            ) by {
                assert(after[i] == tasks[i]);
            }
            lemma_task_found_at(after, record.agent_id@, id, at);
        },
        None => {
            assert forall|i: int| 0 <= i < tasks.len() implies !answers(
                #[trigger] after[i],
                record.agent_id@,
                id,
            ) by {
                assert(after[i] == tasks[i]);
            }
            lemma_task_found_at(after, record.agent_id@, id, tasks.len() as int);
        },
    }
}

/// No record of an agent answers to an id.
pub open spec fn unknown_id(
    tasks: Seq<RemoteTaskRecord>,
    agent_id: Seq<char>,
    id: Seq<char>,
) -> bool {
    forall|i: int| 0 <= i < tasks.len() ==> !answers(#[trigger] tasks[i], agent_id, id)
}

/// A task that was sent off can be followed by its correlation id: before the
/// answer this leads to the pending record, and from then on to the answer, as
/// the task's own id does. The answer takes the place of the pending record.
pub proof fn law_answer_resolves_pending_task(
    tasks: Seq<RemoteTaskRecord>,
    pending: RemoteTaskRecord,
    answer: RemoteTaskRecord,
)
    requires
        pending.agent_id@ == answer.agent_id@,
        pending.task_id@ == pending.correlation_id@,
        answer.correlation_id@ == pending.correlation_id@,
        pending.correlation_id@.len() > 0,
        unknown_id(tasks, answer.agent_id@, answer.correlation_id@),
        unknown_id(tasks, answer.agent_id@, answer.task_id@),
    ensures
        task_found(tasks_with(tasks, pending), answer.agent_id@, answer.correlation_id@) == Some(
            pending,
        ),
        task_found(
            tasks_with(tasks_with(tasks, pending), answer),
            answer.agent_id@,
            answer.correlation_id@,
        ) == Some(answer),
        task_found(
            tasks_with(tasks_with(tasks, pending), answer),
            answer.agent_id@,
            answer.task_id@,
        ) == Some(answer),
        tasks_with(tasks_with(tasks, pending), answer).len() == tasks.len() + 1,
{
    let correlation = answer.correlation_id@;
    law_taken_in_task_is_found(tasks, pending, correlation);
    lemma_task_position(tasks, pending, 0);
    assert(task_position(tasks, pending, 0) is None) by {
        if task_position(tasks, pending, 0) is Some {
            let at = task_position(tasks, pending, 0)->0;
            assert(answers(tasks[at], answer.agent_id@, correlation));
        }
    }
    let sent = tasks_with(tasks, pending);
    assert(sent =~= tasks.push(pending));
    assert(same_task(sent[tasks.len() as int], answer));
    assert forall|i: int|
        0 <= i < sent.len() && answers(#[trigger] sent[i], answer.agent_id@, correlation) implies same_task(
        sent[i],
        answer,
    ) by {
        if i < tasks.len() {
            assert(sent[i] == tasks[i]);
            assert(!answers(tasks[i], answer.agent_id@, correlation));
        }
    }
    law_taken_in_task_is_found(sent, answer, correlation);
    assert forall|i: int|
        0 <= i < sent.len() && answers(#[trigger] sent[i], answer.agent_id@, answer.task_id@) implies same_task(
        sent[i],
        answer,
    ) by {
        if i < tasks.len() {
            assert(sent[i] == tasks[i]);
            assert(!answers(tasks[i], answer.agent_id@, answer.task_id@));
        }
    }
    law_taken_in_task_is_found(sent, answer, answer.task_id@);
    lemma_task_position(sent, answer, 0);
}

/// The name of a runtime in configurations and summaries.
pub open spec fn runtime_name(kind: RuntimeKind) -> Seq<char> {
    match kind {
        RuntimeKind::Opencode => "opencode"@,
        RuntimeKind::Goose => "goose"@,
        RuntimeKind::Pi => "pi"@,
        RuntimeKind::Acp => "acp"@,
        RuntimeKind::Remote => "remote"@,
    }
}

pub fn runtime_label(kind: RuntimeKind) -> (label: &'static str)
    ensures
        label@ == runtime_name(kind),
{
    match kind {
        RuntimeKind::Opencode => "opencode",
        RuntimeKind::Goose => "goose",
        RuntimeKind::Pi => "pi",
        RuntimeKind::Acp => "acp",
        RuntimeKind::Remote => "remote",
    }
}

/// The summary of an agent of this node.
pub open spec fn local_summary(agent: AgentDefinition) -> JsonView {
    JsonView::Object(
        map![
            "agent_id"@ => JsonView::Text(agent.id@),
            "name"@ => JsonView::Text(agent.card.name@),
            "description"@ => JsonView::Text(agent.card.description@),
            "version"@ => JsonView::Text(agent.card.version@),
            "runtime"@ => JsonView::Text(runtime_name(agent.runtime.runtime.kind)),
            "max_concurrent_tasks"@ => JsonView::Integer(
                agent.runtime.runtime.max_concurrent_tasks as int,
            ),
            "card_url"@ => JsonView::Text("mesh://agents/"@ + agent.id@),
            "location"@ => JsonView::Text("local"@),
        ],
    )
}

fn local_agent_summary(agent: &AgentDefinition) -> (summary: serde_json::Value)
    ensures
        json_of(summary) == local_summary(*agent),
{
    let url = plus("mesh://agents/".to_string(), agent.id.as_str());
    let runtime = runtime_label(agent.runtime.runtime.kind);
    let slots: u64 = agent.runtime.runtime.max_concurrent_tasks as u64;
    let members = with(no_members(), "agent_id", text_value(agent.id.as_str()));
    let members = with(members, "name", text_value(agent.card.name.as_str()));
    let members = with(members, "description", text_value(agent.card.description.as_str()));
    let members = with(members, "version", text_value(agent.card.version.as_str()));
    let members = with(members, "runtime", text_value(runtime));
    let members = with(members, "max_concurrent_tasks", integer_value(slots));
    let members = with(members, "card_url", text_value(url.as_str()));
    object(with(members, "location", text_value("local")))
}

/// The agents that are switched on, in order.
pub open spec fn enabled_agents(agents: Seq<AgentDefinition>) -> Seq<AgentDefinition> {
    agents.filter(|agent: AgentDefinition| agent.runtime.enabled)
}

/// The summaries of the agents of this node that are switched on.
pub fn local_agent_summaries(agents: &Vec<AgentDefinition>) -> (summaries: Vec<serde_json::Value>)
    ensures
        jsons(summaries@) == enabled_agents(agents@).map_values(
            |agent: AgentDefinition| local_summary(agent),
        ),
{
    let ghost shown = |agent: AgentDefinition| agent.runtime.enabled;
    let ghost summary_of = |agent: AgentDefinition| local_summary(agent);
    let mut summaries: Vec<serde_json::Value> = Vec::new();
    let mut i: usize = 0;
    proof {
        reveal(Seq::filter);
        assert(agents@.take(0) =~= Seq::<AgentDefinition>::empty());
        assert(jsons(summaries@) =~= agents@.take(0).filter(shown).map_values(summary_of));
    }
    while i < agents.len()
        invariant
            i <= agents@.len(),
            shown == (|agent: AgentDefinition| agent.runtime.enabled),
            summary_of == (|agent: AgentDefinition| local_summary(agent)),
            jsons(summaries@) == agents@.take(i as int).filter(shown).map_values(summary_of),
        decreases agents@.len() - i,
    {
        let ghost before = jsons(summaries@);
        proof {
            reveal(Seq::filter);
            assert(agents@.take(i as int + 1).drop_last() =~= agents@.take(i as int));
            assert(agents@.take(i as int + 1).last() == agents@[i as int]);
        }
        if agents[i].runtime.enabled {
            let summary = local_agent_summary(&agents[i]);
            summaries.push(summary);
            proof {
                let kept = agents@.take(i as int).filter(shown);
                assert(jsons(summaries@) =~= before.push(json_of(summary)));
                assert(kept.push(agents@[i as int]).map_values(summary_of) =~= kept.map_values(
                    summary_of,
                ).push(local_summary(agents@[i as int])));
            }
        }
        i += 1;
    }
    assert(agents@.take(i as int) =~= agents@);
    summaries
}

/// The summary of an agent of another node.
pub open spec fn remote_summary(ad: RemoteAgentAd) -> JsonView {
    JsonView::Object(
        map![
            "agent_id"@ => JsonView::Text(ad.agent_id@),
            "name"@ => JsonView::Text(ad.name@),
            "description"@ => text_or_null(optional_chars(ad.description)),
            "version"@ => JsonView::Text(ad.version@),
            "card_url"@ => JsonView::Text("mesh://agents/"@ + ad.peer_id@ + "/"@ + ad.agent_id@),
            "location"@ => JsonView::Text("remote"@),
            "peer_id"@ => JsonView::Text(ad.peer_id@),
        ],
    )
}

fn remote_agent_summary(ad: &RemoteAgentAd) -> (summary: serde_json::Value)
    ensures
        json_of(summary) == remote_summary(*ad),
{
    let peer = plus("mesh://agents/".to_string(), ad.peer_id.as_str());
    let url = plus(plus(peer, "/"), ad.agent_id.as_str());
    let description = match &ad.description {
        Some(description) => optional_text_value(Some(description.as_str())),
        None => optional_text_value(None),
    };
    let members = with(no_members(), "agent_id", text_value(ad.agent_id.as_str()));
    let members = with(members, "name", text_value(ad.name.as_str()));
    let members = with(members, "description", description);
    let members = with(members, "version", text_value(ad.version.as_str()));
    let members = with(members, "card_url", text_value(url.as_str()));
    let members = with(members, "location", text_value("remote"));
    object(with(members, "peer_id", text_value(ad.peer_id.as_str())))
}

/// The summaries of the agents of other nodes, in the order of the cache.
pub fn remote_agent_summaries(cache: &RemoteAgentCache) -> (summaries: Vec<serde_json::Value>)
    ensures
        jsons(summaries@) == cache.agents@.map_values(|ad: RemoteAgentAd| remote_summary(ad)),
{
    let mut summaries: Vec<serde_json::Value> = Vec::new();
    let mut i: usize = 0;
    while i < cache.agents.len()
        invariant
            i <= cache.agents@.len(),
            summaries@.len() == i,
            forall|j: int|
                0 <= j < i ==> json_of(#[trigger] summaries@[j]) == remote_summary(
                    cache.agents@[j],
                ),
        decreases cache.agents@.len() - i,
    {
        summaries.push(remote_agent_summary(&cache.agents[i]));
        i += 1;
    }
    assert(jsons(summaries@) =~= cache.agents@.map_values(
        |ad: RemoteAgentAd| remote_summary(ad),
    ));
    summaries
}

/// `ad` is what this node says of an agent of its own.
pub open spec fn advertises(
    ad: RemoteAgentAd,
    agent: AgentDefinition,
    source_peer_id: Seq<char>,
    now_ms: u64,
) -> bool {
    &&& ad.agent_id@ == agent.id@
    &&& ad.peer_id@ == source_peer_id
    &&& ad.name@ == agent.card.name@
    &&& optional_chars(ad.description) == Some(agent.card.description@)
    &&& ad.version@ == agent.card.version@
    &&& json_of(ad.card) == json_of(agent.card.document)
    &&& ad.updated_at_ms == now_ms
}

fn local_advertisement(agent: &AgentDefinition, source_peer_id: &str, now_ms: u64) -> (ad:
    RemoteAgentAd)
    ensures
        advertises(ad, *agent, source_peer_id@, now_ms),
{
    RemoteAgentAd {
        agent_id: agent.id.clone(),
        peer_id: source_peer_id.to_string(),
        name: agent.card.name.clone(),
        description: Some(agent.card.description.clone()),
        version: agent.card.version.clone(),
        card: agent.card.document.clone(),
        updated_at_ms: now_ms,
    }
}

/// The agents that are switched on and may be advertised on the mesh, in order.
pub open spec fn advertised_agents(agents: Seq<AgentDefinition>) -> Seq<AgentDefinition> {
    agents.filter(
        |agent: AgentDefinition| agent.runtime.enabled && agent.runtime.policy.advertise_on_mesh,
    )
}

/// What this node says of its agents: of those that are switched on and may be
/// advertised, and of no other.
pub fn local_advertisements(
    agents: &Vec<AgentDefinition>,
    source_peer_id: &str,
    now_ms: u64,
) -> (ads: Vec<RemoteAgentAd>)
    ensures
        ads@.len() == advertised_agents(agents@).len(),
        forall|i: int|
            0 <= i < ads@.len() ==> advertises(
                #[trigger] ads@[i],
                advertised_agents(agents@)[i],
                source_peer_id@,
                now_ms,
            ),
{
    let ghost shown = |agent: AgentDefinition|
        agent.runtime.enabled && agent.runtime.policy.advertise_on_mesh;
    let mut ads: Vec<RemoteAgentAd> = Vec::new();
    let mut i: usize = 0;
    proof {
        reveal(Seq::filter);
        assert(agents@.take(0) =~= Seq::<AgentDefinition>::empty());
    }
    while i < agents.len()
        invariant
            i <= agents@.len(),
            shown == (|agent: AgentDefinition|
                agent.runtime.enabled && agent.runtime.policy.advertise_on_mesh),
            ads@.len() == agents@.take(i as int).filter(shown).len(),
            forall|j: int|
                0 <= j < ads@.len() ==> advertises(
                    #[trigger] ads@[j],
                    agents@.take(i as int).filter(shown)[j],
                    source_peer_id@,
                    now_ms,
                ),
        decreases agents@.len() - i,
    {
        let ghost kept = agents@.take(i as int).filter(shown);
        proof {
            reveal(Seq::filter);
            assert(agents@.take(i as int + 1).drop_last() =~= agents@.take(i as int));
            assert(agents@.take(i as int + 1).last() == agents@[i as int]);
        }
        if agents[i].runtime.enabled && agents[i].runtime.policy.advertise_on_mesh {
            let ghost before = ads@;
            ads.push(local_advertisement(&agents[i], source_peer_id, now_ms));
            assert forall|j: int| 0 <= j < ads@.len() implies advertises(
                #[trigger] ads@[j],
                kept.push(agents@[i as int])[j],
                source_peer_id@,
                now_ms,
            ) by {
                if j < before.len() {
                    assert(ads@[j] == before[j]);
                }
            }
        }
        i += 1;
    }
    assert(agents@.take(i as int) =~= agents@);
    ads
}

/// Only agents that are switched on and opted in are advertised. Agents that are
/// switched on are listed on this node whether or not they opted in, and agents
/// that are switched off are neither listed nor advertised.
pub proof fn law_who_is_shown(agents: Seq<AgentDefinition>, i: int)
    requires
        0 <= i < agents.len(),
    ensures
        enabled_agents(agents).contains(agents[i]) <==> agents[i].runtime.enabled,
        advertised_agents(agents).contains(agents[i]) <==> agents[i].runtime.enabled
            && agents[i].runtime.policy.advertise_on_mesh,
{
    broadcast use vstd::seq_lib::group_filter_ensures;

    assert(agents.contains(agents[i]));
}

/// Where the agents of other nodes are kept.
pub fn cache_path(data_dir: &str) -> (path: String)
    ensures
        path@ == joined(joined(data_dir@, "a2a"@), "remote-agents.json"@),
{
    join(join(data_dir, "a2a").as_str(), "remote-agents.json")
}

/// Where the tasks of other nodes are kept.
pub fn task_cache_path(data_dir: &str) -> (path: String)
    ensures
        path@ == joined(joined(data_dir@, "a2a"@), "remote-tasks.json"@),
{
    join(join(data_dir, "a2a").as_str(), "remote-tasks.json")
}

/// What is listed of an agent agrees with its card: the name, the description and the
/// version in its summary are those in the card's document, and the id is the agent's.
/// The summary that another node makes of the agent's advertisement says the same.
pub proof fn law_summaries_agree_with_the_card(
    agent: AgentDefinition,
    ad: RemoteAgentAd,
    source_peer_id: Seq<char>,
    now_ms: u64,
)
    requires
        agent.card@ == card_in(json_of(agent.card.document)),
        advertises(ad, agent, source_peer_id, now_ms),
    ensures
        summarizes(local_summary(agent), agent.id@, json_of(agent.card.document)),
        summarizes(remote_summary(ad), agent.id@, json_of(agent.card.document)),
        json_of(ad.card) == json_of(agent.card.document),
        text_member_of(local_summary(agent), "location"@) == Some("local"@),
        text_member_of(remote_summary(ad), "location"@) == Some("remote"@),
        text_member_of(remote_summary(ad), "peer_id"@) == Some(source_peer_id),
        text_member_of(local_summary(agent), "card_url"@) == Some("mesh://agents/"@ + agent.id@),
        text_member_of(remote_summary(ad), "card_url"@) == Some(
            "mesh://agents/"@ + source_peer_id + "/"@ + agent.id@,
        ),
        ad.updated_at_ms == now_ms,
        ad.agent_id@ == agent.id@,
        ad.peer_id@ == source_peer_id,
{
    lemma_member_names();
    assert(agent.card@.name == agent.card.name@);
    assert(agent.card@.description == agent.card.description@);
    assert(agent.card@.version == agent.card.version@);
}

/// A summary of the agent by that id with that card.
pub open spec fn summarizes(summary: JsonView, id: Seq<char>, card: JsonView) -> bool {
    &&& text_member_of(summary, "agent_id"@) == Some(id)
    &&& text_member_of(summary, "name"@) == Some(text_member_or_empty(card, "name"@))
    &&& text_member_of(summary, "description"@) == Some(
        text_member_or_empty(card, "description"@),
    )
    &&& text_member_of(summary, "version"@) == Some(text_member_or_empty(card, "version"@))
}

/// What is listed of this node's agents: one summary for each that is switched on, in
/// order, with how the agent is run.
pub proof fn law_enabled_agents_are_summarized(
    agents: &Vec<AgentDefinition>,
    summaries: Vec<serde_json::Value>,
    i: int,
)
    requires
        call_ensures(local_agent_summaries, (agents,), summaries),
        0 <= i < summaries@.len(),
    ensures
        summaries@.len() == enabled_agents(agents@).len(),
        ({
            let agent = enabled_agents(agents@)[i];
            let summary = json_of(summaries@[i]);
            &&& agents@.contains(agent)
            &&& agent.runtime.enabled
            &&& text_member_of(summary, "agent_id"@) == Some(agent.id@)
            &&& text_member_of(summary, "name"@) == Some(agent.card.name@)
            &&& text_member_of(summary, "description"@) == Some(agent.card.description@)
            &&& text_member_of(summary, "version"@) == Some(agent.card.version@)
            &&& text_member_of(summary, "location"@) == Some("local"@)
            &&& text_member_of(summary, "card_url"@) == Some("mesh://agents/"@ + agent.id@)
            &&& text_member_of(summary, "runtime"@) == Some(
                match agent.runtime.runtime.kind {
                    RuntimeKind::Opencode => "opencode"@,
                    RuntimeKind::Goose => "goose"@,
                    RuntimeKind::Pi => "pi"@,
                    RuntimeKind::Acp => "acp"@,
                    RuntimeKind::Remote => "remote"@,
                },
            )
            &&& member_of(summary, "max_concurrent_tasks"@) == Some(
                JsonView::Integer(agent.runtime.runtime.max_concurrent_tasks as int),
            )
        }),
{
    broadcast use vstd::seq_lib::group_filter_ensures;

    lemma_member_names();
    let shown = enabled_agents(agents@);
    let listed = jsons(summaries@);
    assert(listed.len() == summaries@.len());
    assert(listed == shown.map_values(|agent: AgentDefinition| local_summary(agent)));
    assert(listed[i] == local_summary(shown[i]));
    assert(listed[i] == json_of(summaries@[i]));
    let enabled = |agent: AgentDefinition| agent.runtime.enabled;
    assert(agents@.filter(enabled) == shown);
    assert(shown.contains(shown[i]));
    assert(enabled(shown[i]));
    agents@.lemma_filter_contains_rev(enabled, shown[i]);
}

/// What is listed of other nodes' agents: one summary for each that is known, in
/// order, with what its node said of it.
pub proof fn law_known_agents_are_summarized(
    cache: &RemoteAgentCache,
    summaries: Vec<serde_json::Value>,
    i: int,
)
    requires
        call_ensures(remote_agent_summaries, (cache,), summaries),
        0 <= i < summaries@.len(),
    ensures
        summaries@.len() == cache.agents@.len(),
        ({
            let ad = cache.agents@[i];
            let summary = json_of(summaries@[i]);
            &&& text_member_of(summary, "agent_id"@) == Some(ad.agent_id@)
            &&& text_member_of(summary, "peer_id"@) == Some(ad.peer_id@)
            &&& text_member_of(summary, "name"@) == Some(ad.name@)
            &&& text_member_of(summary, "description"@) == optional_chars(ad.description)
            &&& text_member_of(summary, "version"@) == Some(ad.version@)
            &&& text_member_of(summary, "location"@) == Some("remote"@)
            &&& text_member_of(summary, "card_url"@) == Some(
                "mesh://agents/"@ + ad.peer_id@ + "/"@ + ad.agent_id@,
            )
        }),
{
    lemma_member_names();
    let listed = jsons(summaries@);
    assert(listed.len() == summaries@.len());
    assert(listed == cache.agents@.map_values(|ad: RemoteAgentAd| remote_summary(ad)));
    assert(listed[i] == json_of(summaries@[i]));
}

/// What this node says of its agents: of each that is switched on and opted in what
/// its card says, in order, as from this node and at the time that is given.
pub proof fn law_ads_say_what_cards_say(
    agents: &Vec<AgentDefinition>,
    source_peer_id: &str,
    now_ms: u64,
    ads: Vec<RemoteAgentAd>,
    i: int,
)
    requires
        call_ensures(local_advertisements, (agents, source_peer_id, now_ms), ads),
        0 <= i < ads@.len(),
    ensures
        exists|at: int|
            #![trigger agents@[at]]
            {
                let agent = agents@[at];
                &&& 0 <= at < agents@.len()
                &&& agent.runtime.enabled
                &&& agent.runtime.policy.advertise_on_mesh
                &&& ads@[i].agent_id@ == agent.id@
                &&& ads@[i].peer_id@ == source_peer_id@
                &&& ads@[i].name@ == agent.card.name@
                &&& optional_chars(ads@[i].description) == Some(agent.card.description@)
                &&& ads@[i].version@ == agent.card.version@
                &&& json_of(ads@[i].card) == json_of(agent.card.document)
                &&& ads@[i].updated_at_ms == now_ms
            },
        forall|at: int|
            0 <= at < agents@.len() && (#[trigger] agents@[at]).runtime.enabled
                && agents@[at].runtime.policy.advertise_on_mesh ==> exists|k: int|
                0 <= k < ads@.len() && (#[trigger] ads@[k]).agent_id@ == agents@[at].id@,
{
    broadcast use vstd::seq_lib::group_filter_ensures;

    let wanted = |agent: AgentDefinition|
        agent.runtime.enabled && agent.runtime.policy.advertise_on_mesh;
    let shown = advertised_agents(agents@);
    assert(agents@.filter(wanted) == shown);
    assert(advertises(ads@[i], shown[i], source_peer_id@, now_ms));
    assert(shown.contains(shown[i]));
    assert(wanted(shown[i]));
    agents@.lemma_filter_contains_rev(wanted, shown[i]);
    let at = choose|at: int| 0 <= at < agents@.len() && agents@[at] == shown[i];
    assert(agents@[at] == shown[i]);
    assert forall|at: int|
        0 <= at < agents@.len() && (#[trigger] agents@[at]).runtime.enabled
            && agents@[at].runtime.policy.advertise_on_mesh implies exists|k: int|
        0 <= k < ads@.len() && (#[trigger] ads@[k]).agent_id@ == agents@[at].id@ by {
        law_who_is_shown(agents@, at);
        assert(shown.contains(agents@[at]));
        let k = choose|k: int| 0 <= k < shown.len() && shown[k] == agents@[at];
        assert(advertises(ads@[k], shown[k], source_peer_id@, now_ms));
    }
}

/// A record that is found is one of the agent that was asked for, and its task id or
/// its correlation id is the id that was asked for. Where none is found, the agent has
/// no task of that id, nor one that was sent off under it.
pub proof fn law_found_record_is_the_one_asked_for(
    cache: &RemoteTaskCache,
    agent_id: &str,
    task_id: &str,
    record: Option<&RemoteTaskRecord>,
)
    requires
        call_ensures(RemoteTaskCache::get, (cache, agent_id, task_id), record),
    ensures
        match record {
            Some(record) => {
                &&& cache.tasks@.contains(*record)
                &&& record.agent_id@ == agent_id@
                &&& record.task_id@ == task_id@ || (task_id@.len() > 0 && record.correlation_id@
                    == task_id@)
            },
            None => forall|i: int|
                0 <= i < cache.tasks@.len() && (#[trigger] cache.tasks@[i]).agent_id@ == agent_id@
                    ==> cache.tasks@[i].task_id@ != task_id@ && (task_id@.len() > 0
                    ==> cache.tasks@[i].correlation_id@ != task_id@),
        },
{
    lemma_task_found(cache.tasks@, agent_id@, task_id@);
}

proof fn lemma_task_found(
    tasks: Seq<RemoteTaskRecord>,
    agent_id: Seq<char>,
    task_id: Seq<char>,
)
    ensures
        match task_found(tasks, agent_id, task_id) {
            Some(record) => tasks.contains(record) && answers(record, agent_id, task_id),
            None => forall|i: int|
                0 <= i < tasks.len() ==> !answers(#[trigger] tasks[i], agent_id, task_id),
        },
    decreases tasks.len(),
{
    if tasks.len() > 0 {
        let rest = tasks.drop_first();
        lemma_task_found(rest, agent_id, task_id);
        if answers(tasks[0], agent_id, task_id) {
            assert(tasks.contains(tasks[0]));
        } else {
            match task_found(rest, agent_id, task_id) {
                Some(record) => {
                    let i = choose|i: int| 0 <= i < rest.len() && rest[i] == record;
                    assert(tasks[i + 1] == record);
                },
                None => {
                    assert forall|i: int| 0 <= i < tasks.len() implies !answers(
                        #[trigger] tasks[i],
                        agent_id,
                        task_id,
                    ) by {
                        if i > 0 {
                            assert(!answers(rest[i - 1], agent_id, task_id));
                        }
                    }
                },
            }
        }
    }
}

/// Taking in a record loses no record of another agent, nor one of another task: one
/// whose task id and correlation id are both others. The record itself is kept.
pub proof fn law_other_records_are_kept(
    tasks: Seq<RemoteTaskRecord>,
    record: RemoteTaskRecord,
    i: int,
)
    requires
        0 <= i < tasks.len(),
        tasks[i].agent_id@ != record.agent_id@ || (tasks[i].task_id@ != record.task_id@
            && tasks[i].correlation_id@ != record.correlation_id@),
    ensures
        tasks_with(tasks, record).contains(tasks[i]),
        tasks_with(tasks, record).contains(record),
        tasks_with(tasks, record).len() <= tasks.len() + 1,
{
    lemma_task_position(tasks, record, 0);
    let after = tasks_with(tasks, record);
    match task_position(tasks, record, 0) {
        Some(at) => {
            assert(after[at] == record);
            assert(after[i] == tasks[i]);
        },
        None => {
            assert(after[i] == tasks[i]);
            assert(after[tasks.len() as int] == record);
        },
    }
}

/// A record of the same task of the same agent takes the place of the one that was
/// there: by its task id there is then one record as before.
pub proof fn law_renewed_record_takes_the_place(
    tasks: Seq<RemoteTaskRecord>,
    record: RemoteTaskRecord,
    i: int,
)
    requires
        0 <= i < tasks.len(),
        tasks[i].agent_id@ == record.agent_id@,
        tasks[i].task_id@ == record.task_id@ || (record.correlation_id@.len() > 0
            && tasks[i].correlation_id@ == record.correlation_id@),
    ensures
        tasks_with(tasks, record).len() == tasks.len(),
        tasks_with(tasks, record).contains(record),
{
    lemma_task_position(tasks, record, 0);
    assert(same_task(tasks[i], record));
    let at = task_position(tasks, record, 0)->0;
    assert(tasks_with(tasks, record)[at] == record);
}

/// The agents and the tasks of other nodes are kept in files of their own below the
/// data directory.
pub proof fn law_caches_are_apart(
    data_dir: &str,
    agents: String,
    tasks: String,
)
    requires
        call_ensures(cache_path, (data_dir,), agents),
        call_ensures(task_cache_path, (data_dir,), tasks),
    ensures
        agents@ != tasks@,
        agents@ == joined(data_dir@, "a2a/remote-agents.json"@),
        tasks@ == joined(data_dir@, "a2a/remote-tasks.json"@),
{
    reveal_strlit("a2a");
    reveal_strlit("/");
    reveal_strlit("remote-agents.json");
    reveal_strlit("remote-tasks.json");
    reveal_strlit("a2a/remote-agents.json");
    reveal_strlit("a2a/remote-tasks.json");
    assert("a2a/remote-agents.json"@ =~= "a2a"@ + "/"@ + "remote-agents.json"@);
    assert("a2a/remote-tasks.json"@ =~= "a2a"@ + "/"@ + "remote-tasks.json"@);
    assert(agents@ =~= joined(data_dir@, "a2a/remote-agents.json"@));
    assert(tasks@ =~= joined(data_dir@, "a2a/remote-tasks.json"@));
}

/// What is kept of a task that was sent off is known by the one id that it was sent
/// with, and names the agent and the node that it went to.
pub proof fn law_pending_record(
    record: RemoteTaskRecord,
    agent_id: Seq<char>,
    peer_id: Seq<char>,
    correlation_id: Seq<char>,
    result: JsonView,
    now_ms: u64,
)
    requires
        is_pending_record(record, agent_id, peer_id, correlation_id, result, now_ms),
    ensures
        record.agent_id@ == agent_id,
        record.peer_id@ == peer_id,
        record.task_id@ == record.correlation_id@,
        record.correlation_id@ == correlation_id,
        json_of(record.result) == result,
        record.updated_at_ms == now_ms,
{
}

} // verus!
