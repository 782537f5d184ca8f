//! What a vote store is, apart from how it is kept: the next id to give out
//! and the votes by id, with the operations as functions on that pair.

use crate::vote::{VotePayloadView, VoteView};
use vstd::prelude::*;

verus! {

/// The state of a vote store.
pub struct StoreModel {
    /// The id that the next vote gets.
    pub next_id: nat,
    /// The votes, by id.
    pub votes: Map<u64, VoteView>,
}

/// One call of the vote service.
pub enum Call {
    /// A request to add a vote.
    Add { payload: VotePayloadView, voter_id: Seq<char>, now: u64 },
    /// A request to change the vote under `id`.
    Modify { id: u64, payload: VotePayloadView, now: u64 },
    /// Any of the calls that read and change nothing.
    Read,
    /// A restart: the store is let go and opened again on what it wrote.
    Restart,
}

impl Call {
    /// The call is a request to add a vote that the store accepts.
    pub open spec fn is_accepted_add(self) -> bool {
        match self {
            Call::Add { payload, voter_id, .. } => StoreModel::accepts(payload, voter_id),
            _ => false,
        }
    }
}

impl StoreModel {
    /// The store that holds nothing and has given out no id.
    pub open spec fn empty() -> StoreModel {
        StoreModel { next_id: 0, votes: Map::empty() }
    }

    /// The vote under `id`, if there is one.
    pub open spec fn get(self, id: u64) -> Option<VoteView> {
        if self.votes.contains_key(id) {
            Some(self.votes[id])
        } else {
            None
        }
    }

    /// The store with `vote` under its id, over any vote that was there.
    pub open spec fn insert(self, vote: VoteView) -> StoreModel {
        StoreModel { votes: self.votes.insert(vote.id, vote), ..self }
    }

    /// The store after one more id was given out.
    pub open spec fn minted(self) -> StoreModel {
        StoreModel { next_id: self.next_id + 1, ..self }
    }

    /// Every vote is stored under its own id.
    pub open spec fn keyed_by_id(self) -> bool {
        forall|id: u64| #[trigger] self.votes.contains_key(id) ==> self.votes[id].id == id
    }

    /// Every id in use was given out by the counter.
    pub open spec fn ids_issued(self) -> bool {
        forall|id: u64| #[trigger] self.votes.contains_key(id) ==> id < self.next_id
    }

    /// A new vote needs a voter and a candidate.
    pub open spec fn accepts(payload: VotePayloadView, voter_id: Seq<char>) -> bool {
        voter_id.len() > 0 && payload.candidate.len() > 0
    }

    /// The vote that an accepted request adds.
    pub open spec fn new_vote(
        self,
        payload: VotePayloadView,
        voter_id: Seq<char>,
        now: u64,
    ) -> VoteView {
        VoteView {
            id: self.next_id as u64,
            voter_id,
            candidate: payload.candidate,
            timestamp: now,
            proof: payload.proof,
        }
    }

    /// The store after a request to add a vote: with the new vote and one more
    /// id given out, or as it was where the request is refused.
    pub open spec fn add_vote(
        self,
        payload: VotePayloadView,
        voter_id: Seq<char>,
        now: u64,
    ) -> StoreModel {
        if Self::accepts(payload, voter_id) {
            self.minted().insert(self.new_vote(payload, voter_id, now))
        } else {
            self
        }
    }

    /// The vote under `id` with the payload's candidate and proof, at `now`.
    pub open spec fn changed_vote(self, id: u64, payload: VotePayloadView, now: u64) -> VoteView {
        VoteView {
            candidate: payload.candidate,
            proof: payload.proof,
            timestamp: now,
            ..self.votes[id]
        }
    }

    /// The store after a request to change the vote under `id`: as it was where
    /// there is no such vote.
    pub open spec fn modify_vote(self, id: u64, payload: VotePayloadView, now: u64) -> StoreModel {
        if self.votes.contains_key(id) {
            self.insert(self.changed_vote(id, payload, now))
        } else {
            self
        }
    }

    /// The ids of the votes for `candidate`.
    pub open spec fn votes_for(self, candidate: Seq<char>) -> Set<u64> {
        Set::new(|id: u64| self.votes.contains_key(id) && self.votes[id].candidate == candidate)
    }

    /// The store holds a vote of `voter_id`.
    pub open spec fn has_voter(self, voter_id: Seq<char>) -> bool {
        exists|id: u64| #[trigger] self.votes.contains_key(id) && self.votes[id].voter_id == voter_id
    }

    /// `id` is the least id under which a vote of `voter_id` is stored.
    pub open spec fn is_first_of_voter(self, id: u64, voter_id: Seq<char>) -> bool {
        &&& self.votes.contains_key(id)
        &&& self.votes[id].voter_id == voter_id
        &&& forall|other: u64| #[trigger]
            self.votes.contains_key(other) && self.votes[other].voter_id == voter_id ==> id
                <= other
    }

    /// The vote under `id` carries exactly `proof`.
    pub open spec fn proof_matches(self, id: u64, proof: Seq<char>) -> bool {
        self.votes[id].proof == proof
    }

    /// `listed` is every vote of the store, once, in ascending order of id.
    pub open spec fn is_snapshot(self, listed: Seq<VoteView>) -> bool {
        &&& forall|i: int, j: int| 0 <= i < j < listed.len() ==> listed[i].id < listed[j].id
        &&& forall|i: int|
            0 <= i < listed.len() ==> self.votes.contains_key(#[trigger] listed[i].id)
                && self.votes[listed[i].id] == listed[i]
        &&& forall|id: u64| #[trigger]
            self.votes.contains_key(id) ==> exists|i: int|
                0 <= i < listed.len() && listed[i].id == id
    }

    /// The store after one call.
    pub open spec fn after(self, call: Call) -> StoreModel {
        match call {
            Call::Add { payload, voter_id, now } => self.add_vote(payload, voter_id, now),
            Call::Modify { id, payload, now } => self.modify_vote(id, payload, now),
            Call::Read => self,
            Call::Restart => self,
        }
    }

    /// The store after each of `calls` in turn.
    pub open spec fn after_calls(self, calls: Seq<Call>) -> StoreModel
        decreases calls.len(),
    {
        if calls.len() == 0 {
            self
        } else {
            self.after_calls(calls.drop_last()).after(calls.last())
        }
    }

    /// The id that the call at `at` gives to its vote, if it is a request to
    /// add one that is accepted, when `calls` are made in turn.
    pub open spec fn id_given_at(self, calls: Seq<Call>, at: int) -> u64 {
        self.after_calls(calls.take(at)).next_id as u64
    }
}

/// The ids of the votes for `candidate` among `listed`.
pub open spec fn listed_for(listed: Seq<VoteView>, candidate: Seq<char>) -> Set<u64> {
    Set::new(
        |id: u64|
            exists|k: int|
                0 <= k < listed.len() && (#[trigger] listed[k]).id == id && listed[k].candidate
                    == candidate,
    )
}

/// Nothing is listed in an empty list.
pub proof fn lemma_listed_for_none(candidate: Seq<char>)
    ensures
        listed_for(Seq::empty(), candidate) == Set::<u64>::empty(),
{
    assert(listed_for(Seq::empty(), candidate) =~= Set::<u64>::empty());
}

/// One more vote at the end of a list in ascending order of id is one more
/// vote for its candidate, and none for any other.
pub proof fn lemma_listed_for_push(listed: Seq<VoteView>, next: VoteView, candidate: Seq<char>)
    requires
        forall|k: int| 0 <= k < listed.len() ==> (#[trigger] listed[k]).id < next.id,
        listed_for(listed, candidate).finite(),
    ensures
        listed_for(listed.push(next), candidate).finite(),
        listed_for(listed.push(next), candidate).len() == listed_for(listed, candidate).len() + (
        if next.candidate == candidate {
            1nat
        } else {
            0nat
        }),
{
    let before = listed_for(listed, candidate);
    let after = listed_for(listed.push(next), candidate);
    let longer = listed.push(next);
    assert forall|id: u64| before.contains(id) implies after.contains(id) by {
        let k = choose|k: int|
            0 <= k < listed.len() && (#[trigger] listed[k]).id == id && listed[k].candidate
                == candidate;
        assert(longer[k] == listed[k]);
    }
    assert forall|id: u64| after.contains(id) && id != next.id implies before.contains(id) by {
        let k = choose|k: int|
            0 <= k < longer.len() && (#[trigger] longer[k]).id == id && longer[k].candidate
                == candidate;
        assert(k < listed.len());
        assert(longer[k] == listed[k]);
    }
    assert(!before.contains(next.id));
    if next.candidate == candidate {
        assert(longer[listed.len() as int] == next);
        assert(after.contains(next.id));
        assert(after =~= before.insert(next.id));
    } else {
        assert(!after.contains(next.id)) by {
            if after.contains(next.id) {
                let k = choose|k: int|
                    0 <= k < longer.len() && (#[trigger] longer[k]).id == next.id
                        && longer[k].candidate == candidate;
                if k < listed.len() {
                    assert(longer[k] == listed[k]);
                }
            }
        }
        assert(after =~= before);
    }
}

/// In a snapshot of a store, the votes listed for a candidate are the votes
/// stored for it.
pub proof fn lemma_listed_for_snapshot(
    store: StoreModel,
    listed: Seq<VoteView>,
    candidate: Seq<char>,
)
    requires
        store.is_snapshot(listed),
    ensures
        listed_for(listed, candidate) == store.votes_for(candidate),
{
    let from_list = listed_for(listed, candidate);
    let stored = store.votes_for(candidate);
    assert forall|id: u64| from_list.contains(id) implies stored.contains(id) by {
        let k = choose|k: int|
            0 <= k < listed.len() && (#[trigger] listed[k]).id == id && listed[k].candidate
                == candidate;
        assert(store.votes.contains_key(listed[k].id));
    }
    assert forall|id: u64| stored.contains(id) implies from_list.contains(id) by {
        assert(store.votes.contains_key(id));
        let k = choose|k: int| 0 <= k < listed.len() && listed[k].id == id;
        assert(store.votes.contains_key(listed[k].id));
    }
    assert(from_list =~= stored);
}

/// The ids of the votes among `listed`.
pub open spec fn listed_ids(listed: Seq<VoteView>) -> Set<u64> {
    Set::new(|id: u64| exists|k: int| 0 <= k < listed.len() && (#[trigger] listed[k]).id == id)
}

/// A list in ascending order of id names as many ids as it has votes.
pub proof fn lemma_listed_ids_len(listed: Seq<VoteView>)
    requires
        forall|i: int, j: int| 0 <= i < j < listed.len() ==> listed[i].id < listed[j].id,
    ensures
        listed_ids(listed).finite(),
        listed_ids(listed).len() == listed.len(),
    decreases listed.len(),
{
    if listed.len() == 0 {
        assert(listed_ids(listed) =~= Set::<u64>::empty());
    } else {
        let front = listed.drop_last();
        let last = listed.last();
        lemma_listed_ids_len(front);
        assert forall|id: u64| listed_ids(front).contains(id) implies listed_ids(listed).contains(
            id,
        ) && id != last.id by {
            let k = choose|k: int| 0 <= k < front.len() && (#[trigger] front[k]).id == id;
            assert(listed[k] == front[k]);
        }
        assert forall|id: u64| listed_ids(listed).contains(id) && id != last.id implies listed_ids(
            front,
        ).contains(id) by {
            let k = choose|k: int| 0 <= k < listed.len() && (#[trigger] listed[k]).id == id;
            assert(front[k] == listed[k]);
        }
        assert(listed[listed.len() - 1] == last);
        assert(listed_ids(listed).contains(last.id));
        assert(listed_ids(listed) =~= listed_ids(front).insert(last.id));
    }
}

/// A snapshot of a store has one vote for each id in use, so the store holds
/// finitely many votes: as many as the snapshot lists.
pub proof fn lemma_snapshot_len(store: StoreModel, listed: Seq<VoteView>)
    requires
        store.is_snapshot(listed),
    ensures
        store.votes.dom().finite(),
        store.votes.dom().len() == listed.len(),
{
    lemma_listed_ids_len(listed);
    assert forall|id: u64| listed_ids(listed).contains(id) implies store.votes.dom().contains(
        id,
    ) by {
        let k = choose|k: int| 0 <= k < listed.len() && (#[trigger] listed[k]).id == id;
        assert(store.votes.contains_key(listed[k].id));
    }
    assert forall|id: u64| store.votes.dom().contains(id) implies listed_ids(listed).contains(
        id,
    ) by {
        assert(store.votes.contains_key(id));
        let k = choose|k: int| 0 <= k < listed.len() && listed[k].id == id;
        assert(listed[k].id == id);
    }
    assert(listed_ids(listed) =~= store.votes.dom());
}

/// The counter never goes back: after any calls it is where it was, plus
/// one for each request to add that was accepted, so at most one for each
/// call.
pub proof fn law_counter_never_goes_back(start: StoreModel, calls: Seq<Call>)
    ensures
        start.next_id <= start.after_calls(calls).next_id <= start.next_id + calls.len(),
    decreases calls.len(),
{
    if calls.len() > 0 {
        law_counter_never_goes_back(start, calls.drop_last());
    }
}

/// More calls never leave the counter lower.
pub proof fn lemma_counter_grows(start: StoreModel, calls: Seq<Call>, i: int, j: int)
    requires
        0 <= i <= j <= calls.len(),
    ensures
        start.after_calls(calls.take(i)).next_id <= start.after_calls(calls.take(j)).next_id,
    decreases j - i,
{
    if i < j {
        lemma_counter_grows(start, calls, i, j - 1);
        assert(calls.take(j).drop_last() =~= calls.take(j - 1));
    }
}

/// Ids are never given twice and only go up: of two accepted requests to add
/// a vote, the later one gets the greater id, whatever calls are made before,
/// between and after them, as long as the counter has not run out of ids by
/// the time of the later one.
pub proof fn law_ids_strictly_increase(start: StoreModel, calls: Seq<Call>, i: int, j: int)
    requires
        0 <= i < j < calls.len(),
        calls[i].is_accepted_add(),
        start.after_calls(calls.take(j)).next_id <= u64::MAX,
    ensures
        start.id_given_at(calls, i) < start.id_given_at(calls, j),
        calls[i] matches Call::Add { payload, voter_id, now } ==> start.id_given_at(calls, i)
            == start.after_calls(calls.take(i)).new_vote(payload, voter_id, now).id,
{
    let before = start.after_calls(calls.take(i));
    assert(calls.take(i + 1).drop_last() =~= calls.take(i));
    assert(calls.take(i + 1).last() == calls[i]);
    assert(start.after_calls(calls.take(i + 1)).next_id == before.next_id + 1);
    lemma_counter_grows(start, calls, i + 1, j);
}

/// What an accepted request to add a vote does: the counter moves by one,
/// the vote goes under an id that was free, no other vote is touched, the
/// store holds one vote more, and what held of its ids goes on holding.
pub proof fn law_accepted_add(
    store: StoreModel,
    payload: VotePayloadView,
    voter_id: Seq<char>,
    now: u64,
)
    requires
        StoreModel::accepts(payload, voter_id),
        store.next_id < u64::MAX,
        store.keyed_by_id(),
        store.ids_issued(),
        store.votes.dom().finite(),
    ensures
        ({
            let vote = store.new_vote(payload, voter_id, now);
            let after = store.add_vote(payload, voter_id, now);
            &&& vote.id == store.next_id
            &&& after.next_id == store.next_id + 1
            &&& !store.votes.contains_key(vote.id)
            &&& after.votes == store.votes.insert(vote.id, vote)
            &&& after.get(vote.id) == Some(vote)
            &&& after.votes.dom().finite()
            &&& after.votes.dom().len() == store.votes.dom().len() + 1
            &&& after.keyed_by_id()
            &&& after.ids_issued()
        }),
{
    let vote = store.new_vote(payload, voter_id, now);
    assert(store.add_vote(payload, voter_id, now).votes.dom() =~= store.votes.dom().insert(
        vote.id,
    ));
}

/// Adding a vote takes no vote away and changes none: the new vote goes under
/// an id that was free, where every id in use was given out by the counter
/// and the counter has ids left.
pub proof fn law_add_never_overwrites(
    store: StoreModel,
    payload: VotePayloadView,
    voter_id: Seq<char>,
    now: u64,
    id: u64,
)
    requires
        store.ids_issued(),
        store.next_id <= u64::MAX,
        store.votes.contains_key(id),
    ensures
        !store.votes.contains_key(store.new_vote(payload, voter_id, now).id),
        store.add_vote(payload, voter_id, now).get(id) == store.get(id),
{
}

/// What holds of the ids of a store goes on holding when a vote is added, as
/// long as the counter has ids left.
pub proof fn law_add_keeps_ids(
    store: StoreModel,
    payload: VotePayloadView,
    voter_id: Seq<char>,
    now: u64,
)
    requires
        store.keyed_by_id(),
        store.ids_issued(),
        store.next_id <= u64::MAX,
    ensures
        store.add_vote(payload, voter_id, now).keyed_by_id(),
        store.add_vote(payload, voter_id, now).ids_issued(),
{
}

/// What holds of the ids of a store goes on holding through any calls, as
/// long as the counter has not run past the ids by the end of them.
pub proof fn law_calls_keep_ids(start: StoreModel, calls: Seq<Call>)
    requires
        start.keyed_by_id(),
        start.ids_issued(),
        start.after_calls(calls).next_id <= u64::MAX,
    ensures
        start.after_calls(calls).keyed_by_id(),
        start.after_calls(calls).ids_issued(),
    decreases calls.len(),
{
    if calls.len() > 0 {
        let before = start.after_calls(calls.drop_last());
        assert(before.next_id <= before.after(calls.last()).next_id);
        law_calls_keep_ids(start, calls.drop_last());
        match calls.last() {
            Call::Add { payload, voter_id, now } => {
                law_add_keeps_ids(before, payload, voter_id, now);
            },
            Call::Modify { id, payload, now } => {
                law_modify_keeps_ids(before, id, payload, now);
            },
            Call::Read => {},
            Call::Restart => {},
        }
    }
}

/// A change touches the candidate, the proof and the timestamp of one vote:
/// its id and its voter stay, and so does every other vote.
pub proof fn law_modify_changes_one_vote(
    store: StoreModel,
    id: u64,
    payload: VotePayloadView,
    now: u64,
    other: u64,
)
    requires
        store.keyed_by_id(),
        store.votes.contains_key(id),
        other != id,
    ensures
        store.modify_vote(id, payload, now).get(id) == Some(
            VoteView {
                id,
                voter_id: store.votes[id].voter_id,
                candidate: payload.candidate,
                timestamp: now,
                proof: payload.proof,
            },
        ),
        store.modify_vote(id, payload, now).get(other) == store.get(other),
{
}

/// What holds of the ids of a store goes on holding when a vote is changed.
pub proof fn law_modify_keeps_ids(
    store: StoreModel,
    id: u64,
    payload: VotePayloadView,
    now: u64,
)
    requires
        store.keyed_by_id(),
        store.ids_issued(),
    ensures
        store.modify_vote(id, payload, now).keyed_by_id(),
        store.modify_vote(id, payload, now).ids_issued(),
        store.modify_vote(id, payload, now).next_id == store.next_id,
{
}

/// A vote that was inserted is found under its id as it went in, and no other
/// id is touched.
pub proof fn law_insert_then_get(store: StoreModel, vote: VoteView, other: u64)
    ensures
        store.insert(vote).get(vote.id) == Some(vote),
        other != vote.id ==> store.insert(vote).get(other) == store.get(other),
{
}

/// An id that the counter has not given out yet finds no vote; an empty
/// store finds none under any id.
pub proof fn law_unissued_id_is_absent(store: StoreModel, id: u64)
    requires
        store.ids_issued(),
        id >= store.next_id,
    ensures
        store.get(id) is None,
        StoreModel::empty().get(id) is None,
{
}

/// The proof check accepts the proof that is stored and no other.
pub proof fn law_only_stored_proof_matches(store: StoreModel, id: u64, proof: Seq<char>)
    requires
        store.votes.contains_key(id),
    ensures
        store.proof_matches(id, store.votes[id].proof),
        proof != store.votes[id].proof ==> !store.proof_matches(id, proof),
{
}

} // verus!
