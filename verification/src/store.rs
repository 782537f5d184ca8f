//! The vote store: a durable counter and a durable map of records, and the
//! operations on votes that are built on the two.

use crate::model::{
    lemma_listed_for_none, lemma_listed_for_push, lemma_listed_for_snapshot,
    lemma_snapshot_len, listed_for, StoreModel,
};
use crate::record::{decode_record, fits_record, law_record_round_trip};
use crate::layout::{cell_opens, manager_opens, map_opens};
use crate::stable::{
    counter_create, counter_get, counter_open, counter_reopen, counter_set, counter_value,
    is_listing, manager_loads, map_create, map_entries, map_get, map_insert, map_open,
    map_records, map_reopen, memory_bytes, split, CounterCell, RecordMap, StableMemory,
};
use crate::vote::{
    input_refused, missing_vote, refused_input, unknown_voter, views, vote_missing,
    voter_unknown, Error, Vote, VotePayload,
};
use vstd::prelude::*;

verus! {

/// The region of the memory that holds the counter.
pub const COUNTER_REGION: u8 = 0;

/// The region of the memory that holds the records.
pub const RECORDS_REGION: u8 = 1;

/// A store of votes in two regions of one memory.
pub struct VoteStore {
    counter: CounterCell,
    records: RecordMap,
}

impl View for VoteStore {
    type V = StoreModel;

    /// The counter, and each record read as the vote it holds.
    closed spec fn view(&self) -> StoreModel {
        StoreModel {
            next_id: counter_value(&self.counter) as nat,
            votes: Map::new(
                |id: u64| map_records(&self.records).contains_key(id),
                |id: u64| decode_record(map_records(&self.records)[id]).unwrap(),
            ),
        }
    }
}

impl VoteStore {
    /// Every record holds a vote, and is stored under that vote's id.
    pub closed spec fn wf(&self) -> bool {
        forall|id: u64| #[trigger]
            map_records(&self.records).contains_key(id) ==> {
                &&& decode_record(map_records(&self.records)[id]) is Some
                &&& decode_record(map_records(&self.records)[id]).unwrap().id == id
            }
    }

    /// A store that is well formed keeps every vote under its own id. Its
    /// counter is a `u64`.
    pub proof fn lemma_wf(&self)
        requires
            self.wf(),
        ensures
            self@.keyed_by_id(),
            self@.next_id <= u64::MAX,
    {
    }

    /// A new, empty store in `memory`, written over whatever it held. There
    /// is none where the memory cannot be split: where it starts with the
    /// mark of a memory manager of another layout.
    pub fn new(memory: StableMemory) -> (made: Option<VoteStore>)
        ensures
            made is Some <==> manager_loads(memory_bytes(&memory)),
            made matches Some(store) ==> store.wf() && store@ == StoreModel::empty(),
    {
        if !manager_opens(&memory) {
            return None;
        }
        let (counter_region, records_region) = split(memory, COUNTER_REGION, RECORDS_REGION);
        let counter = counter_create(counter_region, 0);
        let records = map_create(records_region);
        let store = VoteStore { counter, records };
        assert(store@.votes =~= StoreModel::empty().votes);
        Some(store)
    }

    /// The store that `memory` holds, or a new one where it holds none. On a
    /// canister, what the stable memory holds is the environment: it is not
    /// known before it is read. So the memory and its two regions are looked
    /// at before they are opened, the store is looked through once, and it is
    /// handed out only if all of it is in order. A store that this library
    /// wrote is; `reopened` says what it holds.
    pub fn init(memory: StableMemory) -> (opened: Option<VoteStore>)
        ensures
            opened matches Some(store) ==> store.wf() && store@.ids_issued(),
            opened is Some ==> manager_loads(memory_bytes(&memory)),
    {
        if !manager_opens(&memory) {
            return None;
        }
        let (counter_region, records_region) = split(memory, COUNTER_REGION, RECORDS_REGION);
        if !cell_opens(&counter_region) || !map_opens(&records_region) {
            return None;
        }
        let counter = counter_open(counter_region, 0);
        let records = map_open(records_region);
        let store = VoteStore { counter, records };
        store.checked()
    }

    /// The store after a restart: the counter and the records are let go and
    /// read anew from the regions they were written to. Nothing is lost and
    /// nothing changes.
    pub fn reopened(self) -> (again: VoteStore)
        ensures
            again@ == self@,
            self.wf() ==> again.wf(),
    {
        let counter = counter_reopen(self.counter, 0);
        let records = map_reopen(self.records);
        let again = VoteStore { counter, records };
        assert(again@.votes =~= self@.votes);
        again
    }

    /// Hands the store on if it is consistent, and keeps it back if not. This
    /// is what decides whether a store that was opened is handed out.
    pub fn checked(self) -> (kept: Option<VoteStore>)
        ensures
            match kept {
                Some(store) => store == self && self.wf() && self@.ids_issued(),
                None => !(self.wf() && self@.ids_issued()),
            },
    {
        if self.is_consistent() {
            Some(self)
        } else {
            None
        }
    }

    /// The id that the next vote gets.
    pub fn current(&self) -> (id: u64)
        ensures
            id == self@.next_id,
    {
        counter_get(&self.counter)
    }

    /// Gives out the next id and moves the counter past it.
    pub fn increment_and_get(&mut self) -> (id: u64)
        requires
            old(self)@.next_id < u64::MAX,
        ensures
            id == old(self)@.next_id,
            final(self)@ == old(self)@.minted(),
            old(self).wf() ==> final(self).wf(),
    {
        let current = counter_get(&self.counter);
        let id = counter_set(&mut self.counter, current + 1);
        assert(self@.votes =~= old(self)@.votes);
        id
    }

    /// Stores `vote` under its id, over any vote that was there.
    pub fn do_insert(&mut self, vote: &Vote)
        requires
            old(self).wf(),
            fits_record(vote@),
        ensures
            final(self).wf(),
            final(self)@ == old(self)@.insert(vote@),
    {
        let bytes = vote.to_bytes();
        map_insert(&mut self.records, vote.id, bytes.as_slice());
        proof {
            law_record_round_trip(vote@);
            assert(self@.votes =~= old(self)@.votes.insert(vote.id, vote@));
        }
    }

    /// The vote under `id`, if there is one.
    pub fn _get_vote(&self, id: &u64) -> (found: Option<Vote>)
        requires
            self.wf(),
        ensures
            match found {
                Some(vote) => self@.get(*id) == Some(vote@),
                None => self@.get(*id) is None,
            },
    {
        match map_get(&self.records, *id) {
            Some(bytes) => Vote::from_bytes(bytes.as_slice()),
            None => None,
        }
    }

    /// Adds a vote of `voter_id` for the payload's candidate, under the next
    /// id and with `now` as its timestamp. A request without a voter or
    /// without a candidate is refused and changes nothing.
    pub fn add_vote(&mut self, vote_payload: VotePayload, voter_id: String, now: u64) -> (added:
        Result<Vote, Error>)
        requires
            old(self).wf(),
            StoreModel::accepts(vote_payload@, voter_id@) ==> old(self)@.next_id < u64::MAX
                && fits_record(old(self)@.new_vote(vote_payload@, voter_id@, now)),
        ensures
            final(self).wf(),
            final(self)@ == old(self)@.add_vote(vote_payload@, voter_id@, now),
            match added {
                Ok(vote) => StoreModel::accepts(vote_payload@, voter_id@) && vote@ == old(
                    self,
                )@.new_vote(vote_payload@, voter_id@, now),
                Err(error) => if voter_id@.len() == 0 {
                    error@ == refused_input("Voter ID cannot be empty"@)
                } else {
                    vote_payload@.candidate.len() == 0 && error@ == refused_input(
                        "Candidate name cannot be empty"@,
                    )
                },
            },
            old(self)@.ids_issued() ==> final(self)@.ids_issued(),
    {
        if voter_id.as_str().is_empty() {
            return Err(input_refused("Voter ID cannot be empty"));
        }
        if vote_payload.candidate.as_str().is_empty() {
            return Err(input_refused("Candidate name cannot be empty"));
        }
        let id = self.increment_and_get();
        let vote = Vote {
            id,
            voter_id,
            candidate: vote_payload.candidate,
            timestamp: now,
            proof: vote_payload.proof,
        };
        self.do_insert(&vote);
        Ok(vote)
    }

    /// The vote under `id`, or the error that says there is none.
    pub fn get_vote(&self, id: u64) -> (found: Result<Vote, Error>)
        requires
            self.wf(),
        ensures
            match found {
                Ok(vote) => self@.get(id) == Some(vote@),
                Err(error) => self@.get(id) is None && error@ == missing_vote(
                    "Vote with id="@,
                    id,
                    " not found"@,
                ),
            },
    {
        match self._get_vote(&id) {
            Some(vote) => Ok(vote),
            None => Err(vote_missing("Vote with id=", id, " not found")),
        }
    }

    /// Gives the vote under `vote_id` the payload's candidate and proof, and
    /// `now` as its timestamp. Its id and its voter stay as they are.
    pub fn modify_vote(&mut self, vote_id: u64, new_vote: VotePayload, now: u64) -> (changed:
        Result<Vote, Error>)
        requires
            old(self).wf(),
            old(self)@.votes.contains_key(vote_id) ==> fits_record(
                old(self)@.changed_vote(vote_id, new_vote@, now),
            ),
        ensures
            final(self).wf(),
            final(self)@ == old(self)@.modify_vote(vote_id, new_vote@, now),
            match changed {
                Ok(vote) => old(self)@.votes.contains_key(vote_id) && vote@ == old(
                    self,
                )@.changed_vote(vote_id, new_vote@, now),
                Err(error) => !old(self)@.votes.contains_key(vote_id) && error@ == missing_vote(
                    "Vote with id="@,
                    vote_id,
                    " not found for modification"@,
                ),
            },
            old(self)@.ids_issued() ==> final(self)@.ids_issued(),
    {
        match self._get_vote(&vote_id) {
            Some(stored) => {
                let vote = Vote {
                    id: stored.id,
                    voter_id: stored.voter_id,
                    candidate: new_vote.candidate,
                    timestamp: now,
                    proof: new_vote.proof,
                };
                proof {
                    self.lemma_wf();
                }
                self.do_insert(&vote);
                Ok(vote)
            },
            None => Err(vote_missing("Vote with id=", vote_id, " not found for modification")),
        }
    }

    /// Every vote of the store, in ascending order of id.
    pub fn get_all_votes(&self) -> (votes: Vec<Vote>)
        requires
            self.wf(),
        ensures
            self@.is_snapshot(views(votes@)),
            self@.votes.dom().finite(),
            votes@.len() == self@.votes.dom().len(),
    {
        let entries = map_entries(&self.records);
        let mut votes: Vec<Vote> = Vec::new();
        let mut i: usize = 0;
        while i < entries.len()
            invariant
                self.wf(),
                is_listing(entries@, map_records(&self.records)),
                i <= entries.len(),
                votes.len() == i,
                forall|k: int|
                    0 <= k < i ==> (#[trigger] votes@[k])@ == self@.votes[entries@[k].0]
                        && votes@[k].id == entries@[k].0,
            decreases entries.len() - i,
        {
            assert(map_records(&self.records).contains_key(entries@[i as int].0));
            match Vote::from_bytes(entries[i].1.as_slice()) {
                Some(vote) => {
                    votes.push(vote);
                },
                None => {
                    assert(false);
                },
            }
            i += 1;
        }
        proof {
            let listed = views(votes@);
            assert forall|id: u64| #[trigger] self@.votes.contains_key(id) implies exists|k: int|
                0 <= k < listed.len() && listed[k].id == id by {
                assert(map_records(&self.records).contains_key(id));
                let k = choose|k: int| 0 <= k < entries@.len() && entries@[k].0 == id;
                assert(listed[k].id == id);
            }
            assert forall|k: int| 0 <= k < listed.len() implies self@.votes.contains_key(
                #[trigger] listed[k].id,
            ) && self@.votes[listed[k].id] == listed[k] by {
                assert(map_records(&self.records).contains_key(entries@[k].0));
            }
            lemma_snapshot_len(self@, listed);
        }
        votes
    }

    /// How many votes the store holds for exactly `candidate`.
    pub fn get_vote_count(&self, candidate: String) -> (count: u64)
        requires
            self.wf(),
        ensures
            self@.votes_for(candidate@).finite(),
            count == self@.votes_for(candidate@).len(),
    {
        let votes = self.get_all_votes();
        let ghost listed = views(votes@);
        let mut count: u64 = 0;
        let mut i: usize = 0;
        proof {
            lemma_listed_for_none(candidate@);
            assert(listed.take(0) =~= Seq::empty());
        }
        while i < votes.len()
            invariant
                listed == views(votes@),
                self@.is_snapshot(listed),
                i <= votes.len(),
                count <= i,
                listed_for(listed.take(i as int), candidate@).finite(),
                listed_for(listed.take(i as int), candidate@).len() == count,
            decreases votes.len() - i,
        {
            proof {
                lemma_listed_for_push(listed.take(i as int), listed[i as int], candidate@);
                assert(listed.take(i + 1) =~= listed.take(i as int).push(listed[i as int]));
            }
            if votes[i].candidate == candidate {
                count += 1;
            }
            i += 1;
        }
        proof {
            assert(listed.take(i as int) =~= listed);
            lemma_listed_for_snapshot(self@, listed, candidate@);
        }
        count
    }

    /// The vote of `voter_id` with the least id, or the error that says the
    /// store holds none of theirs.
    pub fn get_voters_vote(&self, voter_id: String) -> (found: Result<Vote, Error>)
        requires
            self.wf(),
        ensures
            match found {
                Ok(vote) => self@.is_first_of_voter(vote.id, voter_id@) && self@.get(vote.id)
                    == Some(vote@),
                Err(error) => !self@.has_voter(voter_id@) && error@ == unknown_voter(voter_id@),
            },
    {
        let votes = self.get_all_votes();
        let ghost listed = views(votes@);
        let mut i: usize = 0;
        while i < votes.len()
            invariant
                listed == views(votes@),
                self@.is_snapshot(listed),
                i <= votes.len(),
                forall|k: int| 0 <= k < i ==> (#[trigger] listed[k]).voter_id != voter_id@,
            decreases votes.len() - i,
        {
            if votes[i].voter_id == voter_id {
                let vote = votes[i].clone();
                proof {
                    assert(vote@ == listed[i as int]);
                    assert(self@.votes.contains_key(listed[i as int].id));
                    assert forall|other: u64| #[trigger]
                        self@.votes.contains_key(other) && self@.votes[other].voter_id
                            == voter_id@ implies vote.id <= other by {
                        let k = choose|k: int| 0 <= k < listed.len() && listed[k].id == other;
                        assert(self@.votes.contains_key(listed[k].id));
                        assert(listed[k].voter_id == voter_id@);
                    }
                }
                return Ok(vote);
            }
            i += 1;
        }
        proof {
            assert forall|id: u64| #[trigger] self@.votes.contains_key(id) implies self@.votes[id].voter_id
                != voter_id@ by {
                let k = choose|k: int| 0 <= k < listed.len() && listed[k].id == id;
                assert(self@.votes.contains_key(listed[k].id));
            }
        }
        Err(voter_unknown(voter_id.as_str()))
    }

    /// Whether `proof` is, character for character, the proof of the vote
    /// under `vote_id`. This compares tokens; it verifies nothing.
    pub fn check_zkp_validity(&self, vote_id: u64, proof: String) -> (checked: Result<bool, Error>)
        requires
            self.wf(),
        ensures
            match checked {
                Ok(valid) => self@.votes.contains_key(vote_id) && valid == self@.proof_matches(
                    vote_id,
                    proof@,
                ),
                Err(error) => !self@.votes.contains_key(vote_id) && error@ == missing_vote(
                    "Vote with id="@,
                    vote_id,
                    " not found to check ZKP"@,
                ),
            },
    {
        match self._get_vote(&vote_id) {
            Some(vote) => Ok(vote.proof == proof),
            None => Err(vote_missing("Vote with id=", vote_id, " not found to check ZKP")),
        }
    }

    /// Whether what the store holds is a vote store: every record holds a
    /// vote and is stored under that vote's id, and every id in use was given
    /// out by the counter.
    pub fn is_consistent(&self) -> (ok: bool)
        ensures
            ok == (self.wf() && self@.ids_issued()),
    {
        let next_id = counter_get(&self.counter);
        let entries = map_entries(&self.records);
        let mut i: usize = 0;
        while i < entries.len()
            invariant
                is_listing(entries@, map_records(&self.records)),
                next_id == counter_value(&self.counter),
                i <= entries.len(),
                forall|k: int|
                    0 <= k < i ==> {
                        &&& decode_record((#[trigger] entries@[k]).1@) is Some
                        &&& decode_record(entries@[k].1@).unwrap().id == entries@[k].0
                        &&& entries@[k].0 < next_id
                    },
            decreases entries.len() - i,
        {
            let key = entries[i].0;
            assert(map_records(&self.records).contains_key(entries@[i as int].0));
            let sound = match Vote::from_bytes(entries[i].1.as_slice()) {
                Some(vote) => vote.id == key && key < next_id,
                None => false,
            };
            if !sound {
                assert(self@.votes.contains_key(key));
                return false;
            }
            i += 1;
        }
        proof {
            assert forall|id: u64| #[trigger]
                map_records(&self.records).contains_key(id) implies {
                &&& decode_record(map_records(&self.records)[id]) is Some
                &&& decode_record(map_records(&self.records)[id]).unwrap().id == id
                &&& id < next_id
            } by {
                let k = choose|k: int| 0 <= k < entries@.len() && entries@[k].0 == id;
                assert(map_records(&self.records).contains_key(entries@[k].0));
            }
            assert forall|id: u64| #[trigger] self@.votes.contains_key(id) implies id
                < self@.next_id by {
                assert(map_records(&self.records).contains_key(id));
            }
        }
        true
    }
}

} // verus!
