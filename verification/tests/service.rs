use vote_store::stable::StableMemory;
use vote_store::store::VoteStore;
use vote_store::vote::{Error, Vote, VotePayload};

fn payload(candidate: &str, proof: &str) -> VotePayload {
    VotePayload { candidate: candidate.to_string(), proof: proof.to_string() }
}

fn fresh() -> VoteStore {
    VoteStore::new(StableMemory::new()).unwrap()
}

fn vote(id: u64, voter_id: &str, candidate: &str, timestamp: u64, proof: &str) -> Vote {
    Vote {
        id,
        voter_id: voter_id.to_string(),
        candidate: candidate.to_string(),
        timestamp,
        proof: proof.to_string(),
    }
}

fn not_found(msg: &str) -> Error {
    Error::NotFound { msg: msg.to_string() }
}

#[test]
fn add_vote_accepts_a_complete_request() {
    let mut store = fresh();
    let added = store.add_vote(payload("candidate", "proof"), "voter".to_string(), 7);
    assert_eq!(added, Ok(vote(0, "voter", "candidate", 7, "proof")));
    assert_eq!(store.get_vote(0), added);
    assert_eq!(store.current(), 1);
}

#[test]
fn add_vote_refuses_an_empty_candidate() {
    let mut store = fresh();
    let refused = store.add_vote(payload("", "proof"), "voter".to_string(), 7);
    assert_eq!(
        refused,
        Err(Error::InvalidInput { msg: "Candidate name cannot be empty".to_string() })
    );
    assert_eq!(store.current(), 0);
    assert!(store.get_all_votes().is_empty());
}

#[test]
fn add_vote_refuses_an_empty_voter() {
    let mut store = fresh();
    let refused = store.add_vote(payload("candidate", "proof"), String::new(), 7);
    assert_eq!(refused, Err(Error::InvalidInput { msg: "Voter ID cannot be empty".to_string() }));
    assert_eq!(store.current(), 0);
    assert!(store.get_all_votes().is_empty());
}

#[test]
fn add_vote_names_the_voter_first_when_both_are_empty() {
    let mut store = fresh();
    let refused = store.add_vote(payload("", ""), String::new(), 7);
    assert_eq!(refused, Err(Error::InvalidInput { msg: "Voter ID cannot be empty".to_string() }));
}

#[test]
fn add_vote_accepts_an_empty_proof() {
    let mut store = fresh();
    let added = store.add_vote(payload("A", ""), "v".to_string(), 1);
    assert_eq!(added, Ok(vote(0, "v", "A", 1, "")));
}

#[test]
fn ids_strictly_increase_from_zero() {
    let mut store = fresh();
    let mut last = None;
    for round in 0..20u64 {
        let added = store.add_vote(payload("A", "p"), "v".to_string(), round).unwrap();
        assert_eq!(added.id, round);
        if let Some(before) = last {
            assert!(before < added.id);
        }
        last = Some(added.id);
    }
    assert_eq!(store.current(), 20);
}

#[test]
fn a_refused_request_uses_no_id() {
    let mut store = fresh();
    assert_eq!(store.add_vote(payload("A", "p"), "v".to_string(), 1).unwrap().id, 0);
    assert!(store.add_vote(payload("", "p"), "v".to_string(), 1).is_err());
    assert!(store.add_vote(payload("A", "p"), String::new(), 1).is_err());
    assert_eq!(store.add_vote(payload("B", "q"), "w".to_string(), 2).unwrap().id, 1);
}

#[test]
fn ids_go_on_after_a_restart() {
    let mut store = fresh();
    let first = store.add_vote(payload("A", "pa"), "v1".to_string(), 10).unwrap();
    let second = store.add_vote(payload("B", "pb"), "v2".to_string(), 11).unwrap();
    assert_eq!((first.id, second.id), (0, 1));

    let mut again = store.reopened();
    assert!(again.is_consistent());
    assert_eq!(again.current(), 2);
    assert_eq!(again.get_vote(0), Ok(first));
    assert_eq!(again.get_vote(1), Ok(second));
    let third = again.add_vote(payload("C", "pc"), "v3".to_string(), 12).unwrap();
    assert_eq!(third.id, 2);
    assert_eq!(again.get_all_votes().len(), 3);

    let mut once_more = again.reopened();
    assert_eq!(once_more.current(), 3);
    assert_eq!(once_more.get_vote(2), Ok(third));
    assert_eq!(once_more.add_vote(payload("D", "pd"), "v4".to_string(), 13).unwrap().id, 3);
}

#[test]
fn a_reopened_store_holds_what_it_held() {
    let mut store = fresh();
    for round in 0..40u64 {
        store.add_vote(payload("A", "p"), format!("voter{}", round), round).unwrap();
    }
    store.modify_vote(7, payload("B", "q"), 99).unwrap();
    store.do_insert(&vote(1000, "late", "C", 5, "r"));
    let before = store.get_all_votes();
    let counter = store.current();

    let again = store.reopened();
    assert_eq!(again.get_all_votes(), before);
    assert_eq!(again.current(), counter);
    assert_eq!(again.get_vote(7), Ok(vote(7, "voter7", "B", 99, "q")));
    assert_eq!(again.get_vote_count("A".to_string()), 39);
}

#[test]
fn a_reopened_empty_store_is_empty() {
    let again = fresh().reopened();
    assert_eq!(again.current(), 0);
    assert!(again.get_all_votes().is_empty());
    assert!(again.is_consistent());
}

#[test]
fn init_on_an_empty_memory_gives_an_empty_store() {
    let mut store = VoteStore::init(StableMemory::new()).unwrap();
    assert!(store.is_consistent());
    assert_eq!(store.current(), 0);
    assert!(store.get_all_votes().is_empty());
    assert_eq!(store.add_vote(payload("A", "p"), "v".to_string(), 1).unwrap().id, 0);
}

#[test]
fn two_stores_on_two_memories_do_not_meet() {
    let mut one = fresh();
    let mut other = fresh();
    one.add_vote(payload("A", "p"), "v".to_string(), 1).unwrap();
    other.add_vote(payload("B", "q"), "w".to_string(), 2).unwrap();
    other.add_vote(payload("C", "r"), "x".to_string(), 3).unwrap();
    assert_eq!(one.get_all_votes(), vec![vote(0, "v", "A", 1, "p")]);
    assert_eq!(other.get_vote(0), Ok(vote(0, "w", "B", 2, "q")));
    assert_eq!(one.current(), 1);
    assert_eq!(other.current(), 2);
}

#[test]
fn increment_and_get_hands_out_the_value_before() {
    let mut store = fresh();
    assert_eq!(store.current(), 0);
    assert_eq!(store.increment_and_get(), 0);
    assert_eq!(store.current(), 1);
    assert_eq!(store.increment_and_get(), 1);
    assert_eq!(store.increment_and_get(), 2);
    assert_eq!(store.current(), 3);
    assert_eq!(store.current(), 3);
}

#[test]
fn insert_then_get_gives_the_vote_back() {
    let mut store = fresh();
    let cast = vote(42, "voter \u{1F5F3}", "Zo\u{00EB} \u{4E2D}\u{6587}", u64::MAX, "pr\u{00F6}\u{00F6}f\n");
    store.do_insert(&cast);
    assert_eq!(store._get_vote(&42), Some(cast.clone()));
    assert_eq!(store.get_vote(42), Ok(cast));
    assert_eq!(store._get_vote(&41), None);
}

#[test]
fn insert_overwrites_the_vote_under_the_same_id() {
    let mut store = fresh();
    store.do_insert(&vote(3, "v", "A", 1, "p"));
    store.do_insert(&vote(3, "w", "B", 2, "q"));
    assert_eq!(store._get_vote(&3), Some(vote(3, "w", "B", 2, "q")));
    assert_eq!(store.get_all_votes(), vec![vote(3, "w", "B", 2, "q")]);
}

#[test]
fn insert_leaves_the_counter_alone() {
    let mut store = fresh();
    store.do_insert(&vote(9, "v", "A", 1, "p"));
    assert_eq!(store.current(), 0);
}

#[test]
fn get_vote_of_an_id_never_inserted_is_not_found() {
    let mut store = fresh();
    assert_eq!(store.get_vote(0), Err(not_found("Vote with id=0 not found")));
    store.add_vote(payload("A", "p"), "v".to_string(), 1).unwrap();
    assert_eq!(store.get_vote(1), Err(not_found("Vote with id=1 not found")));
    assert_eq!(
        store.get_vote(u64::MAX),
        Err(not_found("Vote with id=18446744073709551615 not found"))
    );
}

#[test]
fn modify_vote_of_a_missing_id_is_not_found() {
    let mut store = fresh();
    store.add_vote(payload("A", "p"), "v".to_string(), 1).unwrap();
    assert_eq!(
        store.modify_vote(17, payload("B", "q"), 2),
        Err(not_found("Vote with id=17 not found for modification"))
    );
    assert_eq!(store.get_all_votes(), vec![vote(0, "v", "A", 1, "p")]);
    assert_eq!(store.current(), 1);
}

#[test]
fn check_zkp_validity_of_a_missing_id_is_not_found() {
    let store = fresh();
    assert_eq!(
        store.check_zkp_validity(120, "p".to_string()),
        Err(not_found("Vote with id=120 not found to check ZKP"))
    );
}

#[test]
fn modify_vote_changes_candidate_proof_and_timestamp_only() {
    let mut store = fresh();
    store.add_vote(payload("Z", "pz"), "v0".to_string(), 50).unwrap();
    let before = store.add_vote(payload("A", "proof1"), "v1".to_string(), 100).unwrap();
    assert_eq!(before.id, 1);

    let changed = store.modify_vote(1, payload("B", "proof2"), 250).unwrap();
    assert_eq!(changed, vote(1, "v1", "B", 250, "proof2"));
    assert!(changed.timestamp >= before.timestamp);
    assert_eq!(store.get_vote(1), Ok(changed));
    assert_eq!(store.get_vote(0), Ok(vote(0, "v0", "Z", 50, "pz")));
    assert_eq!(store.current(), 2);
}

#[test]
fn modify_vote_takes_an_empty_candidate() {
    let mut store = fresh();
    store.add_vote(payload("A", "p"), "v".to_string(), 1).unwrap();
    assert_eq!(store.modify_vote(0, payload("", ""), 2), Ok(vote(0, "v", "", 2, "")));
}

#[test]
fn get_all_votes_is_in_ascending_order_of_id() {
    let mut store = fresh();
    for id in [30u64, 2, 500, 0, 11, 4_000_000_000, 7] {
        store.do_insert(&vote(id, "v", "A", id, "p"));
    }
    let ids: Vec<u64> = store.get_all_votes().iter().map(|v| v.id).collect();
    assert_eq!(ids, vec![0, 2, 7, 11, 30, 500, 4_000_000_000]);
}

#[test]
fn get_all_votes_lists_many_votes() {
    let mut store = fresh();
    for round in 0..300u64 {
        store.add_vote(payload("A", "p"), format!("voter{}", round), round).unwrap();
    }
    let all = store.get_all_votes();
    assert_eq!(all.len(), 300);
    for (at, listed) in all.iter().enumerate() {
        assert_eq!(listed.id, at as u64);
        assert_eq!(listed.voter_id, format!("voter{}", at));
    }
}

#[test]
fn get_vote_count_counts_exact_matches() {
    let mut store = fresh();
    store.add_vote(payload("A", "p"), "v1".to_string(), 1).unwrap();
    store.add_vote(payload("A", "p"), "v2".to_string(), 2).unwrap();
    store.add_vote(payload("B", "p"), "v3".to_string(), 3).unwrap();
    assert_eq!(store.get_vote_count("A".to_string()), 2);
    assert_eq!(store.get_vote_count("B".to_string()), 1);
    assert_eq!(store.get_vote_count("C".to_string()), 0);
    assert_eq!(store.get_vote_count("a".to_string()), 0);
    assert_eq!(store.get_vote_count("A ".to_string()), 0);
    assert_eq!(store.get_vote_count(String::new()), 0);
}

#[test]
fn get_vote_count_of_an_empty_store_is_zero() {
    assert_eq!(fresh().get_vote_count("A".to_string()), 0);
}

#[test]
fn get_vote_count_follows_a_change_of_candidate() {
    let mut store = fresh();
    store.add_vote(payload("A", "p"), "v1".to_string(), 1).unwrap();
    store.add_vote(payload("A", "p"), "v2".to_string(), 2).unwrap();
    store.modify_vote(0, payload("B", "p"), 3).unwrap();
    assert_eq!(store.get_vote_count("A".to_string()), 1);
    assert_eq!(store.get_vote_count("B".to_string()), 1);
}

#[test]
fn get_voters_vote_finds_the_vote_of_that_voter() {
    let mut store = fresh();
    let first = store.add_vote(payload("A", "pa"), "v1".to_string(), 1).unwrap();
    let second = store.add_vote(payload("B", "pb"), "v2".to_string(), 2).unwrap();
    assert_eq!(store.get_voters_vote("v1".to_string()), Ok(first));
    assert_eq!(store.get_voters_vote("v2".to_string()), Ok(second));
}

#[test]
fn get_voters_vote_gives_the_least_id_of_several() {
    let mut store = fresh();
    store.add_vote(payload("A", "p"), "other".to_string(), 1).unwrap();
    store.add_vote(payload("B", "p"), "twice".to_string(), 2).unwrap();
    store.add_vote(payload("C", "p"), "twice".to_string(), 3).unwrap();
    assert_eq!(store.get_voters_vote("twice".to_string()), Ok(vote(1, "twice", "B", 2, "p")));
}

#[test]
fn get_voters_vote_of_an_unknown_voter_is_not_found() {
    let mut store = fresh();
    assert_eq!(
        store.get_voters_vote("v1".to_string()),
        Err(not_found("No vote found for voter ID v1"))
    );
    store.add_vote(payload("A", "p"), "v1".to_string(), 1).unwrap();
    assert_eq!(
        store.get_voters_vote("V1".to_string()),
        Err(not_found("No vote found for voter ID V1"))
    );
    assert_eq!(store.get_voters_vote(String::new()), Err(not_found("No vote found for voter ID ")));
}

#[test]
fn check_zkp_validity_accepts_the_stored_proof_only() {
    let mut store = fresh();
    let added = store.add_vote(payload("A", "stored proof"), "v".to_string(), 1).unwrap();
    assert_eq!(store.check_zkp_validity(added.id, "stored proof".to_string()), Ok(true));
    assert_eq!(store.check_zkp_validity(added.id, "wrong".to_string()), Ok(false));
    assert_eq!(store.check_zkp_validity(added.id, "stored proof ".to_string()), Ok(false));
    assert_eq!(store.check_zkp_validity(added.id, String::new()), Ok(false));
}

#[test]
fn check_zkp_validity_follows_a_change_of_proof() {
    let mut store = fresh();
    store.add_vote(payload("A", "one"), "v".to_string(), 1).unwrap();
    store.modify_vote(0, payload("A", "two"), 2).unwrap();
    assert_eq!(store.check_zkp_validity(0, "one".to_string()), Ok(false));
    assert_eq!(store.check_zkp_validity(0, "two".to_string()), Ok(true));
}

#[test]
fn a_store_filled_by_add_vote_is_consistent() {
    let mut store = fresh();
    assert!(store.is_consistent());
    store.add_vote(payload("A", "p"), "v".to_string(), 1).unwrap();
    store.add_vote(payload("B", "q"), "w".to_string(), 2).unwrap();
    store.modify_vote(1, payload("C", "r"), 3).unwrap();
    assert!(store.is_consistent());
}

#[test]
fn a_vote_under_an_id_not_given_out_is_not_consistent() {
    let mut store = fresh();
    store.do_insert(&vote(0, "v", "A", 1, "p"));
    assert!(!store.is_consistent());
    assert_eq!(store.increment_and_get(), 0);
    assert!(store.is_consistent());
    store.do_insert(&vote(1, "v", "A", 1, "p"));
    assert!(!store.is_consistent());
}

#[test]
fn a_record_of_the_greatest_size_is_stored_and_read_back() {
    let mut store = fresh();
    let room = 1024 - 28;
    let cast = vote(0, "v", "A", 1, &"x".repeat(room - 2));
    assert!(cast.fits());
    store.increment_and_get();
    store.do_insert(&cast);
    assert_eq!(store.get_vote(0), Ok(cast));
}

#[test]
fn checked_hands_on_a_consistent_store_only() {
    let mut store = fresh();
    store.add_vote(payload("A", "p"), "v".to_string(), 1).unwrap();
    let kept = store.checked();
    assert!(kept.is_some());
    let mut store = kept.unwrap();
    assert_eq!(store.get_all_votes(), vec![vote(0, "v", "A", 1, "p")]);
    assert_eq!(store.current(), 1);

    store.do_insert(&vote(8, "w", "B", 2, "q"));
    assert!(store.checked().is_none());
}
