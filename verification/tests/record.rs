use vote_store::record::texts_fit;
use vote_store::vote::{Vote, VotePayload};

fn sample(id: u64, voter_id: &str, candidate: &str, timestamp: u64, proof: &str) -> Vote {
    Vote {
        id,
        voter_id: voter_id.to_string(),
        candidate: candidate.to_string(),
        timestamp,
        proof: proof.to_string(),
    }
}

fn small_record() -> Vec<u8> {
    vec![
        1, 0, 0, 0, 0, 0, 0, 0, // id
        2, 0, 0, 0, 0, 0, 0, 0, // timestamp
        2, 0, 0, 0, b'v', b'1', // voter
        1, 0, 0, 0, b'A', // candidate
        3, 0, 0, 0, b'p', b'q', b'r', // proof
    ]
}

#[test]
fn to_bytes_lays_out_a_small_vote() {
    assert_eq!(sample(1, "v1", "A", 2, "pqr").to_bytes(), small_record());
}

#[test]
fn to_bytes_writes_numbers_little_endian() {
    let bytes = sample(0x0102030405060708, "", "", 0xA1A2A3A4A5A6A7A8, "").to_bytes();
    assert_eq!(
        bytes,
        vec![
            8, 7, 6, 5, 4, 3, 2, 1, 0xA8, 0xA7, 0xA6, 0xA5, 0xA4, 0xA3, 0xA2, 0xA1, 0, 0, 0, 0, 0,
            0, 0, 0, 0, 0, 0, 0
        ]
    );
}

#[test]
fn to_bytes_counts_bytes_not_characters() {
    let bytes = sample(0, "\u{00E9}", "\u{4E2D}", 0, "\u{1F5F3}").to_bytes();
    assert_eq!(bytes.len(), 28 + 2 + 3 + 4);
    assert_eq!(&bytes[16..22], &[2, 0, 0, 0, 0xC3, 0xA9]);
    assert_eq!(&bytes[22..29], &[3, 0, 0, 0, 0xE4, 0xB8, 0xAD]);
    assert_eq!(&bytes[29..37], &[4, 0, 0, 0, 0xF0, 0x9F, 0x97, 0xB3]);
}

#[test]
fn from_bytes_reads_a_small_vote() {
    assert_eq!(Vote::from_bytes(&small_record()), Some(sample(1, "v1", "A", 2, "pqr")));
}

#[test]
fn from_bytes_undoes_to_bytes() {
    let votes = [
        sample(0, "", "", 0, ""),
        sample(u64::MAX, "voter", "candidate", u64::MAX, "proof"),
        sample(7, "\u{1F5F3} voter", "Zo\u{00EB}", 1_700_000_000_000_000_000, "\u{0000}\n\t"),
        sample(3, &"v".repeat(300), &"c".repeat(300), 9, &"p".repeat(396)),
    ];
    for vote in votes {
        assert!(vote.fits());
        assert_eq!(Vote::from_bytes(&vote.to_bytes()), Some(vote));
    }
}

#[test]
fn from_bytes_refuses_a_record_cut_short() {
    let record = small_record();
    for len in 0..record.len() {
        assert_eq!(Vote::from_bytes(&record[..len]), None, "cut at {}", len);
    }
}

#[test]
fn from_bytes_refuses_bytes_after_the_proof() {
    let mut record = small_record();
    record.push(0);
    assert_eq!(Vote::from_bytes(&record), None);
}

#[test]
fn from_bytes_refuses_a_length_past_the_end() {
    let mut record = small_record();
    record[22] = 200;
    assert_eq!(Vote::from_bytes(&record), None);
    let mut record = small_record();
    record[19] = 0xFF;
    assert_eq!(Vote::from_bytes(&record), None);
}

#[test]
fn from_bytes_refuses_text_that_is_not_utf8() {
    let mut record = small_record();
    record[26] = 0xFF;
    assert_eq!(Vote::from_bytes(&record), None);
    let mut record = small_record();
    record[20] = 0xC3;
    assert_eq!(Vote::from_bytes(&record), None);
}

#[test]
fn from_bytes_reads_an_empty_vote() {
    assert_eq!(Vote::from_bytes(&[0u8; 28]), Some(sample(0, "", "", 0, "")));
    assert_eq!(Vote::from_bytes(&[0u8; 27]), None);
    assert_eq!(Vote::from_bytes(&[0u8; 29]), None);
}

#[test]
fn fits_allows_a_record_of_1024_bytes_and_no_more() {
    let room = 1024 - 28;
    assert!(sample(0, &"v".repeat(room), "", 0, "").fits());
    assert!(!sample(0, &"v".repeat(room + 1), "", 0, "").fits());
    assert!(sample(0, &"v".repeat(room - 10), "cand", 0, "proofs").fits());
    assert!(!sample(0, &"v".repeat(room - 10), "cand", 0, "proofs!").fits());
    assert!(sample(0, "", "", 0, "").fits());
    assert_eq!(sample(5, &"v".repeat(room - 10), "cand", 6, "proofs").to_bytes().len(), 1024);
}

#[test]
fn fits_counts_bytes_not_characters() {
    let room = 1024 - 28;
    assert!(sample(0, &"\u{00E9}".repeat(room / 2), "", 0, "").fits());
    assert!(!sample(0, &"\u{00E9}".repeat(room / 2 + 1), "", 0, "").fits());
}

#[test]
fn texts_fit_agrees_with_fits() {
    let room = 1024 - 28;
    assert!(texts_fit("v", "A", "p"));
    assert!(texts_fit("", "", ""));
    assert!(texts_fit(&"v".repeat(room), "", ""));
    assert!(texts_fit("", &"c".repeat(room), ""));
    assert!(texts_fit("", "", &"p".repeat(room)));
    assert!(!texts_fit(&"v".repeat(room), "c", ""));
    assert!(!texts_fit("", &"c".repeat(room), "p"));
    assert!(!texts_fit(&"v".repeat(2000), &"c".repeat(2000), &"p".repeat(2000)));
}

#[test]
fn default_vote_and_payload_are_empty() {
    assert_eq!(Vote::default(), sample(0, "", "", 0, ""));
    assert_eq!(VotePayload::default(), VotePayload { candidate: String::new(), proof: String::new() });
}

#[test]
fn a_clone_of_a_vote_equals_it() {
    let vote = sample(4, "v", "A", 5, "p");
    assert_eq!(vote.clone(), vote);
}

#[test]
fn from_bytes_undoes_to_bytes_of_a_record_too_large_to_store() {
    let vote = sample(9, &"v".repeat(5000), &"\u{00E9}".repeat(70_000), 10, &"p".repeat(3));
    assert!(!vote.fits());
    let bytes = vote.to_bytes();
    assert_eq!(bytes.len(), 28 + 5000 + 140_000 + 3);
    assert_eq!(&bytes[16..20], &[0x88, 0x13, 0, 0]);
    assert_eq!(&bytes[5020..5024], &[0xE0, 0x22, 0x02, 0]);
    assert_eq!(Vote::from_bytes(&bytes), Some(vote));
}
