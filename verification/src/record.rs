//! A vote as the bytes of one stored record.
//!
//! A record is the id and the timestamp, eight bytes each, then the voter, the
//! candidate and the proof, each as a four-byte length and that many bytes of
//! UTF-8. Numbers are little-endian. Nothing follows the proof.

use crate::stable::MAX_RECORD_SIZE;
use crate::text::text_from_utf8;
use crate::vote::{Vote, VoteView};
use vstd::bytes::*;
use vstd::prelude::*;
use vstd::slice::*;
use vstd::string::*;
use vstd::utf8::*;

verus! {

/// The bytes of a record that come before its three texts.
pub const RECORD_HEAD: usize = 16;

/// The bytes of a length in front of a text.
pub const LENGTH_SIZE: usize = 4;

/// One text of a record: its length in bytes, then its UTF-8 bytes.
pub open spec fn text_field(text: Seq<char>) -> Seq<u8> {
    spec_u32_to_le_bytes(encode_utf8(text).len() as u32) + encode_utf8(text)
}

/// The record that holds a vote.
pub open spec fn encode_record(vote: VoteView) -> Seq<u8> {
    spec_u64_to_le_bytes(vote.id) + spec_u64_to_le_bytes(vote.timestamp) + text_field(
        vote.voter_id,
    ) + text_field(vote.candidate) + text_field(vote.proof)
}

/// How many bytes the record of a vote takes.
pub open spec fn record_len(vote: VoteView) -> nat {
    RECORD_HEAD as nat + 3 * LENGTH_SIZE as nat + encode_utf8(vote.voter_id).len() + encode_utf8(
        vote.candidate,
    ).len() + encode_utf8(vote.proof).len()
}

/// Each text of the vote is short enough for its length to be written down
/// in four bytes.
pub open spec fn is_encodable(vote: VoteView) -> bool {
    &&& encode_utf8(vote.voter_id).len() <= u32::MAX
    &&& encode_utf8(vote.candidate).len() <= u32::MAX
    &&& encode_utf8(vote.proof).len() <= u32::MAX
}

/// The record of the vote is small enough to be stored.
pub open spec fn fits_record(vote: VoteView) -> bool {
    record_len(vote) <= MAX_RECORD_SIZE
}

/// The record of a vote with these three texts is small enough to be stored.
/// The id and the timestamp take the same room whatever they are.
pub open spec fn texts_fit_record(
    voter_id: Seq<char>,
    candidate: Seq<char>,
    proof: Seq<char>,
) -> bool {
    fits_record(VoteView { id: 0, voter_id, candidate, timestamp: 0, proof })
}

/// The text at the head of `bytes`, and how many bytes it takes there.
pub open spec fn read_text(bytes: Seq<u8>) -> Option<(Seq<char>, int)> {
    if bytes.len() < LENGTH_SIZE {
        None
    } else {
        let len = spec_u32_from_le_bytes(bytes.subrange(0, LENGTH_SIZE as int)) as int;
        let end = LENGTH_SIZE + len;
        if bytes.len() < end || !valid_utf8(bytes.subrange(LENGTH_SIZE as int, end)) {
            None
        } else {
            Some((decode_utf8(bytes.subrange(LENGTH_SIZE as int, end)), end))
        }
    }
}

/// The vote that a record holds, if the bytes are a record.
pub open spec fn decode_record(bytes: Seq<u8>) -> Option<VoteView> {
    if bytes.len() < RECORD_HEAD {
        None
    } else {
        match read_text(bytes.skip(RECORD_HEAD as int)) {
            None => None,
            Some((voter_id, a)) => match read_text(bytes.skip(RECORD_HEAD + a)) {
                None => None,
                Some((candidate, b)) => match read_text(bytes.skip(RECORD_HEAD + a + b)) {
                    None => None,
                    Some((proof, c)) => if RECORD_HEAD + a + b + c == bytes.len() {
                        Some(
                            VoteView {
                                id: spec_u64_from_le_bytes(bytes.subrange(0, 8)),
                                voter_id,
                                candidate,
                                timestamp: spec_u64_from_le_bytes(bytes.subrange(8, 16)),
                                proof,
                            },
                        )
                    } else {
                        None
                    },
                },
            },
        }
    }
}

/// A text field in front of any bytes reads back as its text.
pub proof fn lemma_read_text_field(text: Seq<char>, rest: Seq<u8>)
    requires
        encode_utf8(text).len() <= u32::MAX,
    ensures
        read_text(text_field(text) + rest) == Some(
            (text, LENGTH_SIZE as int + encode_utf8(text).len()),
        ),
        text_field(text).len() == LENGTH_SIZE + encode_utf8(text).len(),
{
    let body = encode_utf8(text);
    let len = body.len() as u32;
    let bytes = text_field(text) + rest;
    lemma_auto_spec_u32_to_from_le_bytes();
    assert(spec_u32_to_le_bytes(len).len() == 4);
    assert(bytes.subrange(0, LENGTH_SIZE as int) =~= spec_u32_to_le_bytes(len));
    assert(bytes.subrange(LENGTH_SIZE as int, LENGTH_SIZE + len) =~= body);
    encode_utf8_valid_utf8(text);
    encode_utf8_decode_utf8(text);
}

/// The record of a vote is as long as `record_len` says.
pub proof fn lemma_record_len(vote: VoteView)
    requires
        is_encodable(vote),
    ensures
        encode_record(vote).len() == record_len(vote),
{
    lemma_auto_spec_u64_to_from_le_bytes();
    lemma_read_text_field(vote.voter_id, Seq::empty());
    lemma_read_text_field(vote.candidate, Seq::empty());
    lemma_read_text_field(vote.proof, Seq::empty());
}

/// A vote is read back from its record as it was written, whatever the size
/// of the record, as long as the length of each text can be written down. So
/// no two votes share a record.
pub proof fn law_record_round_trip(vote: VoteView)
    requires
        is_encodable(vote),
    ensures
        decode_record(encode_record(vote)) == Some(vote),
{
    let bytes = encode_record(vote);
    let voter = text_field(vote.voter_id);
    let candidate = text_field(vote.candidate);
    let proof = text_field(vote.proof);
    let a = voter.len() as int;
    let b = candidate.len() as int;
    lemma_auto_spec_u64_to_from_le_bytes();
    lemma_record_len(vote);
    lemma_read_text_field(vote.voter_id, candidate + proof);
    lemma_read_text_field(vote.candidate, proof);
    lemma_read_text_field(vote.proof, Seq::empty());
    assert(bytes.subrange(0, 8) =~= spec_u64_to_le_bytes(vote.id));
    assert(bytes.subrange(8, 16) =~= spec_u64_to_le_bytes(vote.timestamp));
    assert(bytes.skip(RECORD_HEAD as int) =~= voter + (candidate + proof));
    assert(bytes.skip(RECORD_HEAD + a) =~= candidate + proof);
    assert(bytes.skip(RECORD_HEAD + a + b) =~= proof + Seq::empty());
}

/// Appends `bytes` to `out`.
fn push_all(out: &mut Vec<u8>, bytes: &[u8])
    ensures
        final(out)@ == old(out)@ + bytes@,
{
    out.extend_from_slice(bytes);
    assert(out@ =~= old(out)@ + bytes@);
}

/// Appends `text` to `out` as one field of a record.
fn push_text(out: &mut Vec<u8>, text: &str)
    requires
        encode_utf8(text@).len() <= u32::MAX,
    ensures
        final(out)@ == old(out)@ + text_field(text@),
{
    let body = text.as_bytes();
    let len = u32_to_le_bytes(body.len() as u32);
    push_all(out, len.as_slice());
    push_all(out, body);
    assert(out@ =~= old(out)@ + text_field(text@));
}

/// Reads the text field that starts at `at`, and says where it ends.
fn take_text(bytes: &[u8], at: usize) -> (taken: Option<(String, usize)>)
    requires
        at <= bytes@.len(),
    ensures
        match taken {
            Some((text, end)) => read_text(bytes@.skip(at as int)) == Some(
                (text@, end - at),
            ) && at <= end <= bytes@.len(),
            None => read_text(bytes@.skip(at as int)) is None,
        },
{
    let ghost tail = bytes@.skip(at as int);
    if bytes.len() - at < LENGTH_SIZE {
        return None;
    }
    let len = u32_from_le_bytes(slice_subrange(bytes, at, at + LENGTH_SIZE)) as usize;
    assert(bytes@.subrange(at as int, at + LENGTH_SIZE) =~= tail.subrange(0, LENGTH_SIZE as int));
    if bytes.len() - at - LENGTH_SIZE < len {
        return None;
    }
    let start = at + LENGTH_SIZE;
    let end = start + len;
    let body = slice_to_vec(slice_subrange(bytes, start, end));
    assert(body@ =~= tail.subrange(LENGTH_SIZE as int, LENGTH_SIZE + len));
    match text_from_utf8(body) {
        None => None,
        Some(text) => {
            proof {
                encode_utf8_decode_utf8(text@);
            }
            Some((text, end))
        },
    }
}

/// Whether the record of a vote with these three texts is small enough to be
/// stored.
pub fn texts_fit(voter_id: &str, candidate: &str, proof: &str) -> (ok: bool)
    ensures
        ok == texts_fit_record(voter_id@, candidate@, proof@),
{
    let room = MAX_RECORD_SIZE - RECORD_HEAD - 3 * LENGTH_SIZE;
    let voter = voter_id.as_bytes().len();
    let named = candidate.as_bytes().len();
    let token = proof.as_bytes().len();
    voter <= room && named <= room - voter && token <= room - voter - named
}

impl Vote {
    /// Whether the record of this vote is small enough to be stored.
    pub fn fits(&self) -> (ok: bool)
        ensures
            ok == fits_record(self@),
    {
        texts_fit(self.voter_id.as_str(), self.candidate.as_str(), self.proof.as_str())
    }

    /// The record that holds this vote. The length of each text must go
    /// into four bytes, and the record into memory; a record that fits the
    /// store does both.
    pub fn to_bytes(&self) -> (bytes: Vec<u8>)
        requires
            is_encodable(self@),
            record_len(self@) <= usize::MAX,
        ensures
            bytes@ == encode_record(self@),
            bytes@.len() == record_len(self@),
    {
        let mut bytes = u64_to_le_bytes(self.id);
        let timestamp = u64_to_le_bytes(self.timestamp);
        push_all(&mut bytes, timestamp.as_slice());
        push_text(&mut bytes, self.voter_id.as_str());
        push_text(&mut bytes, self.candidate.as_str());
        push_text(&mut bytes, self.proof.as_str());
        proof {
            lemma_record_len(self@);
        }
        bytes
    }

    /// The vote that a record holds, if the bytes are a record.
    pub fn from_bytes(bytes: &[u8]) -> (vote: Option<Vote>)
        ensures
            match vote {
                Some(found) => decode_record(bytes@) == Some(found@),
                None => decode_record(bytes@) is None,
            },
    {
        if bytes.len() < RECORD_HEAD {
            return None;
        }
        let id = u64_from_le_bytes(slice_subrange(bytes, 0, 8));
        let timestamp = u64_from_le_bytes(slice_subrange(bytes, 8, 16));
        let (voter_id, at) = match take_text(bytes, RECORD_HEAD) {
            Some(taken) => taken,
            None => { return None; },
        };
        let (candidate, at) = match take_text(bytes, at) {
            Some(taken) => taken,
            None => { return None; },
        };
        let (proof, at) = match take_text(bytes, at) {
            Some(taken) => taken,
            None => { return None; },
        };
        if at != bytes.len() {
            return None;
        }
        Some(Vote { id, voter_id, candidate, timestamp, proof })
    }
}

} // verus!
