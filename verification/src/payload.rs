//! The record on its way to the ledger: the payload that is signed, the bytes
//! that the signature is made over, and the call that carries both to the pool.

use crate::error::{SigningError, SubmissionError};
use crate::record::{ClassId, InstanceId, OracleRecord};
use vstd::prelude::*;

verus! {

/// A record together with the public key of the identity that signs for it.
/// Payloads are equal when their fields are, and are ordered field by field as
/// declared.
#[derive(Debug, Eq, Ord)]
pub struct OffchainPayload<P> {
    pub class_id: ClassId,
    pub instance_id: InstanceId,
    pub public: P,
    pub views: u32,
    pub votes: u32,
}

/// A local identity that can sign: its public key, and the bytes that stand
/// for the key wherever a payload is encoded.
#[derive(Debug, PartialEq, Eq)]
pub struct Identity<P> {
    pub public: P,
    pub encoded: Vec<u8>,
}

/// The call that brings a signed record to the ledger.
#[derive(Debug, PartialEq, Eq)]
pub struct SubmissionCall<S> {
    pub class_id: ClassId,
    pub instance_id: InstanceId,
    pub signature: S,
    pub views: u32,
    pub votes: u32,
}

/// The four bytes of a number, the lowest first.
pub open spec fn le_bytes(value: u32) -> Seq<u8> {
    seq![
        (value % 256) as u8,
        ((value / 256) % 256) as u8,
        ((value / 65536) % 256) as u8,
        (value / 16777216) as u8,
    ]
}

/// The bytes that a payload is signed over: its fields in the order in which
/// they are declared, each number by its four bytes, the public key by the
/// bytes that stand for it.
pub open spec fn payload_encoding<P>(payload: OffchainPayload<P>, public: Seq<u8>) -> Seq<u8> {
    le_bytes(payload.class_id) + le_bytes(payload.instance_id) + public + le_bytes(payload.views)
        + le_bytes(payload.votes)
}

/// `Encode::encode` of parity_scale_codec, on a `u32`. The contract claims
/// that the result is the four bytes of the number, the lowest first.
#[verifier::external_body]
fn scale_u32(value: u32) -> (bytes: Vec<u8>)
    ensures
        bytes@ == le_bytes(value),
{
    parity_scale_codec::Encode::encode(&value)
}

impl<P> OffchainPayload<P> {
    /// The public key of the identity that signs for this payload.
    pub fn public(&self) -> (key: &P)
        ensures
            *key == self.public,
    {
        &self.public
    }
}

/// Puts a record and the signer's public key together. Nothing is signed yet.
pub fn build<P>(record: OracleRecord, public: P) -> (payload: OffchainPayload<P>)
    ensures
        payload == (OffchainPayload {
            class_id: record.class_id,
            instance_id: record.instance_id,
            public,
            views: record.views,
            votes: record.votes,
        }),
{
    OffchainPayload {
        class_id: record.class_id,
        instance_id: record.instance_id,
        public,
        views: record.views,
        votes: record.votes,
    }
}

/// Appends the bytes of `tail` to `out`.
fn append_bytes(out: &mut Vec<u8>, tail: &[u8])
    ensures
        final(out)@ == old(out)@ + tail@,
{
    let n: usize = tail.len();
    let mut i: usize = 0;
    assert(tail@.take(0) =~= Seq::<u8>::empty());
    assert(out@ + Seq::<u8>::empty() =~= out@);
    while i < n
        invariant
            i <= n,
            n == tail@.len(),
            out@ == old(out)@ + tail@.take(i as int),
        decreases n - i,
    {
        out.push(tail[i]);
        assert(tail@.take(i + 1) =~= tail@.take(i as int).push(tail@[i as int]));
        assert(out@ =~= old(out)@ + tail@.take(i + 1));
        i = i + 1;
    }
    assert(tail@.take(n as int) =~= tail@);
}

/// The bytes that are to be signed for a payload, given the bytes that stand
/// for its public key.
pub fn signing_message<P>(payload: &OffchainPayload<P>, public: &[u8]) -> (message: Vec<u8>)
    ensures
        message@ == payload_encoding(*payload, public@),
{
    let mut message: Vec<u8> = scale_u32(payload.class_id);
    let instance_id: Vec<u8> = scale_u32(payload.instance_id);
    append_bytes(&mut message, instance_id.as_slice());
    append_bytes(&mut message, public);
    let views: Vec<u8> = scale_u32(payload.views);
    append_bytes(&mut message, views.as_slice());
    let votes: Vec<u8> = scale_u32(payload.votes);
    append_bytes(&mut message, votes.as_slice());
    message
}

/// Chooses the identity that signs: the first of those that are there.
///
/// Fails exactly when there is none.
pub fn select_identity<P>(identities: Vec<Identity<P>>) -> (r: Result<Identity<P>, SigningError>)
    ensures
        match r {
            Ok(identity) => identities@.len() > 0 && identity == identities@[0],
            Err(e) => identities@.len() == 0 && e == SigningError::NoLocalAccount,
        },
{
    let mut identities = identities;
    if identities.len() == 0 {
        Err(SigningError::NoLocalAccount)
    } else {
        Ok(identities.remove(0))
    }
}

/// Packs a payload and the signature made over it into the call for the pool.
/// The public key stays behind.
pub fn package<P, S>(payload: OffchainPayload<P>, signature: S) -> (call: SubmissionCall<S>)
    ensures
        call == (SubmissionCall {
            class_id: payload.class_id,
            instance_id: payload.instance_id,
            signature,
            views: payload.views,
            votes: payload.votes,
        }),
{
    SubmissionCall {
        class_id: payload.class_id,
        instance_id: payload.instance_id,
        signature,
        views: payload.views,
        votes: payload.votes,
    }
}

/// What a submission comes to, given whether the pool took the call.
pub fn submission_result(accepted: bool) -> (r: Result<(), SubmissionError>)
    ensures
        r is Ok <==> accepted,
        r matches Err(e) ==> e == SubmissionError::Rejected,
{
    if accepted {
        Ok(())
    } else {
        Err(SubmissionError::Rejected)
    }
}

/// The four bytes of a number tell the number.
pub proof fn lemma_le_bytes_tell_number(a: u32, b: u32)
    requires
        le_bytes(a) == le_bytes(b),
    ensures
        a == b,
{
    assert(le_bytes(a)[0] == le_bytes(b)[0]);
    assert(le_bytes(a)[1] == le_bytes(b)[1]);
    assert(le_bytes(a)[2] == le_bytes(b)[2]);
    assert(le_bytes(a)[3] == le_bytes(b)[3]);
}

/// What is signed tells the record: two payloads whose public keys are stood
/// for by as many bytes, and that are signed over the same message, carry the
/// same numbers, and the same bytes stand for their keys.
pub proof fn law_message_tells_record<P>(
    a: OffchainPayload<P>,
    a_public: Seq<u8>,
    b: OffchainPayload<P>,
    b_public: Seq<u8>,
)
    requires
        a_public.len() == b_public.len(),
        payload_encoding(a, a_public) == payload_encoding(b, b_public),
    ensures
        a.class_id == b.class_id,
        a.instance_id == b.instance_id,
        a_public == b_public,
        a.views == b.views,
        a.votes == b.votes,
{
    let ma = payload_encoding(a, a_public);
    let mb = payload_encoding(b, b_public);
    let n = a_public.len() as int;
    assert(le_bytes(a.class_id) =~= ma.subrange(0, 4));
    assert(le_bytes(b.class_id) =~= mb.subrange(0, 4));
    assert(le_bytes(a.instance_id) =~= ma.subrange(4, 8));
    assert(le_bytes(b.instance_id) =~= mb.subrange(4, 8));
    assert(a_public =~= ma.subrange(8, 8 + n));
    assert(b_public =~= mb.subrange(8, 8 + n));
    assert(le_bytes(a.views) =~= ma.subrange(8 + n, 12 + n));
    assert(le_bytes(b.views) =~= mb.subrange(8 + n, 12 + n));
    assert(le_bytes(a.votes) =~= ma.subrange(12 + n, 16 + n));
    assert(le_bytes(b.votes) =~= mb.subrange(12 + n, 16 + n));
    lemma_le_bytes_tell_number(a.class_id, b.class_id);
    lemma_le_bytes_tell_number(a.instance_id, b.instance_id);
    lemma_le_bytes_tell_number(a.views, b.views);
    lemma_le_bytes_tell_number(a.votes, b.votes);
}

} // verus!
