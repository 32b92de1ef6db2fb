//! The digest of a decoded audio stream, taken piece by piece.
//!
//! A decode for verification writes raw samples to a pipe. The front end reads
//! the pipe in pieces of at most `PCM_CHUNK_SIZE` bytes and hands each piece to
//! a `PcmDigest`, so the whole stream is never held in memory. Two files hold
//! the same audio when their digests are equal.

use vstd::prelude::*;
use sha2::Digest;
use crate::error::TaskError;

verus! {

/// The size of the buffer through which a decoded stream is read.
pub const PCM_CHUNK_SIZE: usize = 65536;

/// The length of a digest in bytes.
pub const DIGEST_LEN: usize = 32;

/// A stream must stay shorter than this many bytes: SHA-256 counts the bits of
/// its input in 64 bits.
pub const MAX_STREAM_LEN: u64 = 0x2000_0000_0000_0000;

/// A running SHA-256 computation of the `sha2` crate.
#[verifier::external_body]
pub struct Sha256State {
    inner: sha2::Sha256,
}

/// The bytes that a hasher has been given so far, in the order given.
pub uninterp spec fn absorbed(state: Sha256State) -> Seq<u8>;

/// The SHA-256 digest of a stream of bytes, as `sha2` computes it.
pub uninterp spec fn sha256(stream: Seq<u8>) -> Seq<u8>;

/// `Digest::new` for `sha2::Sha256`: a hasher that has been given nothing.
#[verifier::external_body]
fn sha256_new() -> (state: Sha256State)
    ensures
        absorbed(state) == Seq::<u8>::empty(),
{
    Sha256State { inner: sha2::Sha256::new() }
}

/// `Digest::update` for `sha2::Sha256`: the hasher has then been given `chunk`
/// after all it had before. The hasher buffers its input into blocks, so only
/// the bytes and their order count, not how they were cut into calls. Below
/// the bound on the length its block counter cannot overflow, and nothing else
/// in it can panic.
#[verifier::external_body]
fn sha256_update(state: &mut Sha256State, chunk: &[u8])
    requires
        absorbed(*old(state)).len() + chunk@.len() < MAX_STREAM_LEN,
    ensures
        absorbed(*final(state)) == absorbed(*old(state)) + chunk@,
    no_unwind
{
    state.inner.update(chunk);
}

/// `Digest::finalize` for `sha2::Sha256`: the digest of all that the hasher was
/// given, 32 bytes long. The bit count that it appends is computed in `u64`,
/// which the bound on the length keeps from overflowing.
#[verifier::external_body]
fn sha256_finalize(state: Sha256State) -> (digest: Vec<u8>)
    requires
        absorbed(state).len() < MAX_STREAM_LEN,
    ensures
        digest@ == sha256(absorbed(state)),
        digest@.len() == DIGEST_LEN,
{
    state.inner.finalize().to_vec()
}

/// Gives `chunk`, of `n` bytes, to the hasher and counts them.
fn feed(state: &mut Sha256State, len: &mut u64, chunk: &[u8], n: u64)
    requires
        n == chunk@.len(),
        *old(len) == absorbed(*old(state)).len(),
        *old(len) + n < MAX_STREAM_LEN,
    ensures
        absorbed(*final(state)) == absorbed(*old(state)) + chunk@,
        *final(len) == absorbed(*final(state)).len(),
    no_unwind
{
    sha256_update(state, chunk);
    *len = *len + n;
}

/// The digest of one decoded stream while it is being read.
pub struct PcmDigest {
    state: Sha256State,
    len: u64,
}

impl PcmDigest {
    #[verifier::type_invariant]
    spec fn well_formed(self) -> bool {
        &&& self.len == absorbed(self.state).len()
        &&& self.len < MAX_STREAM_LEN
    }

    /// The bytes taken in so far.
    pub closed spec fn stream(self) -> Seq<u8> {
        absorbed(self.state)
    }

    /// A digest that has taken in nothing yet.
    pub fn new() -> (digest: Self)
        ensures
            digest.stream() == Seq::<u8>::empty(),
    {
        PcmDigest { state: sha256_new(), len: 0 }
    }

    /// The number of bytes taken in so far.
    pub fn len(&self) -> (n: u64)
        ensures
            n == self.stream().len(),
            n < MAX_STREAM_LEN,
    {
        proof {
            use_type_invariant(self);
        }
        self.len
    }

    /// Takes in the next piece of the stream. A piece that would bring the
    /// stream to `MAX_STREAM_LEN` bytes is refused, and nothing changes.
    pub fn update(&mut self, chunk: &[u8]) -> (accepted: bool)
        ensures
            accepted == (old(self).stream().len() + chunk@.len() < MAX_STREAM_LEN),
            accepted ==> final(self).stream() == old(self).stream() + chunk@,
            !accepted ==> final(self).stream() == old(self).stream(),
    {
        proof {
            use_type_invariant(&*self);
        }
        let n = chunk.len() as u64;
        if n >= MAX_STREAM_LEN - self.len {
            return false;
        }
        feed(&mut self.state, &mut self.len, chunk, n);
        true
    }

    /// Ends the stream. `exit_ok` says whether the decoder exited with
    /// success: if so, the result is the digest of all that was taken in,
    /// else the decode has failed and no digest is given.
    pub fn finish(self, exit_ok: bool) -> (result: Result<Vec<u8>, TaskError>)
        ensures
            match result {
                Ok(digest) => exit_ok && digest@ == sha256(self.stream()) && digest@.len()
                    == DIGEST_LEN,
                Err(e) => !exit_ok && e == TaskError::DecodeFailure,
            },
    {
        proof {
            use_type_invariant(&self);
        }
        if exit_ok {
            Ok(sha256_finalize(self.state))
        } else {
            Err(TaskError::DecodeFailure)
        }
    }
}

/// Two streams of the same bytes have the same digest, however each was cut
/// into pieces: audio that decodes to the same samples verifies. (That
/// different streams have different digests is what SHA-256 is trusted for;
/// it is not proved here.)
pub proof fn law_equal_streams_have_equal_digests(first: PcmDigest, second: PcmDigest)
    requires
        first.stream() == second.stream(),
    ensures
        sha256(first.stream()) == sha256(second.stream()),
{
}

/// Whether two digests are the same, that is whether the two files decoded to
/// the same audio.
pub fn verify_bitperfect(source: &[u8], converted: &[u8]) -> (same: bool)
    ensures
        same == (source@ == converted@),
{
    if source.len() != converted.len() {
        return false;
    }
    let mut i: usize = 0;
    while i < source.len()
        invariant
            source@.len() == converted@.len(),
            i <= source@.len(),
            source@.subrange(0, i as int) == converted@.subrange(0, i as int),
        decreases source@.len() - i,
    {
        if source[i] != converted[i] {
            return false;
        }
        assert(source@.subrange(0, i + 1) == source@.subrange(0, i as int).push(source@[i as int]));
        assert(converted@.subrange(0, i + 1) == converted@.subrange(0, i as int).push(
            converted@[i as int],
        ));
        i = i + 1;
    }
    assert(source@ == source@.subrange(0, i as int));
    assert(converted@ == converted@.subrange(0, i as int));
    true
}

} // verus!
