//! The decision core of the streaming fetcher: chunks arrive in
//! receipt order, each is accounted into a running transcript, and at
//! the end of the stream the transcript's digest is held against the
//! expected one. Only a matching stream yields a verified payload; the
//! caller promotes its temporary file to the destination name only
//! when it holds one, so a mismatched stream never reaches the
//! destination path.

use vstd::prelude::*;

use crate::sha256::{sha256, sha256_of};

verus! {

/// Errors of the transfer layer.
#[derive(Debug, Clone, PartialEq, Eq)]
pub enum FetchError {
    /// The stream's digest does not match the manifest's entry.
    DigestMismatch { expected: Vec<u8>, actual: Vec<u8> },
    /// The transport failed or timed out before the stream ended.
    NetworkFailure,
    /// Local storage failed.
    IoFailure,
}

/// Proof of a completed, digest-checked transfer: the verified length
/// and digest of the bytes that were streamed.
#[derive(Debug, Clone)]
pub struct VerifiedPayload {
    /// Number of bytes received.
    pub length: usize,
    /// The SHA-256 digest of the received bytes, equal to the expected
    /// digest.
    pub digest: Vec<u8>,
}

/// One file transfer in progress: the expected digest and the bytes
/// received so far, in arrival order.
pub struct FetchSession {
    /// The digest the manifest promises for this file.
    pub expected: Vec<u8>,
    /// Every byte received so far, in receipt order.
    pub received: Vec<u8>,
}

impl FetchSession {
    /// Opens a transfer that will be held against `expected_digest`.
    pub fn new(expected_digest: Vec<u8>) -> (s: FetchSession)
        ensures
            s.expected@ == expected_digest@,
            s.received@ == Seq::<u8>::empty(),
    {
        FetchSession { expected: expected_digest, received: Vec::new() }
    }

    /// Accounts one chunk, in receipt order, into the transcript.
    pub fn push_chunk(&mut self, chunk: &[u8])
        ensures
            final(self).expected@ == old(self).expected@,
            final(self).received@ == old(self).received@ + chunk@,
    {
        let mut i: usize = 0;
        while i < chunk.len()
            invariant
                i <= chunk@.len(),
                self.expected@ == old(self).expected@,
                self.received@ == old(self).received@ + chunk@.subrange(0, i as int),
            decreases chunk@.len() - i,
        {
            self.received.push(chunk[i]);
            proof {
                assert(chunk@.subrange(0, i + 1)
                    == chunk@.subrange(0, i as int).push(chunk@[i as int]));
            }
            i = i + 1;
        }
        proof {
            assert(chunk@.subrange(0, chunk@.len() as int) == chunk@);
        }
    }

    /// Closes the stream and checks the digest: succeeds exactly when
    /// the received bytes hash to the expected digest, and fails with
    /// `DigestMismatch` carrying both digests otherwise. A temporary
    /// file may be promoted to its destination only on success.
    pub fn finish(&self) -> (r: Result<VerifiedPayload, FetchError>)
        ensures
            r is Ok <==> sha256_of(self.received@) == self.expected@,
            match r {
                Ok(p) => {
                    &&& p.length == self.received@.len()
                    &&& p.digest@ == sha256_of(self.received@)
                    &&& p.digest@ == self.expected@
                },
                Err(e) => {
                    &&& sha256_of(self.received@) != self.expected@
                    &&& (e matches FetchError::DigestMismatch { expected, actual }
                        && expected@ == self.expected@
                        && actual@ == sha256_of(self.received@))
                },
            },
    {
        let actual = sha256(self.received.as_slice());
        if bytes_eq(actual.as_slice(), self.expected.as_slice()) {
            Ok(VerifiedPayload { length: self.received.len(), digest: actual })
        } else {
            Err(FetchError::DigestMismatch {
                expected: crate::execution_types::clone_bytes(&self.expected),
                actual,
            })
        }
    }
}

/// Whether two byte strings hold the same bytes.
pub fn bytes_eq(a: &[u8], b: &[u8]) -> (r: bool)
    ensures
        r <==> a@ == b@,
{
    if a.len() != b.len() {
        proof {
            assert(a@.len() != b@.len());
        }
        return false;
    }
    let mut i: usize = 0;
    while i < a.len()
        invariant
            i <= a@.len(),
            a@.len() == b@.len(),
            forall|k: int| 0 <= k < i ==> a@[k] == b@[k],
        decreases a@.len() - i,
    {
        if a[i] != b[i] {
            proof {
                assert(a@[i as int] != b@[i as int]);
            }
            return false;
        }
        i = i + 1;
    }
    proof {
        assert(a@ =~= b@);
    }
    true
}

} // verus!
