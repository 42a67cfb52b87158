//! The typed record layer of an era1 file: compressed header, body and
//! receipts records, the total-difficulty and accumulator records, and
//! the block tuple that groups one block's four records.
//!
//! Header, body and receipt values are carried as their RLP encodings;
//! turning an in-memory block value into RLP bytes and back is the
//! serializer's business and happens outside this crate. Here the RLP
//! bytes are compressed into Snappy frames, wrapped into tagged
//! entries, and validated on the way back in.

use vstd::prelude::*;

use crate::e2s::{
    Entry, E2sError, ACCUMULATOR, COMPRESSED_BODY, COMPRESSED_HEADER, COMPRESSED_RECEIPTS,
    TOTAL_DIFFICULTY,
};
use crate::snappy::{snappy_compress, snappy_decompress, snappy_frame_of, snappy_unframe};
use crate::u256::{spec_u256_be, spec_u256_of_be, U256};

verus! {

/// Maximum number of blocks in an era1 file, limited by the fixed
/// depth of the accumulator's hash tree.
pub const MAX_BLOCKS_PER_ERA1: usize = 8192;

/// Codec for Snappy-compressed RLP payloads: compresses RLP bytes into
/// a Snappy frame and recovers them from one.
#[derive(Debug, Clone)]
pub struct SnappyRlpCodec {}

impl SnappyRlpCodec {
    /// Creates a new codec.
    pub fn new() -> (r: SnappyRlpCodec) {
        SnappyRlpCodec {}
    }

    /// Compresses RLP bytes into a Snappy frame. The frame decodes
    /// back to exactly the input.
    pub fn encode(&self, rlp_data: &[u8]) -> (r: Result<Vec<u8>, E2sError>)
        ensures
            r is Ok,
            r.unwrap()@ == snappy_frame_of(rlp_data@),
            snappy_unframe(r.unwrap()@) == Some(rlp_data@),
    {
        Ok(snappy_compress(rlp_data))
    }

    /// Recovers the RLP bytes held in a Snappy frame; fails exactly
    /// when the bytes are not a well-formed frame stream.
    pub fn decode(&self, compressed_data: &[u8]) -> (r: Result<Vec<u8>, E2sError>)
        ensures
            match r {
                Ok(d) => snappy_unframe(compressed_data@) == Some(d@),
                Err(e) => {
                    &&& e == E2sError::DecompressionFailure
                    &&& snappy_unframe(compressed_data@) is None
                },
            },
    {
        snappy_decompress(compressed_data)
    }
}

/// Compressed block header: `snappyFramed(rlp(header))`.
#[derive(Debug, Clone)]
pub struct CompressedHeader {
    /// The compressed data.
    pub data: Vec<u8>,
}

impl CompressedHeader {
    /// Creates a compressed header record from already-compressed data.
    pub fn new(data: Vec<u8>) -> (r: CompressedHeader)
        ensures
            r.data == data,
    {
        CompressedHeader { data }
    }

    /// Compresses an RLP-encoded header. The stored frame decompresses
    /// back to exactly the given bytes.
    pub fn from_rlp(rlp_data: &[u8]) -> (r: Result<CompressedHeader, E2sError>)
        ensures
            r is Ok,
            r.unwrap().data@ == snappy_frame_of(rlp_data@),
            snappy_unframe(r.unwrap().data@) == Some(rlp_data@),
    {
        Ok(CompressedHeader { data: snappy_compress(rlp_data) })
    }

    /// Decompresses back to the RLP-encoded header; fails exactly when
    /// the stored bytes are not a well-formed Snappy frame stream.
    pub fn decompress(&self) -> (r: Result<Vec<u8>, E2sError>)
        ensures
            match r {
                Ok(d) => snappy_unframe(self.data@) == Some(d@),
                Err(e) => {
                    &&& e == E2sError::DecompressionFailure
                    &&& snappy_unframe(self.data@) is None
                },
            },
    {
        snappy_decompress(self.data.as_slice())
    }

    /// Wraps the compressed bytes into a header-tagged entry.
    pub fn to_entry(&self) -> (r: Entry)
        ensures
            r.entry_type == COMPRESSED_HEADER,
            r.data@ == self.data@,
    {
        Entry::new(COMPRESSED_HEADER, clone_bytes(&self.data))
    }

    /// Reads a compressed header back out of an entry; accepts exactly
    /// the header tag.
    pub fn from_entry(entry: &Entry) -> (r: Result<CompressedHeader, E2sError>)
        ensures
            match r {
                Ok(h) => entry.entry_type == COMPRESSED_HEADER && h.data@ == entry.data@,
                Err(e) => {
                    &&& entry.entry_type != COMPRESSED_HEADER
                    &&& e == (E2sError::WrongEntryType {
                        expected_tag: COMPRESSED_HEADER,
                        actual_tag: entry.entry_type,
                    })
                },
            },
    {
        if entry.entry_type != COMPRESSED_HEADER {
            return Err(E2sError::WrongEntryType {
                expected_tag: COMPRESSED_HEADER,
                actual_tag: entry.entry_type,
            });
        }
        Ok(CompressedHeader { data: clone_bytes(&entry.data) })
    }
}

/// Compressed block body: `snappyFramed(rlp(body))`.
#[derive(Debug, Clone)]
pub struct CompressedBody {
    /// The compressed data.
    pub data: Vec<u8>,
}

impl CompressedBody {
    /// Creates a compressed body record from already-compressed data.
    pub fn new(data: Vec<u8>) -> (r: CompressedBody)
        ensures
            r.data == data,
    {
        CompressedBody { data }
    }

    /// Compresses an RLP-encoded body. The stored frame decompresses
    /// back to exactly the given bytes.
    pub fn from_rlp(rlp_data: &[u8]) -> (r: Result<CompressedBody, E2sError>)
        ensures
            r is Ok,
            r.unwrap().data@ == snappy_frame_of(rlp_data@),
            snappy_unframe(r.unwrap().data@) == Some(rlp_data@),
    {
        Ok(CompressedBody { data: snappy_compress(rlp_data) })
    }

    /// Decompresses back to the RLP-encoded body; fails exactly when
    /// the stored bytes are not a well-formed Snappy frame stream.
    pub fn decompress(&self) -> (r: Result<Vec<u8>, E2sError>)
        ensures
            match r {
                Ok(d) => snappy_unframe(self.data@) == Some(d@),
                Err(e) => {
                    &&& e == E2sError::DecompressionFailure
                    &&& snappy_unframe(self.data@) is None
                },
            },
    {
        snappy_decompress(self.data.as_slice())
    }

    /// Wraps the compressed bytes into a body-tagged entry.
    pub fn to_entry(&self) -> (r: Entry)
        ensures
            r.entry_type == COMPRESSED_BODY,
            r.data@ == self.data@,
    {
        Entry::new(COMPRESSED_BODY, clone_bytes(&self.data))
    }

    /// Reads a compressed body back out of an entry; accepts exactly
    /// the body tag.
    pub fn from_entry(entry: &Entry) -> (r: Result<CompressedBody, E2sError>)
        ensures
            match r {
                Ok(b) => entry.entry_type == COMPRESSED_BODY && b.data@ == entry.data@,
                Err(e) => {
                    &&& entry.entry_type != COMPRESSED_BODY
                    &&& e == (E2sError::WrongEntryType {
                        expected_tag: COMPRESSED_BODY,
                        actual_tag: entry.entry_type,
                    })
                },
            },
    {
        if entry.entry_type != COMPRESSED_BODY {
            return Err(E2sError::WrongEntryType {
                expected_tag: COMPRESSED_BODY,
                actual_tag: entry.entry_type,
            });
        }
        Ok(CompressedBody { data: clone_bytes(&entry.data) })
    }
}

/// Compressed receipts: `snappyFramed(rlp(receipts))`, holding either
/// a single receipt or a list, as the producer chose.
#[derive(Debug, Clone)]
pub struct CompressedReceipts {
    /// The compressed data.
    pub data: Vec<u8>,
}

impl CompressedReceipts {
    /// Creates a compressed receipts record from already-compressed
    /// data.
    pub fn new(data: Vec<u8>) -> (r: CompressedReceipts)
        ensures
            r.data == data,
    {
        CompressedReceipts { data }
    }

    /// Compresses RLP-encoded receipts. The stored frame decompresses
    /// back to exactly the given bytes.
    pub fn from_rlp(rlp_data: &[u8]) -> (r: Result<CompressedReceipts, E2sError>)
        ensures
            r is Ok,
            r.unwrap().data@ == snappy_frame_of(rlp_data@),
            snappy_unframe(r.unwrap().data@) == Some(rlp_data@),
    {
        Ok(CompressedReceipts { data: snappy_compress(rlp_data) })
    }

    /// Decompresses back to the RLP-encoded receipts; fails exactly
    /// when the stored bytes are not a well-formed Snappy frame stream.
    pub fn decompress(&self) -> (r: Result<Vec<u8>, E2sError>)
        ensures
            match r {
                Ok(d) => snappy_unframe(self.data@) == Some(d@),
                Err(e) => {
                    &&& e == E2sError::DecompressionFailure
                    &&& snappy_unframe(self.data@) is None
                },
            },
    {
        snappy_decompress(self.data.as_slice())
    }

    /// Wraps the compressed bytes into a receipts-tagged entry.
    pub fn to_entry(&self) -> (r: Entry)
        ensures
            r.entry_type == COMPRESSED_RECEIPTS,
            r.data@ == self.data@,
    {
        Entry::new(COMPRESSED_RECEIPTS, clone_bytes(&self.data))
    }

    /// Reads compressed receipts back out of an entry; accepts exactly
    /// the receipts tag.
    pub fn from_entry(entry: &Entry) -> (r: Result<CompressedReceipts, E2sError>)
        ensures
            match r {
                Ok(c) => entry.entry_type == COMPRESSED_RECEIPTS && c.data@ == entry.data@,
                Err(e) => {
                    &&& entry.entry_type != COMPRESSED_RECEIPTS
                    &&& e == (E2sError::WrongEntryType {
                        expected_tag: COMPRESSED_RECEIPTS,
                        actual_tag: entry.entry_type,
                    })
                },
            },
    {
        if entry.entry_type != COMPRESSED_RECEIPTS {
            return Err(E2sError::WrongEntryType {
                expected_tag: COMPRESSED_RECEIPTS,
                actual_tag: entry.entry_type,
            });
        }
        Ok(CompressedReceipts { data: clone_bytes(&entry.data) })
    }
}

/// Total difficulty for a block: a 256-bit cumulative value.
#[derive(Debug, Clone, Copy, PartialEq, Eq, Structural)]
pub struct TotalDifficulty {
    /// The total difficulty.
    pub value: U256,
}

impl TotalDifficulty {
    /// Creates a total-difficulty record from a 256-bit value.
    pub fn new(value: U256) -> (r: TotalDifficulty)
        ensures
            r.value == value,
    {
        TotalDifficulty { value }
    }

    /// Serializes the value as exactly 32 big-endian bytes,
    /// zero-padded on the left, under the total-difficulty tag.
    pub fn to_entry(&self) -> (r: Entry)
        ensures
            r.entry_type == TOTAL_DIFFICULTY,
            r.data@ == spec_u256_be(self.value),
            r.data@.len() == 32,
    {
        let mut data: Vec<u8> = Vec::new();
        push_u64_be(&mut data, self.value.l3);
        push_u64_be(&mut data, self.value.l2);
        push_u64_be(&mut data, self.value.l1);
        push_u64_be(&mut data, self.value.l0);
        proof {
            reveal(crate::u256::spec_u256_be);
            crate::u256::lemma_u64_be_len(self.value.l3);
            crate::u256::lemma_u64_be_len(self.value.l2);
            crate::u256::lemma_u64_be_len(self.value.l1);
            crate::u256::lemma_u64_be_len(self.value.l0);
            assert(data@ =~= spec_u256_be(self.value));
        }
        Entry::new(TOTAL_DIFFICULTY, data)
    }

    /// Reads a total difficulty back out of an entry; accepts exactly
    /// the total-difficulty tag with a 32-byte payload.
    pub fn from_entry(entry: &Entry) -> (r: Result<TotalDifficulty, E2sError>)
        ensures
            match r {
                Ok(td) => {
                    &&& entry.entry_type == TOTAL_DIFFICULTY
                    &&& entry.data@.len() == 32
                    &&& td.value == spec_u256_of_be(entry.data@)
                    &&& spec_u256_be(td.value) == entry.data@
                },
                Err(e) => {
                    if entry.entry_type != TOTAL_DIFFICULTY {
                        e == (E2sError::WrongEntryType {
                            expected_tag: TOTAL_DIFFICULTY,
                            actual_tag: entry.entry_type,
                        })
                    } else {
                        entry.data@.len() != 32 && e == (E2sError::BadPayloadLength {
                            expected_len: 32,
                            actual_len: entry.data@.len() as usize,
                        })
                    }
                },
            },
    {
        if entry.entry_type != TOTAL_DIFFICULTY {
            return Err(E2sError::WrongEntryType {
                expected_tag: TOTAL_DIFFICULTY,
                actual_tag: entry.entry_type,
            });
        }
        if entry.data.len() != 32 {
            return Err(E2sError::BadPayloadLength {
                expected_len: 32,
                actual_len: entry.data.len(),
            });
        }
        let l3 = read_u64_be(&entry.data, 0);
        let l2 = read_u64_be(&entry.data, 8);
        let l1 = read_u64_be(&entry.data, 16);
        let l0 = read_u64_be(&entry.data, 24);
        let value = U256 { l0, l1, l2, l3 };
        proof {
            reveal(crate::u256::spec_u256_of_be);
            crate::u256::lemma_u256_of_be_roundtrip(entry.data@);
        }
        Ok(TotalDifficulty { value })
    }
}

/// The accumulator record: the hash-tree root summarizing every block
/// in one era1 file. Computing the root is a collaborator's job; this
/// record stores and transports the 32-byte digest.
#[derive(Debug, Clone)]
pub struct Accumulator {
    /// The accumulator root hash, exactly 32 bytes.
    pub root: Vec<u8>,
}

impl Accumulator {
    /// Creates an accumulator record from a 32-byte root.
    pub fn new(root: Vec<u8>) -> (r: Result<Accumulator, E2sError>)
        ensures
            match r {
                Ok(a) => root@.len() == 32 && a.root@ == root@,
                Err(e) => {
                    &&& root@.len() != 32
                    &&& e == (E2sError::BadPayloadLength {
                        expected_len: 32,
                        actual_len: root@.len() as usize,
                    })
                },
            },
    {
        if root.len() != 32 {
            return Err(E2sError::BadPayloadLength { expected_len: 32, actual_len: root.len() });
        }
        Ok(Accumulator { root })
    }

    /// Wraps the root into an accumulator-tagged entry.
    pub fn to_entry(&self) -> (r: Entry)
        ensures
            r.entry_type == ACCUMULATOR,
            r.data@ == self.root@,
    {
        Entry::new(ACCUMULATOR, clone_bytes(&self.root))
    }

    /// Reads an accumulator back out of an entry; accepts exactly the
    /// accumulator tag with a 32-byte payload.
    pub fn from_entry(entry: &Entry) -> (r: Result<Accumulator, E2sError>)
        ensures
            match r {
                Ok(a) => {
                    &&& entry.entry_type == ACCUMULATOR
                    &&& entry.data@.len() == 32
                    &&& a.root@ == entry.data@
                },
                Err(e) => {
                    if entry.entry_type != ACCUMULATOR {
                        e == (E2sError::WrongEntryType {
                            expected_tag: ACCUMULATOR,
                            actual_tag: entry.entry_type,
                        })
                    } else {
                        entry.data@.len() != 32 && e == (E2sError::BadPayloadLength {
                            expected_len: 32,
                            actual_len: entry.data@.len() as usize,
                        })
                    }
                },
            },
    {
        if entry.entry_type != ACCUMULATOR {
            return Err(E2sError::WrongEntryType {
                expected_tag: ACCUMULATOR,
                actual_tag: entry.entry_type,
            });
        }
        if entry.data.len() != 32 {
            return Err(E2sError::BadPayloadLength {
                expected_len: 32,
                actual_len: entry.data.len(),
            });
        }
        Ok(Accumulator { root: clone_bytes(&entry.data) })
    }
}

/// A block tuple in an era1 file: all four records for a single block.
#[derive(Debug, Clone)]
pub struct BlockTuple {
    /// Compressed block header.
    pub header: CompressedHeader,
    /// Compressed block body.
    pub body: CompressedBody,
    /// Compressed receipts.
    pub receipts: CompressedReceipts,
    /// Total difficulty.
    pub total_difficulty: TotalDifficulty,
}

impl BlockTuple {
    /// Groups one block's four records.
    pub fn new(
        header: CompressedHeader,
        body: CompressedBody,
        receipts: CompressedReceipts,
        total_difficulty: TotalDifficulty,
    ) -> (r: BlockTuple)
        ensures
            r.header == header,
            r.body == body,
            r.receipts == receipts,
            r.total_difficulty == total_difficulty,
    {
        BlockTuple { header, body, receipts, total_difficulty }
    }

    /// Builds a block tuple from one block's RLP-encoded header, body
    /// and receipts, and its cumulative difficulty, compressing each
    /// byte payload. Each compressed record decompresses back to
    /// exactly the bytes given here.
    pub fn from_rlp_parts(
        header_rlp: &[u8],
        body_rlp: &[u8],
        receipts_rlp: &[u8],
        total_difficulty: U256,
    ) -> (r: Result<BlockTuple, E2sError>)
        ensures
            r is Ok,
            snappy_unframe(r.unwrap().header.data@) == Some(header_rlp@),
            snappy_unframe(r.unwrap().body.data@) == Some(body_rlp@),
            snappy_unframe(r.unwrap().receipts.data@) == Some(receipts_rlp@),
            r.unwrap().total_difficulty.value == total_difficulty,
    {
        let header = CompressedHeader::from_rlp(header_rlp)?;
        let body = CompressedBody::from_rlp(body_rlp)?;
        let receipts = CompressedReceipts::from_rlp(receipts_rlp)?;
        Ok(BlockTuple { header, body, receipts, total_difficulty: TotalDifficulty::new(total_difficulty) })
    }
}

/// Copies a byte vector.
pub fn clone_bytes(data: &Vec<u8>) -> (r: Vec<u8>)
    ensures
        r@ == data@,
{
    let mut out: Vec<u8> = Vec::new();
    let mut i: usize = 0;
    while i < data.len()
        invariant
            i <= data@.len(),
            out@ == data@.subrange(0, i as int),
        decreases data@.len() - i,
    {
        out.push(data[i]);
        proof {
            assert(data@.subrange(0, i + 1)
                == data@.subrange(0, i as int).push(data@[i as int]));
        }
        i = i + 1;
    }
    proof {
        assert(data@.subrange(0, data@.len() as int) == data@);
    }
    out
}

/// Appends the eight big-endian bytes of `v`.
fn push_u64_be(out: &mut Vec<u8>, v: u64) -> (r: ())
    ensures
        final(out)@ == old(out)@ + crate::u256::spec_u64_be(v),
{
    out.push((v / 0x100000000000000 % 256) as u8);
    out.push((v / 0x1000000000000 % 256) as u8);
    out.push((v / 0x10000000000 % 256) as u8);
    out.push((v / 0x100000000 % 256) as u8);
    out.push((v / 0x1000000 % 256) as u8);
    out.push((v / 0x10000 % 256) as u8);
    out.push((v / 0x100 % 256) as u8);
    out.push((v % 256) as u8);
    proof {
        reveal(crate::u256::spec_u64_be);
        assert(out@ =~= old(out)@ + crate::u256::spec_u64_be(v));
    }
}

/// Reads eight big-endian bytes starting at `pos` as a 64-bit value.
fn read_u64_be(data: &Vec<u8>, pos: usize) -> (r: u64)
    requires
        pos + 8 <= data@.len(),
    ensures
        r == crate::u256::spec_u64_of_be(data@.subrange(pos as int, pos + 8)),
{
    let n: usize = data.len();
    let b0 = data[pos] as u64;
    let b1 = data[pos + 1] as u64;
    let b2 = data[pos + 2] as u64;
    let b3 = data[pos + 3] as u64;
    let b4 = data[pos + 4] as u64;
    let b5 = data[pos + 5] as u64;
    let b6 = data[pos + 6] as u64;
    let b7 = data[pos + 7] as u64;
    let r = b0 * 0x100000000000000 + b1 * 0x1000000000000 + b2 * 0x10000000000
        + b3 * 0x100000000 + b4 * 0x1000000 + b5 * 0x10000 + b6 * 0x100 + b7;
    proof {
        reveal(crate::u256::spec_u64_of_be);
        let s = data@.subrange(pos as int, pos + 8);
        assert(s[0] == data@[pos as int] && s[1] == data@[pos + 1] && s[2] == data@[pos + 2]
            && s[3] == data@[pos + 3] && s[4] == data@[pos + 4] && s[5] == data@[pos + 5]
            && s[6] == data@[pos + 6] && s[7] == data@[pos + 7]);
    }
    r
}

} // verus!
