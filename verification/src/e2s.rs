//! The e2store record layer: type-tagged, length-prefixed records.
//!
//! A record on disk is an 8-byte header followed by the payload:
//! a 2-byte little-endian type tag, a 4-byte little-endian payload
//! length, and 2 reserved bytes that must be zero.

use vstd::prelude::*;

verus! {

/// `CompressedHeader` record type tag.
pub const COMPRESSED_HEADER: u16 = 0x0003;

/// `CompressedBody` record type tag.
pub const COMPRESSED_BODY: u16 = 0x0004;

/// `CompressedReceipts` record type tag.
pub const COMPRESSED_RECEIPTS: u16 = 0x0005;

/// `TotalDifficulty` record type tag.
pub const TOTAL_DIFFICULTY: u16 = 0x0006;

/// `Accumulator` record type tag.
pub const ACCUMULATOR: u16 = 0x0007;

/// Errors of the record codec and of the typed record layer.
#[derive(Debug, Clone, PartialEq, Eq)]
pub enum E2sError {
    /// Fewer bytes remain than the record header declares.
    Truncated,
    /// The record header is malformed (non-zero reserved bytes).
    BadTag,
    /// A payload is too long for the 4-byte length field.
    BadLength,
    /// An entry carried a different type tag than the record kind expects.
    WrongEntryType { expected_tag: u16, actual_tag: u16 },
    /// A payload length does not match the record kind's fixed size.
    BadPayloadLength { expected_len: usize, actual_len: usize },
    /// Compressed data does not form a valid compression frame.
    DecompressionFailure,
    /// More block tuples than one era1 file may carry.
    TooManyBlocks,
    /// Bytes remain after the file's closing accumulator record.
    TrailingData,
}

/// One type-tagged record: the atomic unit of an era1 file.
#[derive(Debug, Clone)]
pub struct Entry {
    /// The 2-byte type tag, as a little-endian integer.
    pub entry_type: u16,
    /// The raw payload.
    pub data: Vec<u8>,
}

/// The two bytes of `v` in little-endian order.
pub open spec fn spec_u16_le(v: u16) -> Seq<u8> {
    seq![(v % 256) as u8, (v / 256) as u8]
}

/// The four bytes of `v` in little-endian order.
pub open spec fn spec_u32_le(v: u32) -> Seq<u8> {
    seq![
        (v % 256) as u8,
        ((v / 256) % 256) as u8,
        ((v / 0x10000) % 256) as u8,
        ((v / 0x1000000) % 256) as u8,
    ]
}

/// The on-disk bytes of one record: tag, payload length, two reserved
/// zero bytes, then the payload. Meaningful only when `data` fits the
/// 4-byte length field.
#[verifier::opaque]
pub open spec fn spec_entry_bytes(entry_type: u16, data: Seq<u8>) -> Seq<u8> {
    spec_u16_le(entry_type) + spec_u32_le(data.len() as u32) + seq![0u8, 0u8] + data
}

/// A record's bytes are its 8-byte header followed by the payload.
pub proof fn lemma_entry_bytes_len(entry_type: u16, data: Seq<u8>)
    ensures
        spec_entry_bytes(entry_type, data).len() == 8 + data.len(),
{
    reveal(spec_entry_bytes);
}

/// Parses the record that starts at `pos` in `buf`: the tag, the
/// payload, and the position just past the record. `None` when the
/// bytes there do not form a record (truncation or non-zero reserved
/// bytes).
pub open spec fn spec_parse_entry(buf: Seq<u8>, pos: int) -> Option<(u16, Seq<u8>, int)> {
    if 0 <= pos && pos + 8 <= buf.len() {
        let tag = (buf[pos] + 256 * buf[pos + 1]) as u16;
        let n = buf[pos + 2] + 256 * (buf[pos + 3] + 256 * (buf[pos + 4] + 256 * buf[pos + 5]));
        if buf[pos + 6] == 0 && buf[pos + 7] == 0 {
            if pos + 8 + n <= buf.len() {
                Some((tag, buf.subrange(pos + 8, pos + 8 + n), pos + 8 + n))
            } else {
                None
            }
        } else {
            None
        }
    } else {
        None
    }
}

impl Entry {
    /// Builds an entry from a tag and a payload.
    pub fn new(entry_type: u16, data: Vec<u8>) -> (r: Entry)
        ensures
            r.entry_type == entry_type,
            r.data == data,
    {
        Entry { entry_type, data }
    }
}

/// Appends the on-disk form of `entry` to `out`. Fails with
/// `BadLength`, leaving `out` unchanged, exactly when the payload does
/// not fit the 4-byte length field.
pub fn write_entry(out: &mut Vec<u8>, entry: &Entry) -> (r: Result<(), E2sError>)
    ensures
        match r {
            Ok(()) => {
                &&& entry.data@.len() <= u32::MAX
                &&& final(out)@ == old(out)@ + spec_entry_bytes(entry.entry_type, entry.data@)
            },
            Err(e) => {
                &&& e == E2sError::BadLength
                &&& entry.data@.len() > u32::MAX
                &&& final(out)@ == old(out)@
            },
        },
{
    if entry.data.len() > u32::MAX as usize {
        return Err(E2sError::BadLength);
    }
    let n: u32 = entry.data.len() as u32;
    let t: u16 = entry.entry_type;
    out.push((t % 256) as u8);
    out.push((t / 256) as u8);
    out.push((n % 256) as u8);
    out.push(((n / 256) % 256) as u8);
    out.push(((n / 0x10000) % 256) as u8);
    out.push(((n / 0x1000000) % 256) as u8);
    out.push(0u8);
    out.push(0u8);
    let mut i: usize = 0;
    while i < entry.data.len()
        invariant
            i <= entry.data@.len(),
            entry.data@.len() <= u32::MAX,
            out@ == old(out)@ + spec_u16_le(entry.entry_type)
                + spec_u32_le(entry.data@.len() as u32) + seq![0u8, 0u8]
                + entry.data@.subrange(0, i as int),
        decreases entry.data@.len() - i,
    {
        out.push(entry.data[i]);
        proof {
            assert(entry.data@.subrange(0, i + 1)
                == entry.data@.subrange(0, i as int).push(entry.data@[i as int]));
        }
        i = i + 1;
    }
    proof {
        reveal(spec_entry_bytes);
        assert(entry.data@.subrange(0, entry.data@.len() as int) == entry.data@);
        assert(out@ == old(out)@ + spec_entry_bytes(entry.entry_type, entry.data@));
    }
    Ok(())
}

/// Reads the record that starts at `pos` in `buf`, returning the entry
/// and the position just past it. Fails with `Truncated` when fewer
/// bytes remain than the header declares, and with `BadTag` when the
/// reserved bytes are not zero; succeeds exactly when the bytes at
/// `pos` parse as a record.
pub fn read_entry(buf: &[u8], pos: usize) -> (r: Result<(Entry, usize), E2sError>)
    ensures
        match r {
            Ok((e, next)) => {
                &&& spec_parse_entry(buf@, pos as int)
                    == Some((e.entry_type, e.data@, next as int))
                &&& next <= buf@.len()
                &&& next == pos + 8 + e.data@.len()
            },
            Err(e) => {
                &&& spec_parse_entry(buf@, pos as int) is None
                &&& (e == E2sError::Truncated || e == E2sError::BadTag)
            },
        },
{
    if buf.len() < 8 || pos > buf.len() - 8 {
        return Err(E2sError::Truncated);
    }
    let b0 = buf[pos];
    let b1 = buf[pos + 1];
    let tag: u16 = b0 as u16 + 256 * (b1 as u16);
    let n0 = buf[pos + 2] as u64;
    let n1 = buf[pos + 3] as u64;
    let n2 = buf[pos + 4] as u64;
    let n3 = buf[pos + 5] as u64;
    let n: u64 = n0 + 256 * (n1 + 256 * (n2 + 256 * n3));
    if buf[pos + 6] != 0 || buf[pos + 7] != 0 {
        return Err(E2sError::BadTag);
    }
    let remaining: usize = buf.len() - (pos + 8);
    if n > remaining as u64 {
        return Err(E2sError::Truncated);
    }
    let len: usize = n as usize;
    let mut data: Vec<u8> = Vec::new();
    let mut i: usize = 0;
    while i < len
        invariant
            i <= len,
            pos + 8 + len <= buf@.len(),
            pos + 8 + len <= usize::MAX,
            data@ == buf@.subrange(pos + 8, pos + 8 + i),
        decreases len - i,
    {
        data.push(buf[pos + 8 + i]);
        proof {
            assert(buf@.subrange(pos + 8, pos + 8 + i + 1)
                == buf@.subrange(pos + 8, pos + 8 + i as int).push(buf@[pos + 8 + i]));
        }
        i = i + 1;
    }
    Ok((Entry { entry_type: tag, data }, pos + 8 + len))
}

/// What is read was written: a record parsed out of a buffer occupies
/// exactly the bytes that writing it would lay down.
pub proof fn lemma_parse_entry_inverse(buf: Seq<u8>, pos: int)
    requires
        spec_parse_entry(buf, pos) is Some,
    ensures
        ({
            let (tag, d, next) = spec_parse_entry(buf, pos).unwrap();
            &&& 0 <= pos
            &&& pos + 8 + d.len() == next
            &&& next <= buf.len()
            &&& d.len() <= u32::MAX
            &&& buf.subrange(pos, next) == spec_entry_bytes(tag, d)
        }),
{
    reveal(spec_entry_bytes);
    let (tag, d, next) = spec_parse_entry(buf, pos).unwrap();
    let b0 = buf[pos];
    let b1 = buf[pos + 1];
    let b2 = buf[pos + 2];
    let b3 = buf[pos + 3];
    let b4 = buf[pos + 4];
    let b5 = buf[pos + 5];
    assert(tag == (b0 + 256 * b1) as u16);
    let n = b2 + 256 * (b3 + 256 * (b4 + 256 * b5));
    assert(pos + 8 <= buf.len());
    assert(0 <= n);
    assert(pos + 8 + n <= buf.len());
    assert(d == buf.subrange(pos + 8, pos + 8 + n));
    assert(d.len() == n);
    let t16 = tag;
    assert(t16 % 256 == b0 && t16 / 256 == b1) by (bit_vector)
        requires
            b0 < 256 && b1 < 256 && t16 == (b0 + 256 * b1) as u16,
    ;
    let n32 = n as u32;
    assert(n32 % 256 == b2 && (n32 / 256) % 256 == b3 && (n32 / 0x10000) % 256 == b4 && (n32
        / 0x1000000) % 256 == b5) by (bit_vector)
        requires
            b2 < 256 && b3 < 256 && b4 < 256 && b5 < 256,
            n32 == (b2 + 256 * (b3 + 256 * (b4 + 256 * b5))) as u32,
    ;
    let enc = spec_entry_bytes(tag, d);
    assert(enc.len() == 8 + d.len());
    assert(buf.subrange(pos, next) =~= enc) by {
        assert(buf[pos + 6] == 0 && buf[pos + 7] == 0);
        assert forall|k: int| 0 <= k < d.len() implies
            #[trigger] buf.subrange(pos, next)[8 + k] == enc[8 + k] by {
            assert(enc[8 + k] == d[k]);
            assert(d[k] == buf[pos + 8 + k]);
        }
    }
}

/// What is written is read back: the bytes of a record, laid at `pos`
/// in a larger buffer, parse to the same tag and payload, ending just
/// past the record.
pub proof fn lemma_entry_roundtrip(buf: Seq<u8>, pos: int, entry_type: u16, data: Seq<u8>)
    requires
        data.len() <= u32::MAX,
        0 <= pos,
        pos + 8 + data.len() <= buf.len(),
        buf.subrange(pos, pos + 8 + data.len()) == spec_entry_bytes(entry_type, data),
    ensures
        spec_parse_entry(buf, pos) == Some((entry_type, data, pos + 8 + data.len())),
{
    reveal(spec_entry_bytes);
    let enc = spec_entry_bytes(entry_type, data);
    let sub = buf.subrange(pos, pos + 8 + data.len());
    let n = data.len() as u32;
    assert(enc.len() == 8 + data.len());
    assert(buf[pos] == sub[0] && sub[0] == (entry_type % 256) as u8);
    assert(buf[pos + 1] == sub[1] && sub[1] == (entry_type / 256) as u8);
    assert(buf[pos + 2] == sub[2] && sub[2] == (n % 256) as u8);
    assert(buf[pos + 3] == sub[3] && sub[3] == ((n / 256) % 256) as u8);
    assert(buf[pos + 4] == sub[4] && sub[4] == ((n / 0x10000) % 256) as u8);
    assert(buf[pos + 5] == sub[5] && sub[5] == ((n / 0x1000000) % 256) as u8);
    assert(buf[pos + 6] == sub[6] && sub[6] == 0u8);
    assert(buf[pos + 7] == sub[7] && sub[7] == 0u8);
    let t = entry_type;
    assert(t % 256 + 256 * (t / 256) == t) by (bit_vector);
    assert((buf[pos] + 256 * buf[pos + 1]) as u16 == entry_type);
    assert(n % 256 + 256 * ((n / 256) % 256 + 256 * ((n / 0x10000) % 256
        + 256 * ((n / 0x1000000) % 256))) == n) by (bit_vector);
    assert(buf[pos + 2] + 256 * (buf[pos + 3] + 256 * (buf[pos + 4] + 256 * buf[pos + 5]))
        == n);
    assert forall|k: int| 0 <= k < data.len() implies
        buf.subrange(pos + 8, pos + 8 + data.len())[k] == data[k] by {
        assert(sub[8 + k] == enc[8 + k]);
        assert(enc[8 + k] == data[k]);
    }
    assert(buf.subrange(pos + 8, pos + 8 + data.len()) =~= data);
}

} // verus!
