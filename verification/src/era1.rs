//! Whole-file assembly and parsing of era1 containers: the block
//! tuples in order, each as four tagged records, terminated by one
//! accumulator record for the file.

use vstd::prelude::*;

use crate::e2s::{
    read_entry, spec_entry_bytes, spec_parse_entry, write_entry, E2sError, ACCUMULATOR,
    COMPRESSED_BODY, COMPRESSED_HEADER, COMPRESSED_RECEIPTS, TOTAL_DIFFICULTY,
};
use crate::execution_types::{
    Accumulator, BlockTuple, CompressedBody, CompressedHeader, CompressedReceipts,
    TotalDifficulty, MAX_BLOCKS_PER_ERA1,
};
use crate::u256::{spec_u256_be, spec_u256_of_be, U256};

verus! {

/// The mathematical content of one block tuple: the three compressed
/// payloads and the difficulty value.
pub ghost struct BlockTupleView {
    /// Compressed header bytes.
    pub header: Seq<u8>,
    /// Compressed body bytes.
    pub body: Seq<u8>,
    /// Compressed receipts bytes.
    pub receipts: Seq<u8>,
    /// The 256-bit cumulative difficulty.
    pub total_difficulty: U256,
}

impl View for BlockTuple {
    type V = BlockTupleView;

    open spec fn view(&self) -> BlockTupleView {
        BlockTupleView {
            header: self.header.data@,
            body: self.body.data@,
            receipts: self.receipts.data@,
            total_difficulty: self.total_difficulty.value,
        }
    }
}

/// Whether each of the tuple's compressed payloads fits the record
/// length field.
pub open spec fn spec_tuple_fits(t: BlockTupleView) -> bool {
    &&& t.header.len() <= u32::MAX
    &&& t.body.len() <= u32::MAX
    &&& t.receipts.len() <= u32::MAX
}

/// The on-disk bytes of one block tuple: header, body, receipts and
/// total-difficulty records in that order.
pub open spec fn spec_block_tuple_bytes(t: BlockTupleView) -> Seq<u8> {
    spec_entry_bytes(COMPRESSED_HEADER, t.header) + spec_entry_bytes(COMPRESSED_BODY, t.body)
        + spec_entry_bytes(COMPRESSED_RECEIPTS, t.receipts)
        + spec_entry_bytes(TOTAL_DIFFICULTY, spec_u256_be(t.total_difficulty))
}

/// The concatenated bytes of a run of block tuples.
pub open spec fn spec_tuples_bytes(ts: Seq<BlockTupleView>) -> Seq<u8>
    decreases ts.len(),
{
    if ts.len() == 0 {
        Seq::empty()
    } else {
        spec_block_tuple_bytes(ts.first()) + spec_tuples_bytes(ts.drop_first())
    }
}

/// The on-disk bytes of a whole era1 file: every block tuple in order,
/// then the accumulator record.
pub open spec fn spec_era1_bytes(ts: Seq<BlockTupleView>, root: Seq<u8>) -> Seq<u8> {
    spec_tuples_bytes(ts) + spec_entry_bytes(ACCUMULATOR, root)
}

/// Parses the era1 content that starts at `pos`: a run of block
/// tuples terminated by an accumulator record that ends the buffer.
/// `None` when the bytes there are not of that shape.
pub open spec fn spec_parse_era1_at(buf: Seq<u8>, pos: int) -> Option<(
    Seq<BlockTupleView>,
    Seq<u8>,
)>
    decreases buf.len() - pos,
{
    match spec_parse_entry(buf, pos) {
        None => None,
        Some((tag1, d1, p1)) => {
            if tag1 == ACCUMULATOR {
                if d1.len() == 32 && p1 == buf.len() {
                    Some((Seq::empty(), d1))
                } else {
                    None
                }
            } else if tag1 != COMPRESSED_HEADER {
                None
            } else {
                match spec_parse_entry(buf, p1) {
                    None => None,
                    Some((tag2, d2, p2)) => {
                        if tag2 != COMPRESSED_BODY {
                            None
                        } else {
                            match spec_parse_entry(buf, p2) {
                                None => None,
                                Some((tag3, d3, p3)) => {
                                    if tag3 != COMPRESSED_RECEIPTS {
                                        None
                                    } else {
                                        match spec_parse_entry(buf, p3) {
                                            None => None,
                                            Some((tag4, d4, p4)) => {
                                                if tag4 != TOTAL_DIFFICULTY || d4.len() != 32 {
                                                    None
                                                } else if !(pos < p4 <= buf.len()) {
                                                    None
                                                } else {
                                                    match spec_parse_era1_at(buf, p4) {
                                                        None => None,
                                                        Some((rest, root)) => {
                                                            let tv = BlockTupleView {
                                                                header: d1,
                                                                body: d2,
                                                                receipts: d3,
                                                                total_difficulty:
                                                                    spec_u256_of_be(d4),
                                                            };
                                                            Some((seq![tv] + rest, root))
                                                        },
                                                    }
                                                }
                                            },
                                        }
                                    }
                                },
                            }
                        }
                    },
                }
            }
        },
    }
}

/// Appending one tuple's bytes on the right matches pushing the tuple
/// on the right of the run.
pub proof fn lemma_tuples_bytes_push(ts: Seq<BlockTupleView>, t: BlockTupleView)
    ensures
        spec_tuples_bytes(ts.push(t)) == spec_tuples_bytes(ts) + spec_block_tuple_bytes(t),
    decreases ts.len(),
{
    if ts.len() == 0 {
        assert(ts.push(t).drop_first() =~= Seq::<BlockTupleView>::empty());
        assert(ts.push(t).first() == t);
        assert(spec_tuples_bytes(ts.push(t).drop_first()) == Seq::<u8>::empty());
        assert(spec_tuples_bytes(ts.push(t))
            == spec_block_tuple_bytes(t) + Seq::<u8>::empty());
        assert(spec_tuples_bytes(ts) == Seq::<u8>::empty());
        assert(spec_tuples_bytes(ts.push(t)) =~= spec_tuples_bytes(ts)
            + spec_block_tuple_bytes(t));
    } else {
        lemma_tuples_bytes_push(ts.drop_first(), t);
        assert(ts.push(t).drop_first() =~= ts.drop_first().push(t));
        assert(ts.push(t).first() == ts.first());
        assert(spec_tuples_bytes(ts.push(t)) == spec_block_tuple_bytes(ts.first())
            + spec_tuples_bytes(ts.drop_first().push(t)));
        assert(spec_tuples_bytes(ts) == spec_block_tuple_bytes(ts.first())
            + spec_tuples_bytes(ts.drop_first()));
        assert(spec_tuples_bytes(ts.push(t)) =~= spec_tuples_bytes(ts)
            + spec_block_tuple_bytes(t));
    }
}

/// Rejects a block count that the accumulator's fixed-depth hash tree
/// cannot cover. The check is made before any accumulator is computed.
pub fn validate_block_count(count: usize) -> (r: Result<(), E2sError>)
    ensures
        r is Ok <==> count <= MAX_BLOCKS_PER_ERA1,
        r is Err ==> r->Err_0 == E2sError::TooManyBlocks,
{
    if count > MAX_BLOCKS_PER_ERA1 {
        Err(E2sError::TooManyBlocks)
    } else {
        Ok(())
    }
}

/// Serializes a whole era1 file: each block tuple's four records in
/// order, then the accumulator record. Rejects more than
/// `MAX_BLOCKS_PER_ERA1` tuples before writing anything, and fails
/// with `BadLength` when a compressed payload overflows a record's
/// length field.
pub fn assemble_era1(tuples: &Vec<BlockTuple>, accumulator: &Accumulator) -> (r: Result<
    Vec<u8>,
    E2sError,
>)
    requires
        accumulator.root@.len() == 32,
    ensures
        match r {
            Ok(bytes) => {
                &&& tuples@.len() <= MAX_BLOCKS_PER_ERA1
                &&& bytes@ == spec_era1_bytes(
                    tuples@.map_values(|t: BlockTuple| t@),
                    accumulator.root@,
                )
            },
            Err(e) => {
                &&& (e == E2sError::TooManyBlocks || e == E2sError::BadLength)
                &&& (e == E2sError::TooManyBlocks <==> tuples@.len() > MAX_BLOCKS_PER_ERA1)
                &&& e == E2sError::BadLength ==> exists|i: int|
                    0 <= i < tuples@.len() && !spec_tuple_fits(tuples@[i]@)
            },
        },
{
    validate_block_count(tuples.len())?;
    let ghost views = tuples@.map_values(|t: BlockTuple| t@);
    let mut out: Vec<u8> = Vec::new();
    let mut i: usize = 0;
    while i < tuples.len()
        invariant
            i <= tuples@.len(),
            tuples@.len() <= MAX_BLOCKS_PER_ERA1,
            views == tuples@.map_values(|t: BlockTuple| t@),
            views.len() == tuples@.len(),
            out@ == spec_tuples_bytes(views.subrange(0, i as int)),
        decreases tuples@.len() - i,
    {
        let t = &tuples[i];
        let ghost out0 = out@;
        let r1 = write_entry(&mut out, &t.header.to_entry());
        if r1.is_err() {
            proof {
                assert(tuples@.len() <= MAX_BLOCKS_PER_ERA1);
                assert(!spec_tuple_fits(tuples@[i as int]@));
                assert(exists|j: int|
                    0 <= j < tuples@.len() && !spec_tuple_fits(#[trigger] tuples@[j]@));
            }
            return Err(E2sError::BadLength);
        }
        let r2 = write_entry(&mut out, &t.body.to_entry());
        if r2.is_err() {
            proof {
                assert(tuples@.len() <= MAX_BLOCKS_PER_ERA1);
                assert(!spec_tuple_fits(tuples@[i as int]@));
                assert(exists|j: int|
                    0 <= j < tuples@.len() && !spec_tuple_fits(#[trigger] tuples@[j]@));
            }
            return Err(E2sError::BadLength);
        }
        let r3 = write_entry(&mut out, &t.receipts.to_entry());
        if r3.is_err() {
            proof {
                assert(tuples@.len() <= MAX_BLOCKS_PER_ERA1);
                assert(!spec_tuple_fits(tuples@[i as int]@));
                assert(exists|j: int|
                    0 <= j < tuples@.len() && !spec_tuple_fits(#[trigger] tuples@[j]@));
            }
            return Err(E2sError::BadLength);
        }
        let r4 = write_entry(&mut out, &t.total_difficulty.to_entry());
        if r4.is_err() {
            proof {
                crate::u256::lemma_u256_be_len(t.total_difficulty.value);
                assert(false);
            }
            return Err(E2sError::BadLength);
        }
        proof {
            assert(views[i as int] == t@);
            assert(out@ =~= out0 + spec_block_tuple_bytes(t@));
            lemma_tuples_bytes_push(views.subrange(0, i as int), views[i as int]);
            assert(views.subrange(0, i as int).push(views[i as int])
                =~= views.subrange(0, i + 1));
        }
        i = i + 1;
    }
    let acc_entry = accumulator.to_entry();
    let r5 = write_entry(&mut out, &acc_entry);
    proof {
        assert(r5 is Ok);
        assert(views.subrange(0, views.len() as int) =~= views);
    }
    Ok(out)
}

/// Parses a whole era1 file back into its block tuples and its
/// accumulator. Succeeds exactly when the bytes are a run of
/// well-formed block tuples closed by an accumulator record that ends
/// the buffer, with no more than `MAX_BLOCKS_PER_ERA1` tuples.
pub fn parse_era1(buf: &[u8]) -> (r: Result<(Vec<BlockTuple>, Accumulator), E2sError>)
    ensures
        match r {
            Ok((tuples, acc)) => {
                &&& spec_parse_era1_at(buf@, 0) == Some(
                    (tuples@.map_values(|t: BlockTuple| t@), acc.root@),
                )
                &&& buf@ == spec_era1_bytes(tuples@.map_values(|t: BlockTuple| t@), acc.root@)
                &&& tuples@.len() <= MAX_BLOCKS_PER_ERA1
                &&& acc.root@.len() == 32
            },
            Err(e) => {
                match spec_parse_era1_at(buf@, 0) {
                    None => true,
                    Some((ts, root)) => ts.len() > MAX_BLOCKS_PER_ERA1
                        && e == E2sError::TooManyBlocks,
                }
            },
        },
{
    let mut tuples: Vec<BlockTuple> = Vec::new();
    let mut pos: usize = 0;
    loop
        invariant
            pos <= buf@.len(),
            ({
                let views = tuples@.map_values(|t: BlockTuple| t@);
                match spec_parse_era1_at(buf@, pos as int) {
                    None => spec_parse_era1_at(buf@, 0) is None,
                    Some((rest, root)) => spec_parse_era1_at(buf@, 0) == Some(
                        (views + rest, root),
                    ),
                }
            }),
        decreases buf@.len() - pos,
    {
        let ghost views = tuples@.map_values(|t: BlockTuple| t@);
        let (e1, p1) = match read_entry(buf, pos) {
            Ok(v) => v,
            Err(e) => {
                return Err(e);
            },
        };
        if e1.entry_type == ACCUMULATOR {
            let acc = match Accumulator::from_entry(&e1) {
                Ok(a) => a,
                Err(e) => {
                    return Err(e);
                },
            };
            if p1 != buf.len() {
                return Err(E2sError::TrailingData);
            }
            if tuples.len() > MAX_BLOCKS_PER_ERA1 {
                return Err(E2sError::TooManyBlocks);
            }
            proof {
                assert(spec_parse_era1_at(buf@, pos as int) == Some(
                    (Seq::<BlockTupleView>::empty(), e1.data@),
                ));
                assert(views + Seq::<BlockTupleView>::empty() =~= views);
                lemma_era1_parse_sound(buf@, 0);
                assert(buf@.subrange(0, buf@.len() as int) =~= buf@);
            }
            return Ok((tuples, acc));
        }
        let header = match CompressedHeader::from_entry(&e1) {
            Ok(h) => h,
            Err(e) => {
                return Err(e);
            },
        };
        let (e2, p2) = match read_entry(buf, p1) {
            Ok(v) => v,
            Err(e) => {
                return Err(e);
            },
        };
        let body = match CompressedBody::from_entry(&e2) {
            Ok(b) => b,
            Err(e) => {
                return Err(e);
            },
        };
        let (e3, p3) = match read_entry(buf, p2) {
            Ok(v) => v,
            Err(e) => {
                return Err(e);
            },
        };
        let receipts = match CompressedReceipts::from_entry(&e3) {
            Ok(c) => c,
            Err(e) => {
                return Err(e);
            },
        };
        let (e4, p4) = match read_entry(buf, p3) {
            Ok(v) => v,
            Err(e) => {
                return Err(e);
            },
        };
        let total_difficulty = match TotalDifficulty::from_entry(&e4) {
            Ok(td) => td,
            Err(e) => {
                return Err(e);
            },
        };
        let tuple = BlockTuple { header, body, receipts, total_difficulty };
        proof {
            let tv = BlockTupleView {
                header: e1.data@,
                body: e2.data@,
                receipts: e3.data@,
                total_difficulty: spec_u256_of_be(e4.data@),
            };
            assert(tuple@ == tv);
            match spec_parse_era1_at(buf@, p4 as int) {
                None => {
                    assert(spec_parse_era1_at(buf@, pos as int) is None);
                },
                Some((rest, root)) => {
                    assert(spec_parse_era1_at(buf@, pos as int) == Some(
                        (seq![tv] + rest, root),
                    ));
                    assert(views + (seq![tv] + rest) =~= (views.push(tv)) + rest);
                },
            }
            assert(tuples@.push(tuple).map_values(|t: BlockTuple| t@)
                =~= views.push(tv));
        }
        tuples.push(tuple);
        pos = p4;
    }
}

/// An era1 file built from a run of tuples and a root parses back to
/// exactly that run and that root: the file-level round trip.
pub proof fn lemma_era1_roundtrip(ts: Seq<BlockTupleView>, root: Seq<u8>)
    requires
        root.len() == 32,
        forall|i: int| 0 <= i < ts.len() ==> spec_tuple_fits(#[trigger] ts[i]),
    ensures
        spec_parse_era1_at(spec_era1_bytes(ts, root), 0) == Some((ts, root)),
{
    let buf = spec_era1_bytes(ts, root);
    assert(buf.subrange(0, buf.len() as int) =~= buf);
    lemma_era1_parse_tail(buf, 0, ts, root);
}

/// Parsing an entry laid at the front of the remaining buffer
/// recovers it and leaves the rest.
proof fn lemma_parse_prefix_entry(buf: Seq<u8>, pos: int, tag: u16, d: Seq<u8>, rest: Seq<u8>)
    requires
        d.len() <= u32::MAX,
        0 <= pos <= buf.len(),
        buf.subrange(pos, buf.len() as int) == spec_entry_bytes(tag, d) + rest,
    ensures
        spec_parse_entry(buf, pos) == Some((tag, d, pos + 8 + d.len())),
        pos + 8 + d.len() + rest.len() == buf.len(),
        buf.subrange(pos + 8 + d.len(), buf.len() as int) == rest,
{
    let enc = spec_entry_bytes(tag, d);
    crate::e2s::lemma_entry_bytes_len(tag, d);
    assert(buf.subrange(pos, buf.len() as int).len() == enc.len() + rest.len());
    assert(buf.len() - pos == enc.len() + rest.len());
    assert(buf.subrange(pos, pos + 8 + d.len()) =~= enc) by {
        let tail = buf.subrange(pos, buf.len() as int);
        assert forall|k: int| 0 <= k < enc.len() implies
            buf.subrange(pos, pos + 8 + d.len())[k] == enc[k] by {
            assert(tail[k] == buf[pos + k]);
            assert(tail[k] == (enc + rest)[k]);
        }
    }
    crate::e2s::lemma_entry_roundtrip(buf, pos, tag, d);
    assert(buf.subrange(pos + 8 + d.len(), buf.len() as int) =~= rest) by {
        let tail = buf.subrange(pos, buf.len() as int);
        assert forall|k: int| 0 <= k < rest.len() implies
            buf.subrange(pos + 8 + d.len(), buf.len() as int)[k] == rest[k] by {
            assert(tail[8 + d.len() + k] == buf[pos + 8 + d.len() + k]);
            assert(tail[8 + d.len() + k] == (enc + rest)[8 + d.len() + k]);
        }
    }
}

/// The era1 bytes of `ts` and `root`, laid as the whole tail of a
/// buffer, parse back to `ts` and `root`.
#[verifier::rlimit(100)]
proof fn lemma_era1_parse_tail(buf: Seq<u8>, pos: int, ts: Seq<BlockTupleView>, root: Seq<u8>)
    requires
        root.len() == 32,
        forall|i: int| 0 <= i < ts.len() ==> spec_tuple_fits(#[trigger] ts[i]),
        0 <= pos <= buf.len(),
        buf.subrange(pos, buf.len() as int) == spec_era1_bytes(ts, root),
    ensures
        spec_parse_era1_at(buf, pos) == Some((ts, root)),
    decreases ts.len(),
{
    if ts.len() == 0 {
        assert(spec_tuples_bytes(ts) =~= Seq::<u8>::empty());
        assert(buf.subrange(pos, buf.len() as int) =~= spec_entry_bytes(ACCUMULATOR, root)
            + Seq::<u8>::empty());
        lemma_parse_prefix_entry(buf, pos, ACCUMULATOR, root, Seq::empty());
        assert(pos + 8 + 32 == buf.len());
    } else {
        let t = ts.first();
        let rest_ts = ts.drop_first();
        assert(spec_tuple_fits(ts[0]));
        let after1 = spec_entry_bytes(COMPRESSED_BODY, t.body)
            + spec_entry_bytes(COMPRESSED_RECEIPTS, t.receipts)
            + spec_entry_bytes(TOTAL_DIFFICULTY, spec_u256_be(t.total_difficulty))
            + spec_era1_bytes(rest_ts, root);
        assert(buf.subrange(pos, buf.len() as int)
            =~= spec_entry_bytes(COMPRESSED_HEADER, t.header) + after1);
        lemma_parse_prefix_entry(buf, pos, COMPRESSED_HEADER, t.header, after1);
        let p1 = pos + 8 + t.header.len();
        let after2 = spec_entry_bytes(COMPRESSED_RECEIPTS, t.receipts)
            + spec_entry_bytes(TOTAL_DIFFICULTY, spec_u256_be(t.total_difficulty))
            + spec_era1_bytes(rest_ts, root);
        assert(buf.subrange(p1, buf.len() as int)
            =~= spec_entry_bytes(COMPRESSED_BODY, t.body) + after2);
        lemma_parse_prefix_entry(buf, p1, COMPRESSED_BODY, t.body, after2);
        let p2 = p1 + 8 + t.body.len();
        let after3 = spec_entry_bytes(TOTAL_DIFFICULTY, spec_u256_be(t.total_difficulty))
            + spec_era1_bytes(rest_ts, root);
        assert(buf.subrange(p2, buf.len() as int)
            =~= spec_entry_bytes(COMPRESSED_RECEIPTS, t.receipts) + after3);
        lemma_parse_prefix_entry(buf, p2, COMPRESSED_RECEIPTS, t.receipts, after3);
        let p3 = p2 + 8 + t.receipts.len();
        let after4 = spec_era1_bytes(rest_ts, root);
        assert(buf.subrange(p3, buf.len() as int)
            =~= spec_entry_bytes(TOTAL_DIFFICULTY, spec_u256_be(t.total_difficulty)) + after4);
        crate::u256::lemma_u256_be_len(t.total_difficulty);
        assert(spec_u256_be(t.total_difficulty).len() == 32);
        lemma_parse_prefix_entry(buf, p3, TOTAL_DIFFICULTY, spec_u256_be(t.total_difficulty),
            after4);
        let p4 = p3 + 8 + 32;
        assert forall|i: int| 0 <= i < rest_ts.len() implies
            spec_tuple_fits(#[trigger] rest_ts[i]) by {
            assert(rest_ts[i] == ts[i + 1]);
        }
        lemma_era1_parse_tail(buf, p4, rest_ts, root);
        crate::u256::lemma_u256_be_roundtrip(t.total_difficulty);
        assert(seq![t] + rest_ts =~= ts);
    }
}

/// What is read was written: when a parse from `pos` succeeds, the
/// bytes from `pos` to the end are exactly the encoding of the parsed
/// tuples and root, every tuple fits its records, and the root is 32
/// bytes. Together with `lemma_era1_roundtrip` this makes parsing and
/// serialization mutually inverse.
#[verifier::rlimit(100)]
pub proof fn lemma_era1_parse_sound(buf: Seq<u8>, pos: int)
    requires
        0 <= pos <= buf.len(),
        spec_parse_era1_at(buf, pos) is Some,
    ensures
        ({
            let (ts, root) = spec_parse_era1_at(buf, pos).unwrap();
            &&& root.len() == 32
            &&& forall|i: int| 0 <= i < ts.len() ==> spec_tuple_fits(#[trigger] ts[i])
            &&& buf.subrange(pos, buf.len() as int) == spec_era1_bytes(ts, root)
        }),
    decreases buf.len() - pos,
{
    let (ts, root) = spec_parse_era1_at(buf, pos).unwrap();
    let (tag1, d1, p1) = spec_parse_entry(buf, pos).unwrap();
    crate::e2s::lemma_parse_entry_inverse(buf, pos);
    if tag1 == ACCUMULATOR {
        assert(ts =~= Seq::<BlockTupleView>::empty());
        assert(root == d1 && p1 == buf.len());
        assert(spec_tuples_bytes(ts) == Seq::<u8>::empty());
        assert(buf.subrange(pos, buf.len() as int) =~= spec_era1_bytes(ts, root));
    } else {
        let (tag2, d2, p2) = spec_parse_entry(buf, p1).unwrap();
        crate::e2s::lemma_parse_entry_inverse(buf, p1);
        let (tag3, d3, p3) = spec_parse_entry(buf, p2).unwrap();
        crate::e2s::lemma_parse_entry_inverse(buf, p2);
        let (tag4, d4, p4) = spec_parse_entry(buf, p3).unwrap();
        crate::e2s::lemma_parse_entry_inverse(buf, p3);
        lemma_era1_parse_sound(buf, p4);
        let (rest, root2) = spec_parse_era1_at(buf, p4).unwrap();
        let tv = BlockTupleView {
            header: d1,
            body: d2,
            receipts: d3,
            total_difficulty: spec_u256_of_be(d4),
        };
        assert(ts == seq![tv] + rest && root == root2);
        crate::u256::lemma_u256_of_be_roundtrip(d4);
        assert(spec_u256_be(tv.total_difficulty) == d4);
        assert(buf.subrange(pos, buf.len() as int) =~= buf.subrange(pos, p1)
            + buf.subrange(p1, p2) + buf.subrange(p2, p3) + buf.subrange(p3, p4)
            + buf.subrange(p4, buf.len() as int));
        assert(ts.first() == tv);
        assert(ts.drop_first() =~= rest);
        assert(spec_tuples_bytes(ts) == spec_block_tuple_bytes(tv) + spec_tuples_bytes(rest));
        assert(buf.subrange(pos, buf.len() as int) =~= spec_era1_bytes(ts, root));
        assert forall|i: int| 0 <= i < ts.len() implies spec_tuple_fits(#[trigger] ts[i]) by {
            if i == 0 {
                assert(ts[0] == tv);
            } else {
                assert(ts[i] == rest[i - 1]);
                assert(spec_tuple_fits(rest[i - 1]));
            }
        }
    }
}

} // verus!
