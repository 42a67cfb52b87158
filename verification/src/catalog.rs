//! The mirror index: scanning a directory-listing document for
//! archive file names of the form `<network>-<5 digits>-<8 hex>.era1`,
//! and building the ordered catalog of one mirror. Text around the
//! names is ignored — a listing is parsed permissively — but the
//! sequence numbers found must cover `0..n` without a gap: a mirror
//! whose catalog skips a number is rejected rather than silently
//! truncated.

use vstd::prelude::*;

verus! {

/// Errors of the mirror index.
#[derive(Debug, Clone, Copy, PartialEq, Eq, Structural)]
pub enum CatalogError {
    /// The names found do not cover a contiguous `0..n` range of
    /// sequence numbers.
    ParseFailure,
}

/// One discoverable archive file at a mirror.
#[derive(Debug, Clone)]
pub struct CatalogEntry {
    /// The file's sequence number.
    pub sequence_number: u64,
    /// The archive file name.
    pub file_name: Vec<u8>,
    /// Where to fetch it: the mirror base followed by the name.
    pub url: Vec<u8>,
}

/// An ASCII decimal digit.
pub open spec fn spec_is_digit(c: u8) -> bool {
    0x30 <= c <= 0x39
}

/// An ASCII lower-case hex digit.
pub open spec fn spec_is_lhex(c: u8) -> bool {
    spec_is_digit(c) || (0x61 <= c <= 0x66)
}

/// The length of an archive file name for this network.
pub open spec fn spec_name_len(network: Seq<u8>) -> int {
    network.len() as int + 20
}

/// Whether an archive file name for `network` starts at `i` in `doc`:
/// the network name, a dash, five digits, a dash, eight lower-case
/// hex digits, and the `.era1` suffix.
pub open spec fn spec_match_at(doc: Seq<u8>, network: Seq<u8>, i: int) -> bool {
    let nl = network.len() as int;
    &&& 0 <= i
    &&& i + nl + 20 <= doc.len()
    &&& doc.subrange(i, i + nl) == network
    &&& doc[i + nl] == 0x2d
    &&& spec_is_digit(doc[i + nl + 1])
    &&& spec_is_digit(doc[i + nl + 2])
    &&& spec_is_digit(doc[i + nl + 3])
    &&& spec_is_digit(doc[i + nl + 4])
    &&& spec_is_digit(doc[i + nl + 5])
    &&& doc[i + nl + 6] == 0x2d
    &&& spec_is_lhex(doc[i + nl + 7])
    &&& spec_is_lhex(doc[i + nl + 8])
    &&& spec_is_lhex(doc[i + nl + 9])
    &&& spec_is_lhex(doc[i + nl + 10])
    &&& spec_is_lhex(doc[i + nl + 11])
    &&& spec_is_lhex(doc[i + nl + 12])
    &&& spec_is_lhex(doc[i + nl + 13])
    &&& spec_is_lhex(doc[i + nl + 14])
    &&& doc[i + nl + 15] == 0x2e
    &&& doc[i + nl + 16] == 0x65
    &&& doc[i + nl + 17] == 0x72
    &&& doc[i + nl + 18] == 0x61
    &&& doc[i + nl + 19] == 0x31
}

/// The sequence number written in the five digits of the name that
/// starts at `i`.
pub open spec fn spec_seq_at(doc: Seq<u8>, network: Seq<u8>, i: int) -> int {
    let nl = network.len() as int;
    (doc[i + nl + 1] - 0x30) * 10000 + (doc[i + nl + 2] - 0x30) * 1000 + (doc[i + nl + 3]
        - 0x30) * 100 + (doc[i + nl + 4] - 0x30) * 10 + (doc[i + nl + 5] - 0x30)
}

/// The name that starts at `i`.
pub open spec fn spec_name_at(doc: Seq<u8>, network: Seq<u8>, i: int) -> Seq<u8> {
    doc.subrange(i, i + spec_name_len(network))
}

/// Whether some name in `doc` carries sequence number `s`.
pub open spec fn spec_has_seq(doc: Seq<u8>, network: Seq<u8>, s: int) -> bool {
    exists|i: int| #[trigger] spec_match_at(doc, network, i) && spec_seq_at(doc, network, i) == s
}

/// Whether catalog entry `k` was taken from a name in the document:
/// some name with sequence number `k` supplies the file name, and the
/// URL is the mirror base followed by that name.
pub open spec fn spec_entry_from(
    doc: Seq<u8>,
    network: Seq<u8>,
    base: Seq<u8>,
    name: Seq<u8>,
    url: Seq<u8>,
    k: int,
) -> bool {
    exists|i: int|
        #[trigger] spec_match_at(doc, network, i) && spec_seq_at(doc, network, i) == k && name
            == spec_name_at(doc, network, i) && url == base + spec_name_at(doc, network, i)
}

/// Whether a name for `network` starts at `i` in `doc`.
fn match_at(doc: &[u8], network: &[u8], i: usize) -> (r: bool)
    requires
        network@.len() + 20 <= usize::MAX,
    ensures
        r == spec_match_at(doc@, network@, i as int),
{
    let nl = network.len();
    if doc.len() < nl + 20 || i > doc.len() - (nl + 20) {
        return false;
    }
    let mut k: usize = 0;
    while k < nl
        invariant
            k <= nl,
            nl == network@.len(),
            i + nl + 20 <= doc@.len(),
            i + nl + 20 <= usize::MAX,
            forall|m: int| 0 <= m < k ==> doc@[i + m] == network@[m],
        decreases nl - k,
    {
        if doc[i + k] != network[k] {
            proof {
                assert(doc@[i + k as int] != network@[k as int]);
                assert(doc@.subrange(i as int, i + nl) != network@) by {
                    assert(doc@.subrange(i as int, i + nl)[k as int] == doc@[i + k as int]);
                }
            }
            return false;
        }
        k = k + 1;
    }
    proof {
        assert(doc@.subrange(i as int, i + nl) =~= network@);
    }
    let p = i + nl;
    let digits_ok = is_digit(doc[p + 1]) && is_digit(doc[p + 2]) && is_digit(doc[p + 3])
        && is_digit(doc[p + 4]) && is_digit(doc[p + 5]);
    let hex_ok = is_lhex(doc[p + 7]) && is_lhex(doc[p + 8]) && is_lhex(doc[p + 9])
        && is_lhex(doc[p + 10]) && is_lhex(doc[p + 11]) && is_lhex(doc[p + 12])
        && is_lhex(doc[p + 13]) && is_lhex(doc[p + 14]);
    let frame_ok = doc[p] == 0x2d && doc[p + 6] == 0x2d && doc[p + 15] == 0x2e
        && doc[p + 16] == 0x65 && doc[p + 17] == 0x72 && doc[p + 18] == 0x61
        && doc[p + 19] == 0x31;
    digits_ok && hex_ok && frame_ok
}

/// An ASCII decimal digit.
fn is_digit(c: u8) -> (r: bool)
    ensures
        r == spec_is_digit(c),
{
    0x30 <= c && c <= 0x39
}

/// An ASCII lower-case hex digit.
fn is_lhex(c: u8) -> (r: bool)
    ensures
        r == spec_is_lhex(c),
{
    (0x30 <= c && c <= 0x39) || (0x61 <= c && c <= 0x66)
}

/// Reads the sequence number of the name that starts at `i`.
fn seq_at(doc: &[u8], network: &[u8], i: usize) -> (r: u64)
    requires
        spec_match_at(doc@, network@, i as int),
        i + network@.len() + 20 <= usize::MAX,
    ensures
        r == spec_seq_at(doc@, network@, i as int),
        r < 100000,
{
    let p = i + network.len();
    let d1 = (doc[p + 1] - 0x30) as u64;
    let d2 = (doc[p + 2] - 0x30) as u64;
    let d3 = (doc[p + 3] - 0x30) as u64;
    let d4 = (doc[p + 4] - 0x30) as u64;
    let d5 = (doc[p + 5] - 0x30) as u64;
    d1 * 10000 + d2 * 1000 + d3 * 100 + d4 * 10 + d5
}

/// Concatenates two byte strings.
fn concat_bytes(a: &[u8], b: &[u8]) -> (r: Vec<u8>)
    ensures
        r@ == a@ + b@,
{
    let mut out: Vec<u8> = Vec::new();
    let mut i: usize = 0;
    while i < a.len()
        invariant
            i <= a@.len(),
            out@ == a@.subrange(0, i as int),
        decreases a@.len() - i,
    {
        out.push(a[i]);
        proof {
            assert(a@.subrange(0, i + 1) == a@.subrange(0, i as int).push(a@[i as int]));
        }
        i = i + 1;
    }
    proof {
        assert(a@.subrange(0, a@.len() as int) == a@);
    }
    let mut j: usize = 0;
    while j < b.len()
        invariant
            j <= b@.len(),
            out@ == a@ + b@.subrange(0, j as int),
        decreases b@.len() - j,
    {
        out.push(b[j]);
        proof {
            assert(b@.subrange(0, j + 1) == b@.subrange(0, j as int).push(b@[j as int]));
        }
        j = j + 1;
    }
    proof {
        assert(b@.subrange(0, b@.len() as int) == b@);
        assert(out@ =~= a@ + b@);
    }
    out
}

/// Scans a mirror's listing document and builds the catalog for
/// `network`, ordered by sequence number. Entry `k` carries sequence
/// number `k`, a name found in the document with that number, and the
/// mirror base followed by the name. Succeeds exactly when the
/// numbers found cover `0..n` for some `n`; a gap rejects the listing.
pub fn list(doc: &[u8], network: &[u8], base_url: &[u8]) -> (r: Result<
    Vec<CatalogEntry>,
    CatalogError,
>)
    requires
        network@.len() + 20 <= usize::MAX,
    ensures
        match r {
            Ok(cat) => {
                &&& forall|k: int| 0 <= k < cat@.len() ==> (#[trigger] cat@[k]).sequence_number
                    == k
                &&& forall|k: int| 0 <= k < cat@.len() ==> spec_entry_from(
                    doc@,
                    network@,
                    base_url@,
                    (#[trigger] cat@[k]).file_name@,
                    cat@[k].url@,
                    k,
                )
                &&& forall|s: int| spec_has_seq(doc@, network@, s) ==> 0 <= s < cat@.len()
            },
            Err(e) => {
                &&& e == CatalogError::ParseFailure
                &&& exists|s: int, t: int|
                    0 <= t < s && #[trigger] spec_has_seq(doc@, network@, s)
                        && !#[trigger] spec_has_seq(doc@, network@, t)
            },
        },
{
    let dn: usize = doc.len();
    let mut positions: Vec<usize> = Vec::new();
    let mut i: usize = 0;
    while i < doc.len()
        invariant
            dn == doc@.len(),
            i <= doc@.len(),
            network@.len() + 20 <= usize::MAX,
            forall|m: int| 0 <= m < positions@.len() ==> #[trigger] spec_match_at(
                doc@,
                network@,
                positions@[m] as int,
            ),
            forall|p: int| 0 <= p < i && #[trigger] spec_match_at(doc@, network@, p)
                ==> positions@.contains(p as usize),
        decreases doc@.len() - i,
    {
        if match_at(doc, network, i) {
            let ghost old_positions = positions@;
            positions.push(i);
            proof {
                assert(positions@ == old_positions.push(i));
                assert(positions@[positions@.len() - 1] == i);
                assert forall|p: int| 0 <= p < i + 1 && #[trigger] spec_match_at(
                    doc@,
                    network@,
                    p,
                ) implies positions@.contains(p as usize) by {
                    if p < i {
                        let m = choose|m: int|
                            0 <= m < old_positions.len() && old_positions[m] == p as usize;
                        assert(positions@[m] == p as usize);
                    } else {
                        assert(positions@[positions@.len() - 1] == p as usize);
                    }
                }
            }
        }
        i = i + 1;
    }
    proof {
        assert forall|p: int| #[trigger] spec_match_at(doc@, network@, p) implies
            positions@.contains(p as usize) by {
            assert(p + network@.len() + 20 <= doc@.len());
        }
    }
    if positions.len() == 0 {
        let cat: Vec<CatalogEntry> = Vec::new();
        proof {
            assert forall|s: int| spec_has_seq(doc@, network@, s) implies 0 <= s < 0 by {
                let i0 = choose|i0: int|
                    #[trigger] spec_match_at(doc@, network@, i0)
                        && spec_seq_at(doc@, network@, i0) == s;
                assert(positions@.contains(i0 as usize));
            }
        }
        return Ok(cat);
    }
    proof {
        assert forall|q: int| 0 <= q < positions@.len() implies positions@[q] + network@.len()
            + 20 <= doc@.len() by {
            assert(spec_match_at(doc@, network@, positions@[q] as int));
        }
    }
    let mut max_seq: u64 = 0;
    let mut m: usize = 0;
    let ghost mut max_witness: int = positions@[0] as int;
    proof {
        assert(positions@.contains(positions@[0]));
    }
    while m < positions.len()
        invariant
            dn == doc@.len(),
            m <= positions@.len(),
            positions@.len() > 0,
            network@.len() + 20 <= usize::MAX,
            forall|q: int| 0 <= q < positions@.len() ==> #[trigger] spec_match_at(
                doc@,
                network@,
                positions@[q] as int,
            ),
            forall|q: int| 0 <= q < positions@.len()
                ==> positions@[q] + network@.len() + 20 <= doc@.len(),
            forall|q: int| 0 <= q < m ==> spec_seq_at(doc@, network@, positions@[q] as int)
                <= max_seq,
            m > 0 ==> spec_match_at(doc@, network@, max_witness) && spec_seq_at(
                doc@,
                network@,
                max_witness,
            ) == max_seq,
            m == 0 ==> max_seq == 0,
            max_seq < 100000,
        decreases positions@.len() - m,
    {
        let p = positions[m];
        let s = seq_at(doc, network, p);
        if m == 0 || s > max_seq {
            max_seq = s;
            proof {
                max_witness = p as int;
            }
        }
        m = m + 1;
    }
    let count: usize = (max_seq + 1) as usize;
    let mut cat: Vec<CatalogEntry> = Vec::new();
    let mut k: usize = 0;
    while k < count
        invariant
            dn == doc@.len(),
            k <= count,
            count == max_seq + 1,
            max_seq < 100000,
            cat@.len() == k,
            network@.len() + 20 <= usize::MAX,
            positions@.len() > 0,
            spec_match_at(doc@, network@, max_witness),
            spec_seq_at(doc@, network@, max_witness) == max_seq,
            forall|q: int| 0 <= q < positions@.len() ==> #[trigger] spec_match_at(
                doc@,
                network@,
                positions@[q] as int,
            ),
            forall|q: int| 0 <= q < positions@.len()
                ==> positions@[q] + network@.len() + 20 <= doc@.len(),
            forall|p: int| #[trigger] spec_match_at(doc@, network@, p) ==> positions@.contains(
                p as usize,
            ),
            forall|q: int| 0 <= q < positions@.len() ==> spec_seq_at(
                doc@,
                network@,
                positions@[q] as int,
            ) <= max_seq,
            forall|j: int| 0 <= j < k ==> (#[trigger] cat@[j]).sequence_number == j,
            forall|j: int| 0 <= j < k ==> spec_entry_from(
                doc@,
                network@,
                base_url@,
                (#[trigger] cat@[j]).file_name@,
                cat@[j].url@,
                j,
            ),
        decreases count - k,
    {
        let mut found: Option<usize> = None;
        let mut q: usize = 0;
        while found.is_none() && q < positions.len()
            invariant
                dn == doc@.len(),
                q <= positions@.len(),
                network@.len() + 20 <= usize::MAX,
                forall|q2: int| 0 <= q2 < positions@.len() ==> #[trigger] spec_match_at(
                    doc@,
                    network@,
                    positions@[q2] as int,
                ),
                forall|q2: int| 0 <= q2 < positions@.len()
                    ==> positions@[q2] + network@.len() + 20 <= doc@.len(),
                match found {
                    Some(p) => spec_match_at(doc@, network@, p as int) && spec_seq_at(
                        doc@,
                        network@,
                        p as int,
                    ) == k && p + network@.len() + 20 <= doc@.len(),
                    None => forall|q2: int| 0 <= q2 < q ==> spec_seq_at(
                        doc@,
                        network@,
                        #[trigger] positions@[q2] as int,
                    ) != k,
                },
            decreases positions@.len() - q,
        {
            let p = positions[q];
            let s = seq_at(doc, network, p);
            if s as usize == k {
                found = Some(p);
            }
            q = q + 1;
        }
        match found {
            Some(p) => {
                let nl = network.len();
                let name = crate::checksums::copy_range(doc, p, p + nl + 20);
                let url = concat_bytes(base_url, name.as_slice());
                let entry = CatalogEntry {
                    sequence_number: k as u64,
                    file_name: name,
                    url,
                };
                let ghost old_cat = cat@;
                cat.push(entry);
                proof {
                    assert(cat@[k as int].file_name@ == spec_name_at(doc@, network@, p as int));
                    assert forall|j: int| 0 <= j < k + 1 implies (#[trigger] cat@[j])
                        .sequence_number == j by {
                        if j < k {
                            assert(cat@[j] == old_cat[j]);
                        }
                    }
                }
            },
            None => {
                proof {
                    assert(!spec_has_seq(doc@, network@, k as int)) by {
                        if spec_has_seq(doc@, network@, k as int) {
                            let i0 = choose|i0: int|
                                #[trigger] spec_match_at(doc@, network@, i0)
                                    && spec_seq_at(doc@, network@, i0) == k as int;
                            assert(positions@.contains(i0 as usize));
                            let q0 = choose|q0: int|
                                0 <= q0 < positions@.len()
                                    && positions@[q0] == i0 as usize;
                            assert(spec_seq_at(doc@, network@, positions@[q0] as int) != k);
                        }
                    }
                    assert(spec_has_seq(doc@, network@, max_seq as int));
                    assert(0 <= k < max_seq as int);
                }
                return Err(CatalogError::ParseFailure);
            },
        }
        k = k + 1;
    }
    proof {
        assert forall|s: int| spec_has_seq(doc@, network@, s) implies 0 <= s < cat@.len() by {
            let i0 = choose|i0: int|
                #[trigger] spec_match_at(doc@, network@, i0)
                    && spec_seq_at(doc@, network@, i0) == s;
            assert(positions@.contains(i0 as usize));
            let q0 = choose|q0: int|
                0 <= q0 < positions@.len() && positions@[q0] == i0 as usize;
            assert(spec_seq_at(doc@, network@, positions@[q0] as int) <= max_seq);
            assert(spec_seq_at(doc@, network@, i0) >= 0);
        }
    }
    Ok(cat)
}

} // verus!
