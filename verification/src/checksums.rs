//! The checksum manifest: one line per archive file, a 64-digit hex
//! digest, two spaces, then the file name. A file absent from the
//! manifest may never be downloaded, and one malformed line spoils the
//! whole manifest — a silently incomplete manifest would let
//! unverified files through.

use vstd::prelude::*;

verus! {

/// Errors of the manifest layer.
#[derive(Debug, Clone, Copy, PartialEq, Eq, Structural)]
pub enum ManifestError {
    /// A line of the manifest is malformed; the whole manifest is
    /// rejected.
    ParseFailure,
    /// The looked-up file name has no manifest entry.
    UnknownFile,
}

/// One parsed manifest line: a file name and its content digest.
#[derive(Debug, Clone)]
pub struct ChecksumEntry {
    /// The archive file's name.
    pub file_name: Vec<u8>,
    /// The file's SHA-256 digest, 32 bytes decoded from hex.
    pub digest: Vec<u8>,
}

/// The parsed manifest of one mirror: entries in manifest order.
#[derive(Debug, Clone)]
pub struct ChecksumRegistry {
    /// The manifest's entries.
    pub entries: Vec<ChecksumEntry>,
}

/// The value of one hex digit, upper or lower case.
pub open spec fn spec_hex_val(c: u8) -> Option<u8> {
    if 0x30 <= c <= 0x39 {
        Some((c - 0x30) as u8)
    } else if 0x61 <= c <= 0x66 {
        Some((c - 0x61 + 10) as u8)
    } else if 0x41 <= c <= 0x46 {
        Some((c - 0x41 + 10) as u8)
    } else {
        None
    }
}

/// Decodes the hex digits of `s` from `pos` on, two digits to a byte.
/// `None` when a non-digit appears or an odd tail remains.
pub open spec fn spec_hex_decode_at(s: Seq<u8>, pos: int) -> Option<Seq<u8>>
    decreases s.len() - pos,
{
    if pos >= s.len() {
        Some(Seq::empty())
    } else if pos + 2 <= s.len() {
        match (spec_hex_val(s[pos]), spec_hex_val(s[pos + 1])) {
            (Some(h), Some(l)) => {
                match spec_hex_decode_at(s, pos + 2) {
                    None => None,
                    Some(rest) => Some(seq![(16 * h + l) as u8] + rest),
                }
            },
            _ => None,
        }
    } else {
        None
    }
}

/// One manifest line: 64 hex digits, two spaces, and a non-empty file
/// name. The result is the name and the decoded digest.
pub open spec fn spec_parse_checksum_line(line: Seq<u8>) -> Option<(Seq<u8>, Seq<u8>)> {
    if line.len() >= 67 && line[64] == 0x20 && line[65] == 0x20 {
        match spec_hex_decode_at(line.subrange(0, 64), 0) {
            None => None,
            Some(digest) => Some((line.subrange(66, line.len() as int), digest)),
        }
    } else {
        None
    }
}

/// The position of the first newline at or after `pos`, or the end of
/// the buffer.
pub open spec fn spec_find_nl(buf: Seq<u8>, pos: int) -> int
    decreases buf.len() - pos,
{
    if pos >= buf.len() {
        buf.len() as int
    } else if buf[pos] == 0x0a {
        pos
    } else {
        spec_find_nl(buf, pos + 1)
    }
}

/// Parses manifest lines from `pos` on: every line up to a newline or
/// the end must be a well-formed checksum line. `None` as soon as one
/// line is malformed.
pub open spec fn spec_parse_manifest_at(buf: Seq<u8>, pos: int) -> Option<
    Seq<(Seq<u8>, Seq<u8>)>,
>
    decreases buf.len() - pos,
{
    if pos >= buf.len() {
        Some(Seq::empty())
    } else {
        let j = spec_find_nl(buf, pos);
        if !(pos <= j <= buf.len()) {
            None
        } else {
            match spec_parse_checksum_line(buf.subrange(pos, j)) {
                None => None,
                Some(entry) => {
                    if j >= buf.len() {
                        Some(seq![entry])
                    } else {
                        match spec_parse_manifest_at(buf, j + 1) {
                            None => None,
                            Some(rest) => Some(seq![entry] + rest),
                        }
                    }
                },
            }
        }
    }
}

/// The first digest recorded under `name`, if any.
pub open spec fn spec_lookup(entries: Seq<(Seq<u8>, Seq<u8>)>, name: Seq<u8>) -> Option<Seq<u8>>
    decreases entries.len(),
{
    if entries.len() == 0 {
        None
    } else if entries.first().0 == name {
        Some(entries.first().1)
    } else {
        spec_lookup(entries.drop_first(), name)
    }
}

/// The value of one hex digit byte, if it is one.
fn hex_val(c: u8) -> (r: Option<u8>)
    ensures
        r == spec_hex_val(c),
{
    if 0x30 <= c && c <= 0x39 {
        Some(c - 0x30)
    } else if 0x61 <= c && c <= 0x66 {
        Some(c - 0x61 + 10)
    } else if 0x41 <= c && c <= 0x46 {
        Some(c - 0x41 + 10)
    } else {
        None
    }
}

/// Finds the first newline at or after `pos`.
fn find_nl(buf: &[u8], pos: usize) -> (r: usize)
    requires
        pos <= buf@.len(),
    ensures
        r == spec_find_nl(buf@, pos as int),
        pos <= r <= buf@.len(),
{
    let mut i: usize = pos;
    while i < buf.len()
        invariant
            pos <= i <= buf@.len(),
            spec_find_nl(buf@, pos as int) == spec_find_nl(buf@, i as int),
        decreases buf@.len() - i,
    {
        if buf[i] == 0x0a {
            return i;
        }
        i = i + 1;
    }
    i
}

/// Decodes the 64 hex digits that start at `start` into 32 bytes.
fn decode_hex64(buf: &[u8], start: usize) -> (r: Option<Vec<u8>>)
    requires
        start + 64 <= buf@.len(),
    ensures
        ({
            let s = buf@.subrange(start as int, start + 64);
            match r {
                Some(d) => spec_hex_decode_at(s, 0) == Some(d@) && d@.len() == 32,
                None => spec_hex_decode_at(s, 0) is None,
            }
        }),
{
    let ghost s = buf@.subrange(start as int, start + 64);
    let n: usize = buf.len();
    let mut out: Vec<u8> = Vec::new();
    let mut k: usize = 0;
    while k < 32
        invariant
            k <= 32,
            n == buf@.len(),
            start + 64 <= buf@.len(),
            s == buf@.subrange(start as int, start + 64),
            out@.len() == k,
            ({
                match spec_hex_decode_at(s, 2 * k as int) {
                    None => spec_hex_decode_at(s, 0) is None,
                    Some(rest) => spec_hex_decode_at(s, 0) == Some(out@ + rest),
                }
            }),
        decreases 32 - k,
    {
        let c1 = buf[start + 2 * k];
        let c2 = buf[start + 2 * k + 1];
        proof {
            assert(s[2 * k as int] == buf@[start + 2 * k]);
            assert(s[2 * k + 1] == buf@[start + 2 * k + 1]);
        }
        let h = match hex_val(c1) {
            Some(v) => v,
            None => {
                return None;
            },
        };
        let l = match hex_val(c2) {
            Some(v) => v,
            None => {
                return None;
            },
        };
        let b: u8 = 16 * h + l;
        proof {
            let rest2 = spec_hex_decode_at(s, 2 * k + 2);
            match rest2 {
                None => {
                    assert(spec_hex_decode_at(s, 2 * k as int) is None);
                },
                Some(rr) => {
                    assert(spec_hex_decode_at(s, 2 * k as int) == Some(seq![b] + rr));
                    assert(out@.push(b) + rr =~= out@ + (seq![b] + rr));
                },
            }
        }
        out.push(b);
        k = k + 1;
    }
    proof {
        assert(spec_hex_decode_at(s, 64) == Some(Seq::<u8>::empty()));
        assert(out@ + Seq::<u8>::empty() =~= out@);
    }
    Some(out)
}

/// Copies `buf[from..to]` into a fresh vector.
pub(crate) fn copy_range(buf: &[u8], from: usize, to: usize) -> (r: Vec<u8>)
    requires
        from <= to <= buf@.len(),
    ensures
        r@ == buf@.subrange(from as int, to as int),
{
    let mut out: Vec<u8> = Vec::new();
    let mut i: usize = from;
    while i < to
        invariant
            from <= i <= to <= buf@.len(),
            out@ == buf@.subrange(from as int, i as int),
        decreases to - i,
    {
        out.push(buf[i]);
        proof {
            assert(buf@.subrange(from as int, i + 1)
                == buf@.subrange(from as int, i as int).push(buf@[i as int]));
        }
        i = i + 1;
    }
    out
}

impl ChecksumRegistry {
    /// The registry's entries as name-digest pairs, in manifest order.
    pub open spec fn view_entries(&self) -> Seq<(Seq<u8>, Seq<u8>)> {
        self.entries@.map_values(|e: ChecksumEntry| (e.file_name@, e.digest@))
    }

    /// Parses a whole manifest text. Succeeds exactly when every line
    /// is a well-formed checksum line; one malformed line rejects the
    /// whole manifest.
    pub fn parse(buf: &[u8]) -> (r: Result<ChecksumRegistry, ManifestError>)
        ensures
            match r {
                Ok(reg) => spec_parse_manifest_at(buf@, 0) == Some(reg.view_entries()),
                Err(e) => {
                    &&& spec_parse_manifest_at(buf@, 0) is None
                    &&& e == ManifestError::ParseFailure
                },
            },
    {
        let mut entries: Vec<ChecksumEntry> = Vec::new();
        let mut pos: usize = 0;
        while pos < buf.len()
            invariant
                pos <= buf@.len(),
                ({
                    let views = entries@.map_values(
                        |e: ChecksumEntry| (e.file_name@, e.digest@),
                    );
                    match spec_parse_manifest_at(buf@, pos as int) {
                        None => spec_parse_manifest_at(buf@, 0) is None,
                        Some(rest) => spec_parse_manifest_at(buf@, 0) == Some(views + rest),
                    }
                }),
            decreases buf@.len() - pos,
        {
            let ghost views = entries@.map_values(|e: ChecksumEntry| (e.file_name@, e.digest@));
            let j = find_nl(buf, pos);
            let ghost line = buf@.subrange(pos as int, j as int);
            if j - pos < 67 {
                proof {
                    assert(spec_parse_checksum_line(line) is None);
                }
                return Err(ManifestError::ParseFailure);
            }
            if buf[pos + 64] != 0x20 || buf[pos + 65] != 0x20 {
                proof {
                    assert(line[64] == buf@[pos + 64] && line[65] == buf@[pos + 65]);
                    assert(spec_parse_checksum_line(line) is None);
                }
                return Err(ManifestError::ParseFailure);
            }
            proof {
                assert(line.subrange(0, 64) =~= buf@.subrange(pos as int, pos + 64));
            }
            let digest = match decode_hex64(buf, pos) {
                Some(d) => d,
                None => {
                    proof {
                        assert(spec_parse_checksum_line(line) is None);
                    }
                    return Err(ManifestError::ParseFailure);
                },
            };
            let file_name = copy_range(buf, pos + 66, j);
            proof {
                assert(line[64] == buf@[pos + 64] && line[65] == buf@[pos + 65]);
                assert(line.subrange(66, line.len() as int)
                    =~= buf@.subrange(pos + 66, j as int));
                assert(spec_parse_checksum_line(line) == Some((file_name@, digest@)));
            }
            let entry = ChecksumEntry { file_name, digest };
            proof {
                let ev = (entry.file_name@, entry.digest@);
                assert(entries@.push(entry).map_values(
                    |e: ChecksumEntry| (e.file_name@, e.digest@),
                ) =~= views.push(ev));
                if j < buf.len() {
                    match spec_parse_manifest_at(buf@, j + 1) {
                        None => {
                            assert(spec_parse_manifest_at(buf@, pos as int) is None);
                        },
                        Some(rest) => {
                            assert(spec_parse_manifest_at(buf@, pos as int)
                                == Some(seq![ev] + rest));
                            assert(views + (seq![ev] + rest) =~= views.push(ev) + rest);
                        },
                    }
                } else {
                    assert(spec_parse_manifest_at(buf@, pos as int) == Some(seq![ev]));
                    assert(views + seq![ev] =~= views.push(ev)
                        + Seq::<(Seq<u8>, Seq<u8>)>::empty());
                    assert(spec_parse_manifest_at(buf@, j + 1) == Some(
                        Seq::<(Seq<u8>, Seq<u8>)>::empty(),
                    ));
                }
            }
            entries.push(entry);
            if j < buf.len() {
                pos = j + 1;
            } else {
                pos = buf.len();
                proof {
                    assert(spec_parse_manifest_at(buf@, pos as int) == Some(
                        Seq::<(Seq<u8>, Seq<u8>)>::empty(),
                    ));
                }
            }
        }
        proof {
            let views = entries@.map_values(|e: ChecksumEntry| (e.file_name@, e.digest@));
            assert(spec_parse_manifest_at(buf@, pos as int) == Some(
                Seq::<(Seq<u8>, Seq<u8>)>::empty(),
            ));
            assert(views + Seq::<(Seq<u8>, Seq<u8>)>::empty() =~= views);
        }
        Ok(ChecksumRegistry { entries })
    }

    /// The digest recorded for `file_name`: a file absent from the
    /// manifest may never be downloaded, so absence is an error.
    pub fn lookup(&self, file_name: &[u8]) -> (r: Result<Vec<u8>, ManifestError>)
        ensures
            match r {
                Ok(d) => spec_lookup(self.view_entries(), file_name@) == Some(d@),
                Err(e) => {
                    &&& spec_lookup(self.view_entries(), file_name@) is None
                    &&& e == ManifestError::UnknownFile
                },
            },
    {
        let ghost views = self.view_entries();
        proof {
            assert(views.subrange(0, views.len() as int) =~= views);
        }
        let mut i: usize = 0;
        while i < self.entries.len()
            invariant
                i <= self.entries@.len(),
                views == self.view_entries(),
                views.len() == self.entries@.len(),
                spec_lookup(views, file_name@) == spec_lookup(
                    views.subrange(i as int, views.len() as int),
                    file_name@,
                ),
            decreases self.entries@.len() - i,
        {
            let e = &self.entries[i];
            let ghost tail = views.subrange(i as int, views.len() as int);
            proof {
                assert(tail.first() == views[i as int]);
                assert(tail.drop_first() =~= views.subrange(i + 1, views.len() as int));
            }
            if crate::fetch::bytes_eq(e.file_name.as_slice(), file_name) {
                return Ok(crate::execution_types::clone_bytes(&e.digest));
            }
            i = i + 1;
        }
        proof {
            assert(views.subrange(views.len() as int, views.len() as int)
                =~= Seq::<(Seq<u8>, Seq<u8>)>::empty());
        }
        Err(ManifestError::UnknownFile)
    }
}

} // verus!
