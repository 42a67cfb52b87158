//! Tests of the downloader's decision logic: manifests, catalogs,
//! streaming digest checks, mirror fallback, and the end-to-end run
//! over canned mirror content.

use reth_era::catalog::{list, CatalogError};
use reth_era::checksums::{ChecksumRegistry, ManifestError};
use reth_era::era1::{assemble_era1, parse_era1};
use reth_era::execution_types::{Accumulator, BlockTuple};
use reth_era::fetch::{bytes_eq, FetchError, FetchSession};
use reth_era::orchestrator::{
    plan_fetch, start, step, FetchPlan, FileState, MirrorOutcome,
};
use reth_era::sha256::sha256;
use reth_era::u256::U256;

fn hex_of(bytes: &[u8]) -> String {
    let mut s = String::new();
    for b in bytes {
        s.push_str(&format!("{:02x}", b));
    }
    s
}

#[test]
fn test_manifest_parse_and_lookup() {
    let digest_a = sha256(b"alpha");
    let digest_b = sha256(b"beta");
    let text = format!(
        "{}  mainnet-00000-aaaaaaaa.era1\n{}  mainnet-00001-bbbbbbbb.era1\n",
        hex_of(&digest_a),
        hex_of(&digest_b),
    );
    let registry = ChecksumRegistry::parse(text.as_bytes()).unwrap();
    assert_eq!(registry.entries.len(), 2);
    assert_eq!(registry.entries[0].digest, digest_a);
    assert_eq!(registry.entries[1].file_name, b"mainnet-00001-bbbbbbbb.era1".to_vec());

    let found = registry.lookup(b"mainnet-00001-bbbbbbbb.era1").unwrap();
    assert_eq!(found, digest_b);

    let err = registry.lookup(b"mainnet-00002-cccccccc.era1").unwrap_err();
    assert_eq!(err, ManifestError::UnknownFile);
}

#[test]
fn test_manifest_rejects_malformed_line() {
    // Too short a digest.
    let text = b"abcd  file.era1\n";
    assert_eq!(ChecksumRegistry::parse(text).unwrap_err(), ManifestError::ParseFailure);

    // A non-hex character in the digest.
    let mut line = String::new();
    line.push_str(&"0".repeat(63));
    line.push('x');
    line.push_str("  mainnet-00000-aaaaaaaa.era1\n");
    assert_eq!(
        ChecksumRegistry::parse(line.as_bytes()).unwrap_err(),
        ManifestError::ParseFailure
    );

    // One space instead of two.
    let mut line = String::new();
    line.push_str(&"0".repeat(64));
    line.push(' ');
    line.push_str("name.era1\n");
    assert_eq!(
        ChecksumRegistry::parse(line.as_bytes()).unwrap_err(),
        ManifestError::ParseFailure
    );

    // One good line does not save a later bad one.
    let good = format!("{}  mainnet-00000-aaaaaaaa.era1\nbroken\n", "0".repeat(64));
    assert_eq!(
        ChecksumRegistry::parse(good.as_bytes()).unwrap_err(),
        ManifestError::ParseFailure
    );
}

#[test]
fn test_manifest_digest_is_decoded_from_hex() {
    let text = format!("{}  mainnet-00000-aaaaaaaa.era1\n", "0a".repeat(32));
    let registry = ChecksumRegistry::parse(text.as_bytes()).unwrap();
    assert_eq!(registry.entries[0].digest, vec![0x0a; 32]);
}

#[test]
fn test_catalog_list_orders_by_sequence() {
    let doc = b"<html><a href=\"mainnet-00001-bbbbbbbb.era1\">x</a>\n\
                ignored-words <a href=\"mainnet-00000-aaaaaaaa.era1\">y</a></html>";
    let cat = list(doc, b"mainnet", b"https://mirror.example/").unwrap();
    assert_eq!(cat.len(), 2);
    assert_eq!(cat[0].sequence_number, 0);
    assert_eq!(cat[0].file_name, b"mainnet-00000-aaaaaaaa.era1".to_vec());
    assert_eq!(cat[0].url, b"https://mirror.example/mainnet-00000-aaaaaaaa.era1".to_vec());
    assert_eq!(cat[1].sequence_number, 1);
    assert_eq!(cat[1].file_name, b"mainnet-00001-bbbbbbbb.era1".to_vec());
}

#[test]
fn test_catalog_ignores_unrecognized_links() {
    let doc = b"readme.txt something.era1x mainnet-00000-12345678.era1 other-00009-aaaaaaaa.era1";
    let cat = list(doc, b"mainnet", b"base/").unwrap();
    assert_eq!(cat.len(), 1);
    assert_eq!(cat[0].file_name, b"mainnet-00000-12345678.era1".to_vec());
}

#[test]
fn test_catalog_empty_listing() {
    let cat = list(b"<html>no archives here</html>", b"mainnet", b"base/").unwrap();
    assert_eq!(cat.len(), 0);
}

#[test]
fn test_catalog_rejects_sequence_gap() {
    let doc = b"mainnet-00000-aaaaaaaa.era1 mainnet-00002-cccccccc.era1";
    assert_eq!(
        list(doc, b"mainnet", b"base/").unwrap_err(),
        CatalogError::ParseFailure
    );
}

#[test]
fn test_fetch_session_accepts_matching_stream() {
    let payload = b"archive bytes over the wire".to_vec();
    let expected = sha256(&payload);
    let mut session = FetchSession::new(expected.clone());
    session.push_chunk(&payload[..10]);
    session.push_chunk(&payload[10..]);
    let verified = session.finish().unwrap();
    assert_eq!(verified.length, payload.len());
    assert_eq!(verified.digest, expected);
}

#[test]
fn test_fetch_session_rejects_digest_mismatch() {
    let payload = b"tampered bytes".to_vec();
    let expected = sha256(b"the real bytes");
    let mut session = FetchSession::new(expected.clone());
    session.push_chunk(&payload);
    match session.finish() {
        Ok(_) => panic!("a mismatched stream must not verify"),
        Err(FetchError::DigestMismatch { expected: e, actual }) => {
            assert_eq!(e, expected);
            assert_eq!(actual, sha256(&payload));
        },
        Err(_) => panic!("unexpected error kind"),
    }
}

#[test]
fn test_sha256_known_answer() {
    let digest = sha256(b"abc");
    assert_eq!(
        hex_of(&digest),
        "ba7816bf8f01cfea414140de5dae2223b00361a396177a9cb410ff61f20015ad"
    );
    assert_eq!(digest.len(), 32);
    let empty = sha256(b"");
    assert_eq!(
        hex_of(&empty),
        "e3b0c44298fc1c149afbf4c8996fb92427ae41e4649b934ca495991b7852b855"
    );
}

#[test]
fn test_bytes_eq() {
    assert!(bytes_eq(b"abc", b"abc"));
    assert!(!bytes_eq(b"abc", b"abd"));
    assert!(!bytes_eq(b"abc", b"ab"));
    assert!(bytes_eq(b"", b""));
}

#[test]
fn test_mirror_fallback_uses_last_mirror() {
    // Three mirrors: the first two fail in different ways, the last
    // serves a verified download.
    let mut state = start(3);
    assert_eq!(state, FileState::Verifying { mirror: 0 });
    state = step(state, 3, MirrorOutcome::NetworkFailure);
    assert_eq!(state, FileState::Verifying { mirror: 1 });
    state = step(state, 3, MirrorOutcome::DigestMismatch);
    assert_eq!(state, FileState::Verifying { mirror: 2 });
    state = step(state, 3, MirrorOutcome::Fetched);
    assert_eq!(state, FileState::Done { mirror: 2 });
    // Success absorbs: no mirror is attempted afterwards.
    state = step(state, 3, MirrorOutcome::NetworkFailure);
    assert_eq!(state, FileState::Done { mirror: 2 });
}

#[test]
fn test_mirror_exhaustion_fails_the_file() {
    let mut state = start(2);
    state = step(state, 2, MirrorOutcome::ParseFailure);
    assert_eq!(state, FileState::Verifying { mirror: 1 });
    state = step(state, 2, MirrorOutcome::UnknownFile);
    assert_eq!(state, FileState::Failed);
    state = step(state, 2, MirrorOutcome::Fetched);
    assert_eq!(state, FileState::Failed);

    assert_eq!(start(0), FileState::Failed);
}

#[test]
fn test_idempotent_rerun_skips_network() {
    let digest = sha256(b"already on disk");
    // The destination holds verified bytes: no network read is
    // planned.
    assert_eq!(plan_fetch(Some(&digest), &digest), FetchPlan::UseExisting);
    // Missing or stale files are downloaded.
    assert_eq!(plan_fetch(None, &digest), FetchPlan::Download);
    let other = sha256(b"stale content");
    assert_eq!(plan_fetch(Some(&other), &digest), FetchPlan::Download);
}

fn sample_tuple(seed: u8) -> BlockTuple {
    BlockTuple::from_rlp_parts(
        &[seed, 10, 20],
        &[seed, 30],
        &[seed, 40, 50, 60],
        U256::from_u64(seed as u64 + 7),
    )
    .unwrap()
}

#[test]
fn test_end_to_end_two_file_catalog() {
    // A mirror exposing two era1 files, a matching manifest, and the
    // two well-formed blobs.
    let tuples0 = vec![sample_tuple(1), sample_tuple(2)];
    let tuples1 = vec![sample_tuple(3)];
    let acc0 = Accumulator::new(vec![0xa0; 32]).unwrap();
    let acc1 = Accumulator::new(vec![0xa1; 32]).unwrap();
    let blob0 = assemble_era1(&tuples0, &acc0).unwrap();
    let blob1 = assemble_era1(&tuples1, &acc1).unwrap();
    let name0 = b"mainnet-00000-5ec1ffb8".to_vec();
    let name1 = b"mainnet-00001-a5364e9a".to_vec();
    let full0 = format!("{}.era1", String::from_utf8(name0).unwrap());
    let full1 = format!("{}.era1", String::from_utf8(name1).unwrap());

    let listing = format!(
        "<html><a href=\"{f1}\">{f1}</a> <a href=\"{f0}\">{f0}</a></html>",
        f0 = full0,
        f1 = full1,
    );
    let manifest = format!(
        "{}  {}\n{}  {}\n",
        hex_of(&sha256(&blob0)),
        full0,
        hex_of(&sha256(&blob1)),
        full1,
    );

    // Discover the catalog: two entries, in sequence-number order.
    let cat = list(listing.as_bytes(), b"mainnet", b"https://m0.example/").unwrap();
    assert_eq!(cat.len(), 2);
    assert_eq!(cat[0].sequence_number, 0);
    assert_eq!(cat[1].sequence_number, 1);

    // Fetch the manifest and verify each blob through a streamed
    // session, in catalog order.
    let registry = ChecksumRegistry::parse(manifest.as_bytes()).unwrap();
    let blobs = [blob0.clone(), blob1.clone()];
    let originals = [&tuples0, &tuples1];
    for (k, entry) in cat.iter().enumerate() {
        let expected = registry.lookup(&entry.file_name).unwrap();
        let mut session = FetchSession::new(expected.clone());
        for chunk in blobs[k].chunks(7) {
            session.push_chunk(chunk);
        }
        let verified = session.finish().unwrap();
        assert_eq!(verified.digest, expected);
        assert_eq!(verified.length, blobs[k].len());

        // The verified file decodes back to the original tuples.
        let (parsed, acc) = parse_era1(&blobs[k]).unwrap();
        assert_eq!(parsed.len(), originals[k].len());
        for (orig, got) in originals[k].iter().zip(parsed.iter()) {
            assert_eq!(got.header.data, orig.header.data);
            assert_eq!(got.body.data, orig.body.data);
            assert_eq!(got.receipts.data, orig.receipts.data);
            assert_eq!(got.total_difficulty, orig.total_difficulty);
        }
        assert_eq!(acc.root.len(), 32);

        // One mirror, one successful attempt.
        let state = step(start(1), 1, MirrorOutcome::Fetched);
        assert_eq!(state, FileState::Done { mirror: 0 });
    }
}
