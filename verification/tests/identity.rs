use base64::Engine;
use noseyparker::blob_id::{BlobId, BlobIdParseError};
use noseyparker::digest::sha1_hexdigest;
use noseyparker::location::OffsetSpan;
use noseyparker::match_type::{Group, Groups, Match};
use noseyparker::text::{base64_encode, bytes_equal, copy_range, from_hex, str_equal, to_decimal, to_hex};

fn blob() -> BlobId {
    let mut bytes = [0u8; 20];
    for (i, b) in bytes.iter_mut().enumerate() {
        *b = i as u8;
    }
    BlobId::from_bytes(bytes)
}

fn groups_of(items: &[&[u8]]) -> Groups {
    let mut groups = Groups::new();
    for item in items {
        groups.push(Group::new(item));
    }
    groups
}

#[test]
fn hex_of_bytes() {
    assert_eq!(to_hex(&[0x00, 0x0f, 0xa5, 0xff]), "000fa5ff");
    assert_eq!(to_hex(&[]), "");
}

#[test]
fn hex_reads_both_cases() {
    assert_eq!(from_hex("00FfA5"), Some(vec![0x00, 0xff, 0xa5]));
    assert_eq!(from_hex(""), Some(vec![]));
    assert_eq!(from_hex("abc"), None);
    assert_eq!(from_hex("zz"), None);
}

#[test]
fn hex_round_trip() {
    let bytes: Vec<u8> = (0..=255u8).collect();
    assert_eq!(from_hex(&to_hex(&bytes)), Some(bytes));
}

#[test]
fn decimal_of_numbers() {
    assert_eq!(to_decimal(0), "0");
    assert_eq!(to_decimal(9), "9");
    assert_eq!(to_decimal(10), "10");
    assert_eq!(to_decimal(1234567890), "1234567890");
    assert_eq!(to_decimal(usize::MAX), usize::MAX.to_string());
}

#[test]
fn base64_known_vectors() {
    assert_eq!(base64_encode(b""), "");
    assert_eq!(base64_encode(b"f"), "Zg==");
    assert_eq!(base64_encode(b"fo"), "Zm8=");
    assert_eq!(base64_encode(b"foo"), "Zm9v");
    assert_eq!(base64_encode(b"foob"), "Zm9vYg==");
    assert_eq!(base64_encode(b"fooba"), "Zm9vYmE=");
    assert_eq!(base64_encode(b"foobar"), "Zm9vYmFy");
    assert_eq!(base64_encode(&[0xfb, 0xff, 0xbf]), "+/+/");
}

#[test]
fn base64_agrees_with_the_base64_crate() {
    let data: Vec<u8> = (0..=255u8).collect();
    for end in 0..data.len() {
        let expected = base64::engine::general_purpose::STANDARD.encode(&data[..end]);
        assert_eq!(base64_encode(&data[..end]), expected);
        let expected = base64::engine::general_purpose::STANDARD.encode(&data[end..]);
        assert_eq!(base64_encode(&data[end..]), expected);
    }
}

#[test]
fn bytes_and_strings_compare_by_content() {
    assert!(bytes_equal(b"abc", b"abc"));
    assert!(!bytes_equal(b"abc", b"abd"));
    assert!(!bytes_equal(b"abc", b"ab"));
    assert!(bytes_equal(b"", b""));
    assert!(str_equal("caf\u{e9}", "caf\u{e9}"));
    assert!(!str_equal("cafe", "caf\u{e9}"));
}

#[test]
fn copy_range_copies_the_range() {
    assert_eq!(copy_range(b"abcdef", 2, 4), b"cd".to_vec());
    assert_eq!(copy_range(b"abcdef", 3, 3), Vec::<u8>::new());
    assert_eq!(copy_range(b"abcdef", 0, 6), b"abcdef".to_vec());
}

#[test]
fn sha1_of_known_inputs() {
    assert_eq!(sha1_hexdigest(b"abc"), "a9993e364706816aba3e25717850c26c9cd0d89d");
    assert_eq!(sha1_hexdigest(b""), "da39a3ee5e6b4b0d3255bfef95601890afd80709");
}

#[test]
fn blob_id_hex_and_back() {
    let id = blob();
    assert_eq!(id.hex(), "000102030405060708090a0b0c0d0e0f10111213");
    assert_eq!(BlobId::from_hex(&id.hex()), Ok(id));
    assert_eq!(BlobId::from_hex("000102030405060708090A0B0C0D0E0F10111213"), Ok(id));
    assert_eq!(id.as_bytes()[19], 0x13);
    assert!(id.same(&blob()));
    assert!(!id.same(&BlobId::from_bytes([0u8; 20])));
}

#[test]
fn blob_id_rejects_bad_text() {
    assert_eq!(BlobId::from_hex(""), Err(BlobIdParseError::BadLength));
    assert_eq!(BlobId::from_hex("0001"), Err(BlobIdParseError::BadLength));
    assert_eq!(
        BlobId::from_hex("000102030405060708090a0b0c0d0e0f1011121300"),
        Err(BlobIdParseError::BadLength)
    );
    assert_eq!(
        BlobId::from_hex("g00102030405060708090a0b0c0d0e0f10111213"),
        Err(BlobIdParseError::BadDigit)
    );
}

#[test]
fn structural_id_is_the_digest_of_rule_blob_and_span() {
    let span = OffsetSpan { start: 3, end: 12 };
    let id = Match::compute_structural_id("r1", &blob(), span);
    assert_eq!(id, "095d725df65256f31d3ba3299a50791cb7170114");
}

#[test]
fn structural_id_is_deterministic() {
    let span = OffsetSpan { start: 3, end: 12 };
    let first = Match::compute_structural_id("r1", &blob(), span);
    let second = Match::compute_structural_id("r1", &blob(), span);
    assert_eq!(first, second);
    assert_ne!(first, Match::compute_structural_id("r2", &blob(), span));
    assert_ne!(first, Match::compute_structural_id("r1", &blob(), OffsetSpan { start: 3, end: 13 }));
    assert_ne!(
        first,
        Match::compute_structural_id("r1", &BlobId::from_bytes([7u8; 20]), span)
    );
}

#[test]
fn groups_as_json() {
    assert_eq!(groups_of(&[]).to_json(), "[]");
    assert_eq!(groups_of(&[b"secret123"]).to_json(), "[\"c2VjcmV0MTIz\"]");
    assert_eq!(groups_of(&[b"a", b"b"]).to_json(), "[\"YQ==\",\"Yg==\"]");
}

#[test]
fn groups_hold_what_was_pushed() {
    let groups = groups_of(&[b"a", b"bc"]);
    assert_eq!(groups.len(), 2);
    assert!(!groups.is_empty());
    assert!(Groups::new().is_empty());
    assert_eq!(groups.get(0), Some(&Group(b"a".to_vec())));
    assert_eq!(groups.get(1), Some(&Group(b"bc".to_vec())));
    assert_eq!(groups.get(2), None);
    assert_eq!(groups.clone(), groups);
    assert_eq!(Groups::from_vec(vec![Group::new(b"a"), Group::new(b"bc")]), groups);
    assert_eq!(Groups::default(), Groups::new());
}

#[test]
fn groups_intersect_on_a_shared_group() {
    let left = groups_of(&[b"a", b"b"]);
    assert!(left.intersects(&groups_of(&[b"x", b"b"])));
    assert!(!left.intersects(&groups_of(&[b"x", b"y"])));
    assert!(!left.intersects(&groups_of(&[])));
    assert!(!groups_of(&[]).intersects(&left));
}
