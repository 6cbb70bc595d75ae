use noseyparker::blob_id::BlobId;
use noseyparker::location::{Location, LocationMapping, OffsetSpan, SourcePoint, SourceSpan};
use noseyparker::match_type::{BlobMatch, Group, Match, RuleIdentity};

fn rule() -> RuleIdentity {
    RuleIdentity {
        structural_id: "r1".to_string(),
        text_id: "np.test.1".to_string(),
        name: "Test rule".to_string(),
    }
}

fn mapping_for(bytes: &[u8]) -> LocationMapping {
    let mut points = Vec::new();
    let mut line = 1;
    let mut column = 0;
    for b in bytes {
        if *b == b'\n' {
            line += 1;
            column = 0;
        } else {
            column += 1;
        }
        points.push(SourcePoint { line, column });
    }
    LocationMapping::from_points(points)
}

fn blob_match<'a>(
    rule: &'a RuleIdentity,
    bytes: &'a [u8],
    start: usize,
    end: usize,
    captures: Vec<Option<Vec<u8>>>,
) -> BlobMatch<'a> {
    BlobMatch {
        rule,
        blob_id: BlobId::from_bytes([1u8; 20]),
        blob_bytes: bytes,
        matching_input_offset_span: OffsetSpan { start, end },
        captures,
    }
}

#[test]
fn convert_records_snippet_location_and_identity() {
    let rule = rule();
    let bytes = b"key = secret123;\nnext line";
    let mapping = mapping_for(bytes);
    let bm = blob_match(
        &rule,
        bytes,
        6,
        15,
        vec![Some(b"secret123".to_vec()), Some(b"secret123".to_vec())],
    );
    assert!(bm.is_in_bounds());
    assert!(mapping.has_span(&bm.matching_input_offset_span));
    let m = Match::convert(&mapping, &bm, 4);
    assert_eq!(m.blob_id, BlobId::from_bytes([1u8; 20]));
    assert_eq!(m.snippet.before, b"y = ".to_vec());
    assert_eq!(m.snippet.matching, b"secret123".to_vec());
    assert_eq!(m.snippet.after, b";\nne".to_vec());
    assert_eq!(
        m.location,
        Location {
            offset_span: OffsetSpan { start: 6, end: 15 },
            source_span: SourceSpan {
                start: SourcePoint { line: 1, column: 7 },
                end: SourcePoint { line: 1, column: 15 },
            },
        }
    );
    assert_eq!(m.groups.len(), 1);
    assert_eq!(m.groups.get(0), Some(&Group(b"secret123".to_vec())));
    assert_eq!(m.rule_structural_id, "r1");
    assert_eq!(m.rule_text_id, "np.test.1");
    assert_eq!(m.rule_name, "Test rule");
    assert_eq!(
        m.structural_id,
        Match::compute_structural_id("r1", &BlobId::from_bytes([1u8; 20]), OffsetSpan { start: 6, end: 15 })
    );
    assert_eq!(m.finding_id(), "82eaef9280ed5409c723560c15dba0f6f3b53704");
}

#[test]
fn convert_clips_the_context_at_the_ends_of_the_blob() {
    let rule = rule();
    let bytes = b"abcdef";
    let mapping = mapping_for(bytes);
    let bm = blob_match(&rule, bytes, 1, 5, vec![None, Some(b"bcde".to_vec())]);
    let m = Match::convert(&mapping, &bm, 10);
    assert_eq!(m.snippet.before, b"a".to_vec());
    assert_eq!(m.snippet.matching, b"bcde".to_vec());
    assert_eq!(m.snippet.after, b"f".to_vec());
}

#[test]
fn convert_with_a_context_that_overflows() {
    let rule = rule();
    let bytes = b"abcdef";
    let mapping = mapping_for(bytes);
    let bm = blob_match(&rule, bytes, 0, 6, vec![None, Some(b"abcdef".to_vec())]);
    let m = Match::convert(&mapping, &bm, usize::MAX);
    assert_eq!(m.snippet.before, Vec::<u8>::new());
    assert_eq!(m.snippet.matching, b"abcdef".to_vec());
    assert_eq!(m.snippet.after, Vec::<u8>::new());
}

#[test]
fn convert_without_context() {
    let rule = rule();
    let bytes = b"abcdef";
    let mapping = mapping_for(bytes);
    let bm = blob_match(&rule, bytes, 2, 4, vec![None, Some(b"cd".to_vec())]);
    let m = Match::convert(&mapping, &bm, 0);
    assert_eq!(m.snippet.before, Vec::<u8>::new());
    assert_eq!(m.snippet.matching, b"cd".to_vec());
    assert_eq!(m.snippet.after, Vec::<u8>::new());
}

#[test]
fn convert_skips_the_whole_match_and_slots_that_took_no_part() {
    let rule = rule();
    let bytes = b"user:pass@host";
    let mapping = mapping_for(bytes);
    let bm = blob_match(
        &rule,
        bytes,
        0,
        14,
        vec![
            Some(b"user:pass@host".to_vec()),
            Some(b"user".to_vec()),
            None,
            Some(b"host".to_vec()),
        ],
    );
    let m = Match::convert(&mapping, &bm, 2);
    assert_eq!(m.groups.len(), 2);
    assert_eq!(m.groups.get(0), Some(&Group(b"user".to_vec())));
    assert_eq!(m.groups.get(1), Some(&Group(b"host".to_vec())));
}

#[test]
fn convert_with_no_capture_slots_gives_no_groups() {
    let rule = rule();
    let bytes = b"abc";
    let mapping = mapping_for(bytes);
    let m = Match::convert(&mapping, &blob_match(&rule, bytes, 0, 1, vec![]), 1);
    assert_eq!(m.groups.len(), 0);
    let m = Match::convert(&mapping, &blob_match(&rule, bytes, 0, 1, vec![Some(b"a".to_vec())]), 1);
    assert_eq!(m.groups.len(), 0);
}

#[test]
fn convert_of_an_empty_match_at_the_end_of_the_blob() {
    let rule = rule();
    let bytes = b"abc";
    let mapping = mapping_for(bytes);
    let bm = blob_match(&rule, bytes, 3, 3, vec![None, Some(Vec::new())]);
    assert!(bm.is_in_bounds());
    assert!(!mapping.has_span(&bm.matching_input_offset_span));
    let m = Match::convert(&mapping, &bm, 2);
    assert_eq!(m.snippet.before, b"bc".to_vec());
    assert_eq!(m.snippet.matching, Vec::<u8>::new());
    assert_eq!(m.snippet.after, Vec::<u8>::new());
    assert_eq!(m.location.offset_span, OffsetSpan { start: 3, end: 3 });
    assert_eq!(
        m.location.source_span,
        SourceSpan {
            start: SourcePoint { line: 1, column: 3 },
            end: SourcePoint { line: 1, column: 3 },
        }
    );
    assert_eq!(m.groups.len(), 1);
    assert_eq!(m.groups.get(0), Some(&Group(Vec::new())));
}

#[test]
fn convert_without_any_known_position() {
    let rule = rule();
    let bytes = b"";
    let mapping = LocationMapping::from_points(vec![]);
    let m = Match::convert(&mapping, &blob_match(&rule, bytes, 0, 0, vec![]), 5);
    assert_eq!(m.snippet.before, Vec::<u8>::new());
    assert_eq!(m.snippet.after, Vec::<u8>::new());
    assert_eq!(
        m.location.source_span,
        SourceSpan {
            start: SourcePoint { line: 1, column: 0 },
            end: SourcePoint { line: 1, column: 0 },
        }
    );
}

#[test]
fn span_bounds_are_decided() {
    let rule = rule();
    let bytes = b"abc";
    assert!(blob_match(&rule, bytes, 0, 3, vec![]).is_in_bounds());
    assert!(!blob_match(&rule, bytes, 0, 4, vec![]).is_in_bounds());
    assert!(!blob_match(&rule, bytes, 2, 1, vec![]).is_in_bounds());
}

#[test]
fn location_mapping_answers_by_offset() {
    let mapping = mapping_for(b"ab\ncd");
    assert_eq!(mapping.get_source_point(0), Some(SourcePoint { line: 1, column: 1 }));
    assert_eq!(mapping.get_source_point(3), Some(SourcePoint { line: 2, column: 1 }));
    assert_eq!(mapping.get_source_point(5), None);
    assert!(mapping.has_span(&OffsetSpan { start: 0, end: 5 }));
    assert!(!mapping.has_span(&OffsetSpan { start: 0, end: 7 }));
    assert!(!mapping.has_span(&OffsetSpan { start: 5, end: 5 }));
    assert_eq!(
        mapping.get_source_span(&OffsetSpan { start: 1, end: 5 }),
        SourceSpan {
            start: SourcePoint { line: 1, column: 2 },
            end: SourcePoint { line: 2, column: 2 },
        }
    );
    assert_eq!(
        mapping.get_source_span(&OffsetSpan { start: 0, end: 0 }),
        SourceSpan {
            start: SourcePoint { line: 1, column: 1 },
            end: SourcePoint { line: 1, column: 1 },
        }
    );
    assert_eq!(mapping.source_point(3), SourcePoint { line: 2, column: 1 });
    assert_eq!(mapping.source_point(5), SourcePoint { line: 2, column: 2 });
    assert_eq!(mapping.source_point(usize::MAX), SourcePoint { line: 2, column: 2 });
    assert_eq!(
        mapping.get_source_span(&OffsetSpan { start: 4, end: 9 }),
        SourceSpan {
            start: SourcePoint { line: 2, column: 2 },
            end: SourcePoint { line: 2, column: 2 },
        }
    );
    assert_eq!(
        LocationMapping::from_points(vec![]).source_point(0),
        SourcePoint { line: 1, column: 0 }
    );
}

#[test]
fn finding_id_is_the_digest_of_rule_and_groups() {
    let rule = rule();
    let bytes = b"ab";
    let mapping = mapping_for(bytes);
    let m = Match::convert(
        &mapping,
        &blob_match(&rule, bytes, 0, 2, vec![None, Some(b"a".to_vec()), Some(b"b".to_vec())]),
        0,
    );
    assert_eq!(m.finding_id(), "24d00ac855a8c880780f0d42b2295c402c58496a");
    assert_eq!(m.finding_id(), m.clone().finding_id());
}

#[test]
fn finding_id_depends_on_the_order_of_the_groups() {
    let rule = rule();
    let bytes = b"ab";
    let mapping = mapping_for(bytes);
    let ab = Match::convert(
        &mapping,
        &blob_match(&rule, bytes, 0, 2, vec![None, Some(b"a".to_vec()), Some(b"b".to_vec())]),
        0,
    );
    let ba = Match::convert(
        &mapping,
        &blob_match(&rule, bytes, 0, 2, vec![None, Some(b"b".to_vec()), Some(b"a".to_vec())]),
        0,
    );
    assert_eq!(ba.finding_id(), "2f26c891b18b1d5e4d529993f9a9690f2d0d1ca5");
    assert_ne!(ab.finding_id(), ba.finding_id());
}

#[test]
fn finding_id_ignores_blob_and_location() {
    let rule = rule();
    let first = b"xx secret123";
    let second = b"secret123 yy";
    let a = Match::convert(
        &mapping_for(first),
        &blob_match(&rule, first, 3, 12, vec![None, Some(b"secret123".to_vec())]),
        1,
    );
    let mut other = blob_match(&rule, second, 0, 9, vec![None, Some(b"secret123".to_vec())]);
    other.blob_id = BlobId::from_bytes([2u8; 20]);
    let b = Match::convert(&mapping_for(second), &other, 1);
    assert_ne!(a.structural_id, b.structural_id);
    assert_eq!(a.finding_id(), b.finding_id());
}

#[test]
fn finding_id_without_groups() {
    let rule = rule();
    let bytes = b"ab";
    let m = Match::convert(&mapping_for(bytes), &blob_match(&rule, bytes, 0, 2, vec![]), 0);
    assert_eq!(m.finding_id(), "80bf9dc19844c01fcd54529196d7b9d6e9fac63b");
}
