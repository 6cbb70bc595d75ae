//! The stored collections as lists of documents: reading a whole collection
//! into records, and writing records out.

use vstd::prelude::*;

use crate::datastore::annotation::{
    Annotations,
    AnnotationsModel,
    FindingAnnotation,
    FindingAnnotationModel,
    MatchAnnotation,
    MatchAnnotationModel,
};
use crate::datastore::codec::{DecodeError, DecodeErrorModel};
use crate::datastore::finding::{
    BlobTarget,
    BlobTargetModel,
    Finding,
    FindingModel,
    MatchRecord,
    MatchRecordModel,
};
use crate::datastore::record_codec::{
    lemma_finding_annotation_round_trip,
    lemma_match_annotation_round_trip,
    storable_match_annotation,
    decoded_blob_target,
    decoded_finding,
    decoded_finding_annotation,
    decoded_match_annotation,
    decoded_match_record,
    encoded_blob_target,
    encoded_finding,
    encoded_finding_annotation,
    encoded_match_annotation,
    encoded_match_record,
};
use crate::document::{
    field_of,
    lemma_field_found,
    lemma_field_not_found,
    unnamed_before,
    Document,
    ValueModel,
};

verus! {

/// The records that the documents of a collection hold, each read by
/// `decode`; the first document that cannot be read gives the error.
pub open spec fn decoded_each<T>(
    documents: Seq<Seq<(Seq<char>, ValueModel)>>,
    decode: spec_fn(Seq<(Seq<char>, ValueModel)>) -> Result<T, DecodeErrorModel>,
) -> Result<Seq<T>, DecodeErrorModel>
    decreases documents.len(),
{
    if documents.len() == 0 {
        Ok(Seq::empty())
    } else {
        match decoded_each(documents.drop_last(), decode) {
            Err(e) => Err(e),
            Ok(front) => match decode(documents.last()) {
                Err(e) => Err(e),
                Ok(record) => Ok(front.push(record)),
            },
        }
    }
}

/// An error in reading the first documents of a collection is the error in
/// reading the whole collection.
pub proof fn lemma_decoded_each_stops<T>(
    documents: Seq<Seq<(Seq<char>, ValueModel)>>,
    decode: spec_fn(Seq<(Seq<char>, ValueModel)>) -> Result<T, DecodeErrorModel>,
    k: int,
)
    requires
        0 <= k <= documents.len(),
    ensures
        decoded_each(documents.take(k), decode) is Err ==> decoded_each(documents, decode)
            == decoded_each(documents.take(k), decode),
    decreases documents.len() - k,
{
    if k == documents.len() {
        assert(documents.take(k) =~= documents);
    } else {
        lemma_decoded_each_stops(documents, decode, k + 1);
        assert(documents.take(k + 1).drop_last() =~= documents.take(k));
    }
}

/// Reading a document as a stored match.
pub open spec fn reads_match_record() -> spec_fn(Seq<(Seq<char>, ValueModel)>) -> Result<
    MatchRecordModel,
    DecodeErrorModel,
> {
    |document: Seq<(Seq<char>, ValueModel)>| decoded_match_record(document)
}

/// Reading a document as a finding.
pub open spec fn reads_finding() -> spec_fn(Seq<(Seq<char>, ValueModel)>) -> Result<
    FindingModel,
    DecodeErrorModel,
> {
    |document: Seq<(Seq<char>, ValueModel)>| decoded_finding(document)
}

/// Reading a document as a provenance entry.
pub open spec fn reads_blob_target() -> spec_fn(Seq<(Seq<char>, ValueModel)>) -> Result<
    BlobTargetModel,
    DecodeErrorModel,
> {
    |document: Seq<(Seq<char>, ValueModel)>| decoded_blob_target(document)
}

/// Whether a stored annotation is about a match: it is where it names one.
pub open spec fn is_match_annotation(document: Seq<(Seq<char>, ValueModel)>) -> bool {
    field_of(document, "match_id"@) is Some
}

/// The annotations that the documents of a collection hold: a document
/// that names a match is read as a match annotation, any other as a finding
/// annotation. The first document that cannot be read gives the error.
pub open spec fn decoded_annotations(documents: Seq<Seq<(Seq<char>, ValueModel)>>) -> Result<
    AnnotationsModel,
    DecodeErrorModel,
>
    decreases documents.len(),
{
    if documents.len() == 0 {
        Ok(
            AnnotationsModel {
                match_annotations: Seq::empty(),
                finding_annotations: Seq::empty(),
            },
        )
    } else {
        match decoded_annotations(documents.drop_last()) {
            Err(e) => Err(e),
            Ok(front) => if is_match_annotation(documents.last()) {
                match decoded_match_annotation(documents.last()) {
                    Err(e) => Err(e),
                    Ok(a) => Ok(
                        AnnotationsModel {
                            match_annotations: front.match_annotations.push(a),
                            ..front
                        },
                    ),
                }
            } else {
                match decoded_finding_annotation(documents.last()) {
                    Err(e) => Err(e),
                    Ok(a) => Ok(
                        AnnotationsModel {
                            finding_annotations: front.finding_annotations.push(a),
                            ..front
                        },
                    ),
                }
            },
        }
    }
}

/// An error in reading the first annotations of a collection is the error
/// in reading the whole collection.
pub proof fn lemma_decoded_annotations_stops(documents: Seq<Seq<(Seq<char>, ValueModel)>>, k: int)
    requires
        0 <= k <= documents.len(),
    ensures
        decoded_annotations(documents.take(k)) is Err ==> decoded_annotations(documents)
            == decoded_annotations(documents.take(k)),
    decreases documents.len() - k,
{
    if k == documents.len() {
        assert(documents.take(k) =~= documents);
    } else {
        lemma_decoded_annotations_stops(documents, k + 1);
        assert(documents.take(k + 1).drop_last() =~= documents.take(k));
    }
}

/// Reads the documents of the collection of matches.
pub fn read_match_records(documents: &Vec<Document>) -> (records: Result<
    Vec<MatchRecord>,
    DecodeError,
>)
    ensures
        match decoded_each(documents.deep_view(), reads_match_record()) {
            Ok(m) => records matches Ok(v) && v.deep_view() == m,
            Err(e) => records matches Err(err) && err@ == e,
        },
{
    let ghost models = documents.deep_view();
    let mut records: Vec<MatchRecord> = Vec::new();
    let mut i: usize = 0;
    assert(models.take(0) =~= Seq::<Seq<(Seq<char>, ValueModel)>>::empty());
    assert(records.deep_view() =~= Seq::<MatchRecordModel>::empty());
    while i < documents.len()
        invariant
            i <= documents.len(),
            models == documents.deep_view(),
            decoded_each(models.take(i as int), reads_match_record()) == Ok::<
                Seq<MatchRecordModel>,
                DecodeErrorModel,
            >(records.deep_view()),
        decreases documents.len() - i,
    {
        let ghost before = records.deep_view();
        proof {
            let now = models.take(i + 1);
            assert(now.drop_last() =~= models.take(i as int));
            assert(now.last() == documents@[i as int]@);
            lemma_decoded_each_stops(models, reads_match_record(), i + 1);
        }
        let record = MatchRecord::from_document(&documents[i])?;
        records.push(record);
        assert(records.deep_view() =~= before.push(record@));
        i += 1;
    }
    assert(models.take(i as int) =~= models);
    Ok(records)
}

/// Reads the documents of the collection of findings.
pub fn read_findings(documents: &Vec<Document>) -> (findings: Result<Vec<Finding>, DecodeError>)
    ensures
        match decoded_each(documents.deep_view(), reads_finding()) {
            Ok(m) => findings matches Ok(v) && v.deep_view() == m,
            Err(e) => findings matches Err(err) && err@ == e,
        },
{
    let ghost models = documents.deep_view();
    let mut findings: Vec<Finding> = Vec::new();
    let mut i: usize = 0;
    assert(models.take(0) =~= Seq::<Seq<(Seq<char>, ValueModel)>>::empty());
    assert(findings.deep_view() =~= Seq::<FindingModel>::empty());
    while i < documents.len()
        invariant
            i <= documents.len(),
            models == documents.deep_view(),
            decoded_each(models.take(i as int), reads_finding()) == Ok::<
                Seq<FindingModel>,
                DecodeErrorModel,
            >(findings.deep_view()),
        decreases documents.len() - i,
    {
        let ghost before = findings.deep_view();
        proof {
            let now = models.take(i + 1);
            assert(now.drop_last() =~= models.take(i as int));
            assert(now.last() == documents@[i as int]@);
            lemma_decoded_each_stops(models, reads_finding(), i + 1);
        }
        let finding = Finding::from_document(&documents[i])?;
        findings.push(finding);
        assert(findings.deep_view() =~= before.push(finding@));
        i += 1;
    }
    assert(models.take(i as int) =~= models);
    Ok(findings)
}

/// Reads the documents of the collection of provenance entries.
pub fn read_blob_targets(documents: &Vec<Document>) -> (entries: Result<
    Vec<BlobTarget>,
    DecodeError,
>)
    ensures
        match decoded_each(documents.deep_view(), reads_blob_target()) {
            Ok(m) => entries matches Ok(v) && v.deep_view() == m,
            Err(e) => entries matches Err(err) && err@ == e,
        },
{
    let ghost models = documents.deep_view();
    let mut entries: Vec<BlobTarget> = Vec::new();
    let mut i: usize = 0;
    assert(models.take(0) =~= Seq::<Seq<(Seq<char>, ValueModel)>>::empty());
    assert(entries.deep_view() =~= Seq::<BlobTargetModel>::empty());
    while i < documents.len()
        invariant
            i <= documents.len(),
            models == documents.deep_view(),
            decoded_each(models.take(i as int), reads_blob_target()) == Ok::<
                Seq<BlobTargetModel>,
                DecodeErrorModel,
            >(entries.deep_view()),
        decreases documents.len() - i,
    {
        let ghost before = entries.deep_view();
        proof {
            let now = models.take(i + 1);
            assert(now.drop_last() =~= models.take(i as int));
            assert(now.last() == documents@[i as int]@);
            lemma_decoded_each_stops(models, reads_blob_target(), i + 1);
        }
        let entry = BlobTarget::from_document(&documents[i])?;
        entries.push(entry);
        assert(entries.deep_view() =~= before.push(entry@));
        i += 1;
    }
    assert(models.take(i as int) =~= models);
    Ok(entries)
}

/// Reads the documents of the collection of annotations.
pub fn read_annotations(documents: &Vec<Document>) -> (annotations: Result<
    Annotations,
    DecodeError,
>)
    ensures
        match decoded_annotations(documents.deep_view()) {
            Ok(m) => annotations matches Ok(v) && v@ == m,
            Err(e) => annotations matches Err(err) && err@ == e,
        },
{
    let ghost models = documents.deep_view();
    let mut annotations = Annotations::new();
    let mut i: usize = 0;
    assert(models.take(0) =~= Seq::<Seq<(Seq<char>, ValueModel)>>::empty());
    assert(annotations@.match_annotations =~= Seq::<MatchAnnotationModel>::empty());
    assert(annotations@.finding_annotations =~= Seq::<FindingAnnotationModel>::empty());
    while i < documents.len()
        invariant
            i <= documents.len(),
            models == documents.deep_view(),
            decoded_annotations(models.take(i as int)) == Ok::<AnnotationsModel, DecodeErrorModel>(
                annotations@,
            ),
        decreases documents.len() - i,
    {
        let ghost before = annotations@;
        proof {
            let now = models.take(i + 1);
            assert(now.drop_last() =~= models.take(i as int));
            assert(now.last() == documents@[i as int]@);
            lemma_decoded_annotations_stops(models, i + 1);
        }
        if documents[i].contains_key("match_id") {
            let a = MatchAnnotation::from_document(&documents[i])?;
            annotations.match_annotations.push(a);
            assert(annotations@.match_annotations =~= before.match_annotations.push(a@));
        } else {
            let a = FindingAnnotation::from_document(&documents[i])?;
            annotations.finding_annotations.push(a);
            assert(annotations@.finding_annotations =~= before.finding_annotations.push(a@));
        }
        i += 1;
    }
    assert(models.take(i as int) =~= models);
    Ok(annotations)
}

/// Writing a stored match as a document.
pub open spec fn writes_match_record() -> spec_fn(MatchRecordModel) -> Seq<(Seq<char>, ValueModel)> {
    |record: MatchRecordModel| encoded_match_record(record)
}

/// Writing a finding as a document.
pub open spec fn writes_finding() -> spec_fn(FindingModel) -> Seq<(Seq<char>, ValueModel)> {
    |finding: FindingModel| encoded_finding(finding)
}

/// Writing a provenance entry as a document.
pub open spec fn writes_blob_target() -> spec_fn(BlobTargetModel) -> Seq<(Seq<char>, ValueModel)> {
    |entry: BlobTargetModel| encoded_blob_target(entry)
}

/// Writing a finding annotation as a document.
pub open spec fn writes_finding_annotation() -> spec_fn(FindingAnnotationModel) -> Seq<
    (Seq<char>, ValueModel),
> {
    |a: FindingAnnotationModel| encoded_finding_annotation(a)
}

/// Writing a match annotation as a document.
pub open spec fn writes_match_annotation() -> spec_fn(MatchAnnotationModel) -> Seq<
    (Seq<char>, ValueModel),
> {
    |a: MatchAnnotationModel| encoded_match_annotation(a)
}

/// Annotations as they are stored in one collection: the finding
/// annotations, and after them the match annotations.
pub open spec fn encoded_annotations(annotations: AnnotationsModel) -> Seq<
    Seq<(Seq<char>, ValueModel)>,
> {
    annotations.finding_annotations.map_values(writes_finding_annotation())
        + annotations.match_annotations.map_values(writes_match_annotation())
}

/// The documents of stored matches, in their order.
pub fn write_match_records(records: &Vec<MatchRecord>) -> (documents: Vec<Document>)
    ensures
        documents.deep_view() == records.deep_view().map_values(writes_match_record()),
{
    let mut documents: Vec<Document> = Vec::new();
    let mut i: usize = 0;
    while i < records.len()
        invariant
            i <= records.len(),
            documents.len() == i,
            forall|k: int|
                0 <= k < i ==> (#[trigger] documents@[k])@ == encoded_match_record(records@[k]@),
        decreases records.len() - i,
    {
        documents.push(records[i].to_document());
        i += 1;
    }
    assert(documents.deep_view() =~= records.deep_view().map_values(writes_match_record()));
    documents
}

/// The documents of findings, in their order.
pub fn write_findings(findings: &Vec<Finding>) -> (documents: Vec<Document>)
    ensures
        documents.deep_view() == findings.deep_view().map_values(writes_finding()),
{
    let mut documents: Vec<Document> = Vec::new();
    let mut i: usize = 0;
    while i < findings.len()
        invariant
            i <= findings.len(),
            documents.len() == i,
            forall|k: int|
                0 <= k < i ==> (#[trigger] documents@[k])@ == encoded_finding(findings@[k]@),
        decreases findings.len() - i,
    {
        documents.push(findings[i].to_document());
        i += 1;
    }
    assert(documents.deep_view() =~= findings.deep_view().map_values(writes_finding()));
    documents
}

/// The documents of provenance entries, in their order.
pub fn write_blob_targets(entries: &Vec<BlobTarget>) -> (documents: Vec<Document>)
    ensures
        documents.deep_view() == entries.deep_view().map_values(writes_blob_target()),
{
    let mut documents: Vec<Document> = Vec::new();
    let mut i: usize = 0;
    while i < entries.len()
        invariant
            i <= entries.len(),
            documents.len() == i,
            forall|k: int|
                0 <= k < i ==> (#[trigger] documents@[k])@ == encoded_blob_target(entries@[k]@),
        decreases entries.len() - i,
    {
        documents.push(entries[i].to_document());
        i += 1;
    }
    assert(documents.deep_view() =~= entries.deep_view().map_values(writes_blob_target()));
    documents
}

/// The documents of annotations: those of the finding annotations, and
/// after them those of the match annotations.
pub fn write_annotations(annotations: &Annotations) -> (documents: Vec<Document>)
    ensures
        documents.deep_view() == encoded_annotations(annotations@),
{
    let mut documents: Vec<Document> = Vec::new();
    let n = annotations.finding_annotations.len();
    let mut i: usize = 0;
    while i < n
        invariant
            i <= n,
            n == annotations.finding_annotations.len(),
            documents.len() == i,
            forall|k: int|
                0 <= k < i ==> (#[trigger] documents@[k])@ == encoded_finding_annotation(
                    annotations.finding_annotations@[k]@,
                ),
        decreases n - i,
    {
        documents.push(annotations.finding_annotations[i].to_document());
        i += 1;
    }
    let mut j: usize = 0;
    while j < annotations.match_annotations.len()
        invariant
            j <= annotations.match_annotations.len(),
            n == annotations.finding_annotations.len(),
            documents.len() == n + j,
            forall|k: int|
                0 <= k < n ==> (#[trigger] documents@[k])@ == encoded_finding_annotation(
                    annotations.finding_annotations@[k]@,
                ),
            forall|k: int|
                0 <= k < j ==> (#[trigger] documents@[n + k])@ == encoded_match_annotation(
                    annotations.match_annotations@[k]@,
                ),
        decreases annotations.match_annotations.len() - j,
    {
        documents.push(annotations.match_annotations[j].to_document());
        j += 1;
    }
    assert forall|k: int| 0 <= k < documents.len() implies #[trigger] documents.deep_view()[k]
        == encoded_annotations(annotations@)[k] by {
        if k >= n {
            assert(documents@[n + (k - n)]@ == encoded_match_annotation(
                annotations.match_annotations@[k - n]@,
            ));
        }
    }
    assert(documents.deep_view() =~= encoded_annotations(annotations@));
    documents
}

/// Where every record reads back from its document, the records read back
/// from their documents.
pub proof fn lemma_decoded_each_of_encoded<T>(
    records: Seq<T>,
    encode: spec_fn(T) -> Seq<(Seq<char>, ValueModel)>,
    decode: spec_fn(Seq<(Seq<char>, ValueModel)>) -> Result<T, DecodeErrorModel>,
)
    requires
        forall|i: int|
            0 <= i < records.len() ==> decode(encode(#[trigger] records[i])) == Ok::<
                T,
                DecodeErrorModel,
            >(records[i]),
    ensures
        decoded_each(records.map_values(encode), decode) == Ok::<Seq<T>, DecodeErrorModel>(records),
    decreases records.len(),
{
    let documents = records.map_values(encode);
    if records.len() > 0 {
        let front = records.drop_last();
        lemma_decoded_each_of_encoded(front, encode, decode);
        assert(documents.drop_last() =~= front.map_values(encode));
        assert(documents.last() == encode(records.last()));
        assert(front.push(records.last()) =~= records);
    } else {
        assert(records =~= Seq::<T>::empty());
    }
}

/// Reading back stored annotations gives the annotations, each kind in its
/// order.
pub proof fn lemma_annotations_round_trip(annotations: AnnotationsModel)
    requires
        forall|i: int|
            0 <= i < annotations.match_annotations.len() ==> storable_match_annotation(
                #[trigger] annotations.match_annotations[i],
            ),
    ensures
        decoded_annotations(encoded_annotations(annotations)) == Ok::<
            AnnotationsModel,
            DecodeErrorModel,
        >(annotations),
    decreases annotations.match_annotations.len() + annotations.finding_annotations.len(),
{
    let of_findings = annotations.finding_annotations;
    let of_matches = annotations.match_annotations;
    let documents = encoded_annotations(annotations);
    if of_matches.len() > 0 {
        let front = AnnotationsModel { match_annotations: of_matches.drop_last(), ..annotations };
        lemma_annotations_round_trip(front);
        assert(documents.drop_last() =~= encoded_annotations(front));
        let last = of_matches.last();
        assert(documents.last() == encoded_match_annotation(last));
        lemma_names_a_match(last);
        lemma_match_annotation_round_trip(last);
        assert(of_matches.drop_last().push(last) =~= of_matches);
    } else if of_findings.len() > 0 {
        let front = AnnotationsModel {
            finding_annotations: of_findings.drop_last(),
            ..annotations
        };
        lemma_annotations_round_trip(front);
        assert(documents.drop_last() =~= encoded_annotations(front));
        let last = of_findings.last();
        assert(documents.last() == encoded_finding_annotation(last));
        lemma_names_no_match(last);
        lemma_finding_annotation_round_trip(last);
        assert(of_findings.drop_last().push(last) =~= of_findings);
    } else {
        assert(of_matches =~= Seq::<MatchAnnotationModel>::empty());
        assert(of_findings =~= Seq::<FindingAnnotationModel>::empty());
        assert(documents =~= Seq::<Seq<(Seq<char>, ValueModel)>>::empty());
    }
}

/// A stored match annotation names a match.
pub proof fn lemma_names_a_match(a: MatchAnnotationModel)
    ensures
        is_match_annotation(encoded_match_annotation(a)),
{
    let d = encoded_match_annotation(a);
    reveal_strlit("finding_id");
    reveal_strlit("rule_name");
    reveal_strlit("rule_text_id");
    reveal_strlit("rule_structural_id");
    reveal_strlit("match_id");
    assert("finding_id"@.len() == 10);
    assert("rule_name"@.len() == 9);
    assert("rule_text_id"@.len() == 12);
    assert("rule_structural_id"@.len() == 18);
    assert("match_id"@.len() == 8);
    reveal_with_fuel(unnamed_before, 5);
    assert(d[4].0 == "match_id"@);
    lemma_field_found(d, 4);
}

/// A stored finding annotation names no match.
pub proof fn lemma_names_no_match(a: FindingAnnotationModel)
    ensures
        !is_match_annotation(encoded_finding_annotation(a)),
{
    let d = encoded_finding_annotation(a);
    reveal_strlit("finding_id");
    reveal_strlit("rule_name");
    reveal_strlit("rule_text_id");
    reveal_strlit("rule_structural_id");
    reveal_strlit("groups");
    reveal_strlit("comment");
    reveal_strlit("match_id");
    assert("finding_id"@.len() == 10);
    assert("rule_name"@.len() == 9);
    assert("rule_text_id"@.len() == 12);
    assert("rule_structural_id"@.len() == 18);
    assert("groups"@.len() == 6);
    assert("comment"@.len() == 7);
    assert("match_id"@.len() == 8);
    reveal_with_fuel(unnamed_before, 7);
    lemma_field_not_found(d, "match_id"@);
}

} // verus!
