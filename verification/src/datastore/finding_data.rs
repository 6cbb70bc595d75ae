//! The matches of a finding in full, each joined with the metadata and the
//! provenance of its blob and with what is stored about the match.

use vstd::prelude::*;

use crate::blob_id::BlobId;
use crate::blob_metadata::{clone_text, BlobMetadata, BlobMetadataModel};
use crate::datastore::annotation::{MatchAnnotation, MatchAnnotationModel};
use crate::datastore::error::DatastoreError;
use crate::datastore::finding::{BlobTarget, BlobTargetModel, MatchRecord, MatchRecordModel};
use crate::datastore::finding_metadata::{FindingMetadata, FindingMetadataModel};
use crate::datastore::labels::{comment_for_match, comment_on_match, decision_for, decision_on};
use crate::datastore::status::Status;
use crate::match_type::{groups_intersect, Match, MatchModel};
use crate::sequences::{first_index, lemma_first_index_is, lemma_first_index_none};
use crate::target::{Target, TargetModel};
use crate::target_set::{collapsed, TargetSet};

verus! {

/// One match of a finding in full.
#[derive(Debug)]
pub struct FindingDataEntry {
    /// Where the blob of the match was seen; never empty.
    pub target: TargetSet,
    pub blob_metadata: BlobMetadata,
    /// The structural identifier of the match.
    pub match_id: String,
    pub match_val: Match,
    pub match_comment: Option<String>,
    pub match_status: Option<Status>,
}

/// What an entry holds.
pub struct FindingDataEntryModel {
    pub target: Seq<TargetModel>,
    pub blob_metadata: BlobMetadataModel,
    pub match_id: Seq<char>,
    pub match_val: MatchModel,
    pub match_comment: Option<Seq<char>>,
    pub match_status: Option<Status>,
}

impl View for FindingDataEntry {
    type V = FindingDataEntryModel;

    open spec fn view(&self) -> FindingDataEntryModel {
        FindingDataEntryModel {
            target: self.target@,
            blob_metadata: self.blob_metadata@,
            match_id: self.match_id@,
            match_val: self.match_val@,
            match_comment: self.match_comment.deep_view(),
            match_status: self.match_status,
        }
    }
}

impl DeepView for FindingDataEntry {
    type V = FindingDataEntryModel;

    open spec fn deep_view(&self) -> FindingDataEntryModel {
        self@
    }
}

/// The matches of a finding in full.
pub type FindingData = Vec<FindingDataEntry>;

/// The property of belonging to the described finding: the match is of the
/// finding's rule and, where the finding has groups, shares a group with it.
pub open spec fn selects(metadata: FindingMetadataModel) -> spec_fn(MatchRecordModel) -> bool {
    |r: MatchRecordModel|
        r.match_val.rule_structural_id == metadata.rule_structural_id && (metadata.groups.len()
            == 0 || groups_intersect(r.match_val.groups, metadata.groups))
}

/// The stored matches that belong to the described finding, in their order.
pub open spec fn selected(records: Seq<MatchRecordModel>, metadata: FindingMetadataModel) -> Seq<
    MatchRecordModel,
> {
    records.filter(selects(metadata))
}

/// The first `limit` items of `s`, or all of `s` where there is no limit or
/// `s` has no more than `limit` items.
pub open spec fn capped<T>(s: Seq<T>, limit: Option<usize>) -> Seq<T> {
    match limit {
        Some(n) => if n < s.len() {
            s.take(n as int)
        } else {
            s
        },
        None => s,
    }
}

/// The property of being about the blob `id`.
pub open spec fn is_of_blob(id: Seq<u8>) -> spec_fn(BlobTargetModel) -> bool {
    |entry: BlobTargetModel| entry.blob_id == id
}

/// The target of a provenance entry.
pub open spec fn target_of() -> spec_fn(BlobTargetModel) -> TargetModel {
    |entry: BlobTargetModel| entry.target
}

/// The targets at which the blob `id` was seen, in the order in which they
/// are stored.
pub open spec fn targets_of(blob_targets: Seq<BlobTargetModel>, id: Seq<u8>) -> Seq<TargetModel> {
    blob_targets.filter(is_of_blob(id)).map_values(target_of())
}

/// The match of an entry: the stored match, with the name and the text
/// identifier of the rule as the described finding gives them.
pub open spec fn entry_match(metadata: FindingMetadataModel, m: MatchModel) -> MatchModel {
    MatchModel { rule_name: metadata.rule_name, rule_text_id: metadata.rule_text_id, ..m }
}

/// The entry for a stored match of the described finding: the match, the
/// metadata of the match's blob, the targets of the match's blob without the
/// redundant ones, and the comment and the decision stored for the match.
pub open spec fn entry_of(
    blob_targets: Seq<BlobTargetModel>,
    annotations: Seq<MatchAnnotationModel>,
    metadata: FindingMetadataModel,
    r: MatchRecordModel,
) -> FindingDataEntryModel {
    FindingDataEntryModel {
        target: collapsed(targets_of(blob_targets, r.match_val.blob_id)),
        blob_metadata: BlobMetadataModel { id: r.match_val.blob_id, ..r.blob_metadata },
        match_id: r.match_val.structural_id,
        match_val: entry_match(metadata, r.match_val),
        match_comment: comment_on_match(annotations, r.match_val.structural_id),
        match_status: decision_on(annotations, r.match_val.structural_id),
    }
}

/// The property of giving a stored match its entry.
pub open spec fn hydrates(
    blob_targets: Seq<BlobTargetModel>,
    annotations: Seq<MatchAnnotationModel>,
    metadata: FindingMetadataModel,
) -> spec_fn(MatchRecordModel) -> FindingDataEntryModel {
    |r: MatchRecordModel| entry_of(blob_targets, annotations, metadata, r)
}

/// The property of a stored match that no target is stored for its blob.
pub open spec fn lacks_provenance(blob_targets: Seq<BlobTargetModel>) -> spec_fn(
    MatchRecordModel,
) -> bool {
    |r: MatchRecordModel| targets_of(blob_targets, r.match_val.blob_id).len() == 0
}

/// The matches of the described finding in full, no more than `limit` of
/// them: the entries of the first matches that belong to the finding, or the
/// identifier of the first blob among them that has no stored target.
pub open spec fn finding_data_of(
    records: Seq<MatchRecordModel>,
    blob_targets: Seq<BlobTargetModel>,
    annotations: Seq<MatchAnnotationModel>,
    metadata: FindingMetadataModel,
    limit: Option<usize>,
) -> Result<Seq<FindingDataEntryModel>, Seq<u8>> {
    let wanted = capped(selected(records, metadata), limit);
    match first_index(wanted, lacks_provenance(blob_targets)) {
        Some(k) => Err(wanted[k].match_val.blob_id),
        None => Ok(wanted.map_values(hydrates(blob_targets, annotations, metadata))),
    }
}

/// Every entry of a finding's data is of the finding's rule and carries the
/// finding's rule name and text identifier; its blob metadata is that of
/// its match's blob; and its targets are those stored for that blob, without
/// the redundant ones, at least one. There are no more entries than the limit.
pub proof fn lemma_finding_data_entries(
    records: Seq<MatchRecordModel>,
    blob_targets: Seq<BlobTargetModel>,
    annotations: Seq<MatchAnnotationModel>,
    metadata: FindingMetadataModel,
    limit: Option<usize>,
)
    requires
        finding_data_of(records, blob_targets, annotations, metadata, limit) is Ok,
    ensures
        limit matches Some(n) ==> finding_data_of(
            records,
            blob_targets,
            annotations,
            metadata,
            limit,
        )->Ok_0.len() <= n,
        forall|k: int|
            0 <= k < finding_data_of(
                records,
                blob_targets,
                annotations,
                metadata,
                limit,
            )->Ok_0.len() ==> {
                let e = #[trigger] finding_data_of(
                    records,
                    blob_targets,
                    annotations,
                    metadata,
                    limit,
                )->Ok_0[k];
                &&& e.match_val.rule_structural_id == metadata.rule_structural_id
                &&& e.match_val.rule_name == metadata.rule_name
                &&& e.match_val.rule_text_id == metadata.rule_text_id
                &&& e.match_id == e.match_val.structural_id
                &&& e.blob_metadata.id == e.match_val.blob_id
                &&& e.target == collapsed(targets_of(blob_targets, e.match_val.blob_id))
                &&& e.target.len() >= 1
            },
{
    let whole = selected(records, metadata);
    let wanted = capped(whole, limit);
    let entries = finding_data_of(records, blob_targets, annotations, metadata, limit)->Ok_0;
    crate::sequences::lemma_first_index(wanted, lacks_provenance(blob_targets));
    assert forall|k: int| 0 <= k < entries.len() implies {
        let e = #[trigger] entries[k];
        &&& e.match_val.rule_structural_id == metadata.rule_structural_id
        &&& e.match_val.rule_name == metadata.rule_name
        &&& e.match_val.rule_text_id == metadata.rule_text_id
        &&& e.match_id == e.match_val.structural_id
        &&& e.blob_metadata.id == e.match_val.blob_id
        &&& e.target == collapsed(targets_of(blob_targets, e.match_val.blob_id))
        &&& e.target.len() >= 1
    } by {
        let r = wanted[k];
        assert(entries[k] == entry_of(blob_targets, annotations, metadata, r));
        assert(whole[k] == r);
        records.lemma_filter_pred(selects(metadata), k);
        assert(!lacks_provenance(blob_targets)(r));
        crate::target_set::lemma_collapsed_nonempty(targets_of(blob_targets, r.match_val.blob_id));
    }
}

/// The matches that belong to a finding among the first `i` stored ones are
/// the first of those that belong to it among all.
pub proof fn lemma_selected_prefix(
    records: Seq<MatchRecordModel>,
    metadata: FindingMetadataModel,
    i: int,
)
    requires
        0 <= i <= records.len(),
    ensures
        selected(records, metadata) == selected(records.take(i), metadata) + selected(
            records.skip(i),
            metadata,
        ),
{
    assert(records =~= records.take(i) + records.skip(i));
    Seq::filter_distributes_over_add(records.take(i), records.skip(i), selects(metadata));
}

/// The targets stored for a blob, without the redundant ones; fails where
/// no target is stored for the blob.
pub fn get_target_set(blob_targets: &Vec<BlobTarget>, blob_id: &BlobId) -> (set: Result<
    TargetSet,
    DatastoreError,
>)
    ensures
        set is Ok == (targets_of(blob_targets.deep_view(), blob_id@).len() > 0),
        set matches Ok(s) ==> s@ == collapsed(targets_of(blob_targets.deep_view(), blob_id@))
            && s@.len() > 0,
        set matches Err(e) ==> e matches DatastoreError::MissingProvenance { blob_id: id } && id@
            == blob_id@,
{
    let ghost all = blob_targets.deep_view();
    let ghost pred = is_of_blob(blob_id@);
    let mut targets: Vec<Target> = Vec::new();
    let mut i: usize = 0;
    proof {
        reveal(Seq::filter);
        assert(all.take(0).filter(pred).map_values(target_of()) =~= Seq::<TargetModel>::empty());
    }
    while i < blob_targets.len()
        invariant
            i <= blob_targets.len(),
            all == blob_targets.deep_view(),
            pred == is_of_blob(blob_id@),
            targets.deep_view() == all.take(i as int).filter(pred).map_values(target_of()),
        decreases blob_targets.len() - i,
    {
        let ghost before = targets.deep_view();
        if blob_targets[i].blob_id.same(blob_id) {
            targets.push(blob_targets[i].target.clone());
        }
        i += 1;
        proof {
            reveal(Seq::filter);
            let now = all.take(i as int);
            assert(now.drop_last() =~= all.take(i - 1));
            assert(now.last() == all[i - 1]);
            if pred(all[i - 1]) {
                assert(targets.deep_view() =~= before.push(all[i - 1].target));
                assert(now.filter(pred).map_values(target_of()) =~= before.push(
                    all[i - 1].target,
                ));
            }
        }
    }
    assert(all.take(i as int) =~= all);
    match TargetSet::try_from_iter(targets) {
        Some(set) => Ok(set),
        None => Err(DatastoreError::MissingProvenance { blob_id: *blob_id }),
    }
}

/// A copy of a stored match with the name and the text identifier of the
/// rule as the described finding gives them.
fn match_of_finding(m: &Match, metadata: &FindingMetadata) -> (copy: Match)
    ensures
        copy@ == entry_match(metadata@, m@),
{
    Match {
        blob_id: m.blob_id,
        location: m.location,
        groups: m.groups.clone(),
        snippet: m.snippet.clone(),
        structural_id: m.structural_id.clone(),
        rule_structural_id: m.rule_structural_id.clone(),
        rule_text_id: metadata.rule_text_id.clone(),
        rule_name: metadata.rule_name.clone(),
    }
}

/// Whether one more entry stays within the limit.
fn has_room(count: usize, limit: Option<usize>) -> (room: bool)
    ensures
        room == (limit matches Some(n) ==> count < n),
{
    match limit {
        Some(n) => count < n,
        None => true,
    }
}

/// Whether a stored match belongs to the described finding.
pub fn belongs_to(record: &MatchRecord, metadata: &FindingMetadata) -> (belongs: bool)
    ensures
        belongs == selects(metadata@)(record@),
{
    record.match_val.rule_structural_id == metadata.rule_structural_id && (
    metadata.groups.is_empty() || record.match_val.groups.intersects(&metadata.groups))
}

/// The matches of the described finding in full, no more than `limit` of
/// them where a limit is given. Each carries the rule's name and text
/// identifier as the description gives them, and is joined with the metadata
/// of its blob, with the targets at which its blob was seen, and with the
/// comment and the decision stored for it. Fails at the first of them whose
/// blob has no stored target.
pub fn finding_data(
    records: &Vec<MatchRecord>,
    blob_targets: &Vec<BlobTarget>,
    annotations: &Vec<MatchAnnotation>,
    metadata: &FindingMetadata,
    limit: Option<usize>,
) -> (data: Result<FindingData, DatastoreError>)
    ensures
        match finding_data_of(
            records.deep_view(),
            blob_targets.deep_view(),
            annotations.deep_view(),
            metadata@,
            limit,
        ) {
            Ok(entries) => data matches Ok(d) && d.deep_view() == entries,
            Err(blob) => data matches Err(DatastoreError::MissingProvenance { blob_id })
                && blob_id@ == blob,
        },
{
    let ghost all = records.deep_view();
    let ghost places = blob_targets.deep_view();
    let ghost notes = annotations.deep_view();
    let ghost meta = metadata@;
    let mut entries: Vec<FindingDataEntry> = Vec::new();
    let mut i: usize = 0;
    proof {
        reveal(Seq::filter);
        assert(selected(all.take(0), meta) =~= Seq::<MatchRecordModel>::empty());
    }
    while i < records.len() && has_room(entries.len(), limit)
        invariant
            i <= records.len(),
            all == records.deep_view(),
            places == blob_targets.deep_view(),
            notes == annotations.deep_view(),
            meta == metadata@,
            entries.deep_view() == selected(all.take(i as int), meta).map_values(
                hydrates(places, notes, meta),
            ),
            forall|k: int|
                0 <= k < selected(all.take(i as int), meta).len() ==> !lacks_provenance(places)(
                    #[trigger] selected(all.take(i as int), meta)[k],
                ),
            limit matches Some(n) ==> entries.len() <= n,
        decreases records.len() - i,
    {
        let record = &records[i];
        let ghost seen = selected(all.take(i as int), meta);
        let ghost before = entries.deep_view();
        proof {
            reveal(Seq::filter);
            let now = all.take(i + 1);
            assert(now.drop_last() =~= all.take(i as int));
            assert(now.last() == record@);
        }
        if belongs_to(record, metadata) {
            assert(selected(all.take(i + 1), meta) == seen.push(record@));
            match get_target_set(blob_targets, &record.match_val.blob_id) {
                Ok(target) => {
                    let entry = FindingDataEntry {
                        target,
                        blob_metadata: BlobMetadata {
                            id: record.match_val.blob_id,
                            num_bytes: record.blob_metadata.num_bytes,
                            mime_essence: clone_text(&record.blob_metadata.mime_essence),
                            charset: clone_text(&record.blob_metadata.charset),
                        },
                        match_id: record.match_val.structural_id.clone(),
                        match_val: match_of_finding(&record.match_val, metadata),
                        match_comment: comment_for_match(
                            annotations,
                            &record.match_val.structural_id,
                        ),
                        match_status: decision_for(annotations, &record.match_val.structural_id),
                    };
                    assert(entry@ == entry_of(places, notes, meta, record@));
                    entries.push(entry);
                    assert(entries.deep_view() =~= before.push(
                        entry_of(places, notes, meta, record@),
                    ));
                },
                Err(e) => {
                    proof {
                        let whole = selected(all, meta);
                        let wanted = capped(whole, limit);
                        let k = seen.len() as int;
                        lemma_selected_prefix(all, meta, i + 1);
                        assert(before.len() == seen.len());
                        assert(selected(all.take(i + 1), meta).len() == k + 1);
                        assert(whole.len() > k);
                        assert(whole[k] == selected(all.take(i + 1), meta)[k]);
                        assert(whole[k] == record@);
                        assert(limit matches Some(n) ==> k < n);
                        assert(wanted.len() > k);
                        assert(wanted[k] == record@);
                        assert forall|j: int| 0 <= j < k implies !lacks_provenance(places)(
                            #[trigger] wanted[j],
                        ) by {
                            assert(wanted[j] == whole[j]);
                            assert(whole[j] == selected(all.take(i + 1), meta)[j]);
                            assert(wanted[j] == seen[j]);
                        }
                        lemma_first_index_is(wanted, lacks_provenance(places), k);
                    }
                    return Err(e);
                },
            }
        } else {
            assert(selected(all.take(i + 1), meta) == seen);
        }
        i += 1;
    }
    proof {
        let whole = selected(all, meta);
        let wanted = capped(whole, limit);
        let seen = selected(all.take(i as int), meta);
        lemma_selected_prefix(all, meta, i as int);
        if i == records.len() {
            assert(all.take(i as int) =~= all);
            assert(wanted =~= seen);
        } else {
            assert(wanted =~= seen);
        }
        assert forall|j: int| 0 <= j < wanted.len() implies !lacks_provenance(places)(
            #[trigger] wanted[j],
        ) by {}
        lemma_first_index_none(wanted, lacks_provenance(places));
    }
    Ok(entries)
}

} // verus!
