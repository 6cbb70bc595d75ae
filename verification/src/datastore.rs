//! The store of matches, findings, annotations and blob provenance, and the
//! operations that aggregate and reconcile them.

use vstd::prelude::*;

pub mod analysis;
pub mod annotation;
pub mod codec;
pub mod collections;
pub mod error;
pub mod finding;
pub mod finding_data;
pub mod finding_metadata;
pub mod finding_summary;
pub mod labels;
pub mod merge;
pub mod record_codec;
pub mod status;
pub mod target_codec;

pub use annotation::{Annotations, FindingAnnotation, MatchAnnotation};
pub use codec::DecodeError;
pub use error::DatastoreError;
pub use finding::{BlobTarget, Finding, MatchRecord};
pub use finding_data::{FindingData, FindingDataEntry};
pub use finding_metadata::FindingMetadata;
pub use finding_summary::{FindingSummary, FindingSummaryEntry};
pub use merge::{MergeOutcome, MergeStats};
pub use status::{Status, Statuses};

use crate::blob_metadata::BlobMetadata;
use crate::document::{Document, ValueModel};
use codec::DecodeErrorModel;
use collections::{
    decoded_annotations,
    decoded_each,
    encoded_annotations,
    read_annotations,
    read_blob_targets,
    read_findings,
    read_match_records,
    reads_blob_target,
    reads_finding,
    reads_match_record,
    write_annotations,
    write_blob_targets,
    write_findings,
    write_match_records,
    writes_blob_target,
    writes_finding,
    writes_match_record,
};
use crate::target_set::TargetSet;
use analysis::{analyzed, group_matches, matches_of};
use annotation::AnnotationsModel;
use finding::{BlobTargetModel, FindingModel, MatchRecordModel};
use finding_data::{finding_data, finding_data_of, get_target_set, targets_of};
use finding_metadata::{describe_all, describes};
use finding_summary::{entry_fits, entry_of_rule, rule_names, summarize, summary_fits, summary_of};
use labels::{relabel_all, relabels};
use merge::{
    finding_comment,
    finding_key,
    import_finding_annotations,
    import_match_annotations,
    match_comment,
    match_key,
    merged_store,
    merged_tally,
};
use crate::target_set::collapsed;

verus! {

/// The four stored collections: matches, findings, annotations, and the
/// targets at which blobs were seen.
#[derive(Debug)]
pub struct Datastore {
    pub matches: Vec<MatchRecord>,
    pub findings: Vec<Finding>,
    pub annotations: Annotations,
    pub blob_targets: Vec<BlobTarget>,
}

/// What a store holds.
pub struct DatastoreModel {
    pub matches: Seq<MatchRecordModel>,
    pub findings: Seq<FindingModel>,
    pub annotations: AnnotationsModel,
    pub blob_targets: Seq<BlobTargetModel>,
}

impl View for Datastore {
    type V = DatastoreModel;

    open spec fn view(&self) -> DatastoreModel {
        DatastoreModel {
            matches: self.matches.deep_view(),
            findings: self.findings.deep_view(),
            annotations: self.annotations@,
            blob_targets: self.blob_targets.deep_view(),
        }
    }
}

/// What was done with a batch of annotations, and what the store holds
/// afterwards.
#[derive(Debug, Copy, Clone, PartialEq, Eq, Structural)]
pub struct ImportReport {
    /// The number of findings in the store.
    pub num_findings: u64,
    /// The number of matches in the store.
    pub num_matches: u64,
    /// The outcomes for the finding annotations of the batch.
    pub finding_comments: MergeStats,
    /// The outcomes for the match annotations of the batch.
    pub match_comments: MergeStats,
}

/// The store after its findings were built anew from its matches.
pub open spec fn after_analyze(store: DatastoreModel) -> DatastoreModel {
    DatastoreModel { findings: analyzed(matches_of(store.matches)), ..store }
}

/// The store after the stored annotations were joined to its findings.
pub open spec fn after_aggregate(store: DatastoreModel) -> DatastoreModel {
    DatastoreModel { findings: store.findings.map_values(relabels(store.annotations)), ..store }
}

/// The store after a batch of annotations was merged into the stored ones:
/// the finding annotations by finding, the match annotations by match, each
/// kind on its own.
pub open spec fn after_import(store: DatastoreModel, batch: AnnotationsModel) -> DatastoreModel {
    DatastoreModel {
        annotations: AnnotationsModel {
            finding_annotations: merged_store(
                store.annotations.finding_annotations,
                batch.finding_annotations,
                finding_key(),
                finding_comment(),
            ),
            match_annotations: merged_store(
                store.annotations.match_annotations,
                batch.match_annotations,
                match_key(),
                match_comment(),
            ),
        },
        ..store
    }
}

/// The store that the documents of the four collections hold. The
/// collections are read in the order matches, findings, annotations, blob
/// targets, and the first document that cannot be read gives the error.
pub open spec fn decoded_store(
    matches: Seq<Seq<(Seq<char>, ValueModel)>>,
    findings: Seq<Seq<(Seq<char>, ValueModel)>>,
    annotations: Seq<Seq<(Seq<char>, ValueModel)>>,
    blob_targets: Seq<Seq<(Seq<char>, ValueModel)>>,
) -> Result<DatastoreModel, DecodeErrorModel> {
    match decoded_each(matches, reads_match_record()) {
        Err(e) => Err(e),
        Ok(matches) => match decoded_each(findings, reads_finding()) {
            Err(e) => Err(e),
            Ok(findings) => match decoded_annotations(annotations) {
                Err(e) => Err(e),
                Ok(annotations) => match decoded_each(blob_targets, reads_blob_target()) {
                    Err(e) => Err(e),
                    Ok(blob_targets) => Ok(
                        DatastoreModel { matches, findings, annotations, blob_targets },
                    ),
                },
            },
        },
    }
}

/// Building the findings a second time over unchanged matches gives the
/// same store as building them once.
pub proof fn lemma_analyze_is_idempotent(store: DatastoreModel)
    ensures
        after_analyze(after_analyze(store)) == after_analyze(store),
{
}

/// Building the findings does not depend on the findings stored before.
pub proof fn lemma_analyze_ignores_old_findings(a: DatastoreModel, b: DatastoreModel)
    requires
        a.matches == b.matches,
    ensures
        after_analyze(a).findings == after_analyze(b).findings,
{
}

/// A number of items as a `u64`, the largest one where there are more.
fn count_as_u64(len: usize) -> (n: u64)
    ensures
        n == (if len <= u64::MAX {
            len as u64
        } else {
            u64::MAX
        }),
{
    if len as u128 <= u64::MAX as u128 {
        len as u64
    } else {
        u64::MAX
    }
}

impl Datastore {
    /// An empty store that lives in memory.
    pub fn new_in_memory() -> (store: Datastore)
        ensures
            store@.matches.len() == 0,
            store@.findings.len() == 0,
            store@.annotations.match_annotations.len() == 0,
            store@.annotations.finding_annotations.len() == 0,
            store@.blob_targets.len() == 0,
    {
        Datastore {
            matches: Vec::new(),
            findings: Vec::new(),
            annotations: Annotations::new(),
            blob_targets: Vec::new(),
        }
    }

    /// Reads a store from the documents of its four collections.
    pub fn from_documents(
        matches: &Vec<Document>,
        findings: &Vec<Document>,
        annotations: &Vec<Document>,
        blob_targets: &Vec<Document>,
    ) -> (store: Result<Datastore, DecodeError>)
        ensures
            match decoded_store(
                matches.deep_view(),
                findings.deep_view(),
                annotations.deep_view(),
                blob_targets.deep_view(),
            ) {
                Ok(model) => store matches Ok(s) && s@ == model,
                Err(e) => store matches Err(err) && err@ == e,
            },
    {
        let matches = read_match_records(matches)?;
        let findings = read_findings(findings)?;
        let annotations = read_annotations(annotations)?;
        let blob_targets = read_blob_targets(blob_targets)?;
        Ok(Datastore { matches, findings, annotations, blob_targets })
    }

    /// The stored matches as documents, in their order.
    pub fn match_documents(&self) -> (documents: Vec<Document>)
        ensures
            documents.deep_view() == self@.matches.map_values(writes_match_record()),
    {
        write_match_records(&self.matches)
    }

    /// The stored findings as documents, in their order.
    pub fn finding_documents(&self) -> (documents: Vec<Document>)
        ensures
            documents.deep_view() == self@.findings.map_values(writes_finding()),
    {
        write_findings(&self.findings)
    }

    /// The stored annotations as documents: the finding annotations, and
    /// after them the match annotations.
    pub fn annotation_documents(&self) -> (documents: Vec<Document>)
        ensures
            documents.deep_view() == encoded_annotations(self@.annotations),
    {
        write_annotations(&self.annotations)
    }

    /// The stored provenance entries as documents, in their order.
    pub fn blob_target_documents(&self) -> (documents: Vec<Document>)
        ensures
            documents.deep_view() == self@.blob_targets.map_values(writes_blob_target()),
    {
        write_blob_targets(&self.blob_targets)
    }

    /// Builds the findings anew from the stored matches: one finding for
    /// each rule and each sequence of groups, in the order in which they first
    /// occur, every match counted as unlabeled. The findings stored before are
    /// dropped; nothing else changes.
    pub fn analyze(&mut self)
        ensures
            final(self)@ == after_analyze(old(self)@),
    {
        self.findings = group_matches(&self.matches);
    }

    /// Joins the stored annotations to the stored findings: the status
    /// counters, the statuses and the comment of every finding are computed
    /// anew. Nothing else changes.
    pub fn aggregate_statuses(&mut self)
        ensures
            final(self)@ == after_aggregate(old(self)@),
    {
        relabel_all(&mut self.findings, &self.annotations);
    }

    /// Marks the start of a batch of operations on the store. Nothing is
    /// read or changed.
    pub fn begin(&self) {
    }

    /// The number of stored matches.
    pub fn get_num_matches(&self) -> (n: u64)
        ensures
            n == self@.matches.len() || (n == u64::MAX && self@.matches.len() > u64::MAX),
    {
        count_as_u64(self.matches.len())
    }

    /// The number of stored findings.
    pub fn get_num_findings(&self) -> (n: u64)
        ensures
            n == self@.findings.len() || (n == u64::MAX && self@.findings.len() > u64::MAX),
    {
        count_as_u64(self.findings.len())
    }

    /// The totals of the stored findings by rule: one entry per rule, in the
    /// order in which the rules first occur, with the number of the rule's
    /// findings and the sums of their counts. Fails where a sum is more than
    /// a `usize` can hold.
    pub fn get_summary(&self) -> (summary: Result<FindingSummary, DatastoreError>)
        ensures
            summary is Ok == summary_fits(self@.findings),
            summary matches Ok(s) ==> s@ == summary_of(self@.findings),
            summary matches Err(e) ==> e matches DatastoreError::CountOverflow { rule_name }
                && rule_names(self@.findings).contains(rule_name@) && !entry_fits(
                entry_of_rule(self@.findings, rule_name@),
            ),
    {
        summarize(&self.findings)
    }

    /// A copy of the stored annotations.
    pub fn get_annotations(&self) -> (annotations: Annotations)
        ensures
            annotations@ == self@.annotations,
    {
        self.annotations.clone()
    }

    /// Merges a batch of annotations into the stored ones. An annotation
    /// under a key that nothing is stored under is stored; one whose comment
    /// is the stored one changes nothing; one whose comment differs from the
    /// stored one is dropped, and the stored one stays. The report counts
    /// the three outcomes for each kind of annotation.
    pub fn import_annotations(&mut self, annotations: &Annotations) -> (report: ImportReport)
        ensures
            final(self)@ == after_import(old(self)@, annotations@),
            report.finding_comments@ == merged_tally(
                old(self)@.annotations.finding_annotations,
                annotations@.finding_annotations,
                finding_key(),
                finding_comment(),
            ),
            report.match_comments@ == merged_tally(
                old(self)@.annotations.match_annotations,
                annotations@.match_annotations,
                match_key(),
                match_comment(),
            ),
            report.num_findings == old(self).get_num_findings_spec(),
            report.num_matches == old(self).get_num_matches_spec(),
    {
        let finding_comments = import_finding_annotations(
            &mut self.annotations.finding_annotations,
            &annotations.finding_annotations,
        );
        let match_comments = import_match_annotations(
            &mut self.annotations.match_annotations,
            &annotations.match_annotations,
        );
        ImportReport {
            num_findings: count_as_u64(self.findings.len()),
            num_matches: count_as_u64(self.matches.len()),
            finding_comments,
            match_comments,
        }
    }

    /// The number of stored findings, as `get_num_findings` gives it.
    pub open spec fn get_num_findings_spec(&self) -> u64 {
        if self@.findings.len() <= u64::MAX {
            self@.findings.len() as u64
        } else {
            u64::MAX
        }
    }

    /// The number of stored matches, as `get_num_matches` gives it.
    pub open spec fn get_num_matches_spec(&self) -> u64 {
        if self@.matches.len() <= u64::MAX {
            self@.matches.len() as u64
        } else {
            u64::MAX
        }
    }

    /// The descriptions of the stored findings, in their order; a descriptor
    /// that a stored finding lacks is empty in its description.
    pub fn get_finding_metadata(&self) -> (entries: Vec<FindingMetadata>)
        ensures
            entries.deep_view() == self@.findings.map_values(describes()),
    {
        describe_all(&self.findings)
    }

    /// The matches of the described finding in full, no more than `limit` of
    /// them where a limit is given, each with the rule's name and text
    /// identifier as the description gives them and with the metadata and the
    /// targets of its blob. Fails at the first of them whose blob has no
    /// stored target.
    pub fn get_finding_data(&self, metadata: &FindingMetadata, limit: Option<usize>) -> (data: Result<
        FindingData,
        DatastoreError,
    >)
        ensures
            match finding_data_of(
                self@.matches,
                self@.blob_targets,
                self@.annotations.match_annotations,
                metadata@,
                limit,
            ) {
                Ok(entries) => data matches Ok(d) && d.deep_view() == entries,
                Err(blob) => data matches Err(DatastoreError::MissingProvenance { blob_id })
                    && blob_id@ == blob,
            },
    {
        finding_data(
            &self.matches,
            &self.blob_targets,
            &self.annotations.match_annotations,
            metadata,
            limit,
        )
    }

    /// The targets stored for a blob, without the redundant ones; fails
    /// where no target is stored for the blob.
    pub fn get_target_set(&self, metadata: &BlobMetadata) -> (set: Result<TargetSet, DatastoreError>)
        ensures
            set is Ok == (targets_of(self@.blob_targets, metadata@.id).len() > 0),
            set matches Ok(s) ==> s@ == collapsed(targets_of(self@.blob_targets, metadata@.id))
                && s@.len() > 0,
            set matches Err(e) ==> e matches DatastoreError::MissingProvenance { blob_id }
                && blob_id@ == metadata@.id,
    {
        get_target_set(&self.blob_targets, &metadata.id)
    }
}

} // verus!
