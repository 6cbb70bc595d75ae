//! Findings: the matches of one rule with the same groups, gathered, and the
//! stored records of matches and of blob provenance that they are built from.

use vstd::prelude::*;

use crate::blob_id::BlobId;
use crate::blob_metadata::{clone_text, BlobMetadata, BlobMetadataModel};
use crate::datastore::status::{Status, Statuses};
use crate::match_type::{Groups, Match, MatchModel};
use crate::target::{Target, TargetModel};

verus! {

/// A copy of a vector of matches.
pub fn clone_matches(matches: &Vec<Match>) -> (copy: Vec<Match>)
    ensures
        copy.deep_view() == matches.deep_view(),
{
    let mut copy: Vec<Match> = Vec::new();
    let mut i: usize = 0;
    while i < matches.len()
        invariant
            i <= matches.len(),
            copy.len() == i,
            forall|k: int| 0 <= k < i ==> (#[trigger] copy@[k])@ == matches@[k]@,
        decreases matches.len() - i,
    {
        copy.push(matches[i].clone());
        i += 1;
    }
    assert(copy.deep_view() =~= matches.deep_view());
    copy
}

/// A stored match: the match and the metadata of its blob. The blob is
/// that of the match: where the two identifiers differ, the one of the match
/// counts.
#[derive(Debug, PartialEq, Eq)]
pub struct MatchRecord {
    pub match_val: Match,
    pub blob_metadata: BlobMetadata,
}

/// What a stored match holds.
pub struct MatchRecordModel {
    pub match_val: MatchModel,
    pub blob_metadata: BlobMetadataModel,
}

impl View for MatchRecord {
    type V = MatchRecordModel;

    open spec fn view(&self) -> MatchRecordModel {
        MatchRecordModel { match_val: self.match_val@, blob_metadata: self.blob_metadata@ }
    }
}

impl DeepView for MatchRecord {
    type V = MatchRecordModel;

    open spec fn deep_view(&self) -> MatchRecordModel {
        self@
    }
}

impl Clone for MatchRecord {
    fn clone(&self) -> (copy: MatchRecord)
        ensures
            copy@ == self@,
    {
        MatchRecord { match_val: self.match_val.clone(), blob_metadata: self.blob_metadata.clone() }
    }
}

/// A stored statement that a blob was seen at a target.
#[derive(Debug, PartialEq, Eq)]
pub struct BlobTarget {
    pub blob_id: BlobId,
    pub target: Target,
}

/// What a stored provenance entry holds.
pub struct BlobTargetModel {
    pub blob_id: Seq<u8>,
    pub target: TargetModel,
}

impl View for BlobTarget {
    type V = BlobTargetModel;

    open spec fn view(&self) -> BlobTargetModel {
        BlobTargetModel { blob_id: self.blob_id@, target: self.target@ }
    }
}

impl DeepView for BlobTarget {
    type V = BlobTargetModel;

    open spec fn deep_view(&self) -> BlobTargetModel {
        self@
    }
}

/// A finding as it is stored.
///
/// The four status counters count the finding's matches: each match is
/// counted by exactly one of them. The descriptors at the end may be absent
/// from a stored finding.
#[derive(Debug, PartialEq, Eq)]
pub struct Finding {
    pub rule_name: String,
    pub rule_structural_id: String,
    pub finding_id: String,
    /// The number of matches gathered in the finding.
    pub count: usize,
    pub matches: Vec<Match>,
    /// Matches that were accepted.
    pub accept_count: usize,
    /// Matches that were rejected.
    pub reject_count: usize,
    /// Matches without a decision in a finding where some match has one.
    pub mixed_count: usize,
    /// Matches of a finding in which no match has a decision.
    pub unlabeled_count: usize,
    pub rule_text_id: Option<String>,
    pub groups: Option<Groups>,
    pub comment: Option<String>,
    pub statuses: Option<Statuses>,
}

/// What a stored finding holds.
pub struct FindingModel {
    pub rule_name: Seq<char>,
    pub rule_structural_id: Seq<char>,
    pub finding_id: Seq<char>,
    pub count: nat,
    pub matches: Seq<MatchModel>,
    pub accept_count: nat,
    pub reject_count: nat,
    pub mixed_count: nat,
    pub unlabeled_count: nat,
    pub rule_text_id: Option<Seq<char>>,
    pub groups: Option<Seq<Seq<u8>>>,
    pub comment: Option<Seq<char>>,
    pub statuses: Option<Seq<Status>>,
}

impl View for Finding {
    type V = FindingModel;

    open spec fn view(&self) -> FindingModel {
        FindingModel {
            rule_name: self.rule_name@,
            rule_structural_id: self.rule_structural_id@,
            finding_id: self.finding_id@,
            count: self.count as nat,
            matches: self.matches.deep_view(),
            accept_count: self.accept_count as nat,
            reject_count: self.reject_count as nat,
            mixed_count: self.mixed_count as nat,
            unlabeled_count: self.unlabeled_count as nat,
            rule_text_id: self.rule_text_id.deep_view(),
            groups: self.groups.deep_view(),
            comment: self.comment.deep_view(),
            statuses: self.statuses.deep_view(),
        }
    }
}

impl DeepView for Finding {
    type V = FindingModel;

    open spec fn deep_view(&self) -> FindingModel {
        self@
    }
}

impl Clone for Finding {
    fn clone(&self) -> (copy: Finding)
        ensures
            copy@ == self@,
    {
        Finding {
            rule_name: self.rule_name.clone(),
            rule_structural_id: self.rule_structural_id.clone(),
            finding_id: self.finding_id.clone(),
            count: self.count,
            matches: clone_matches(&self.matches),
            accept_count: self.accept_count,
            reject_count: self.reject_count,
            mixed_count: self.mixed_count,
            unlabeled_count: self.unlabeled_count,
            rule_text_id: clone_text(&self.rule_text_id),
            groups: match &self.groups {
                Some(g) => Some(g.clone()),
                None => None,
            },
            comment: clone_text(&self.comment),
            statuses: match &self.statuses {
                Some(s) => Some(s.clone()),
                None => None,
            },
        }
    }
}

/// Whether the four status counters of a finding add up to its count.
pub open spec fn counters_add_up(finding: FindingModel) -> bool {
    finding.count == finding.accept_count + finding.reject_count + finding.mixed_count
        + finding.unlabeled_count
}

} // verus!
