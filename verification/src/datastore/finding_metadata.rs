//! Descriptions of findings for listing them without their matches.

use vstd::prelude::*;

use crate::blob_metadata::clone_text;
use crate::datastore::finding::{Finding, FindingModel};
use crate::datastore::status::{Status, Statuses};
use crate::match_type::Groups;

verus! {

/// The description of a finding.
#[derive(Debug, PartialEq, Eq)]
pub struct FindingMetadata {
    pub finding_id: String,
    pub groups: Groups,
    pub rule_structural_id: String,
    pub rule_text_id: String,
    pub rule_name: String,
    /// The number of matches in the finding.
    pub num_matches: usize,
    /// The comment on the finding, if there is one.
    pub comment: Option<String>,
    /// The decisions taken on the finding's matches.
    pub statuses: Statuses,
}

/// What the description of a finding holds.
pub struct FindingMetadataModel {
    pub finding_id: Seq<char>,
    pub groups: Seq<Seq<u8>>,
    pub rule_structural_id: Seq<char>,
    pub rule_text_id: Seq<char>,
    pub rule_name: Seq<char>,
    pub num_matches: nat,
    pub comment: Option<Seq<char>>,
    pub statuses: Seq<Status>,
}

impl View for FindingMetadata {
    type V = FindingMetadataModel;

    open spec fn view(&self) -> FindingMetadataModel {
        FindingMetadataModel {
            finding_id: self.finding_id@,
            groups: self.groups@,
            rule_structural_id: self.rule_structural_id@,
            rule_text_id: self.rule_text_id@,
            rule_name: self.rule_name@,
            num_matches: self.num_matches as nat,
            comment: self.comment.deep_view(),
            statuses: self.statuses@,
        }
    }
}

impl DeepView for FindingMetadata {
    type V = FindingMetadataModel;

    open spec fn deep_view(&self) -> FindingMetadataModel {
        self@
    }
}

impl Clone for FindingMetadata {
    fn clone(&self) -> (copy: FindingMetadata)
        ensures
            copy@ == self@,
    {
        FindingMetadata {
            finding_id: self.finding_id.clone(),
            groups: self.groups.clone(),
            rule_structural_id: self.rule_structural_id.clone(),
            rule_text_id: self.rule_text_id.clone(),
            rule_name: self.rule_name.clone(),
            num_matches: self.num_matches,
            comment: clone_text(&self.comment),
            statuses: self.statuses.clone(),
        }
    }
}

/// The description of a stored finding; a descriptor that the stored
/// finding lacks is empty in the description.
pub open spec fn metadata_of(finding: FindingModel) -> FindingMetadataModel {
    FindingMetadataModel {
        finding_id: finding.finding_id,
        groups: match finding.groups {
            Some(groups) => groups,
            None => Seq::empty(),
        },
        rule_structural_id: finding.rule_structural_id,
        rule_text_id: match finding.rule_text_id {
            Some(id) => id,
            None => Seq::empty(),
        },
        rule_name: finding.rule_name,
        num_matches: finding.count,
        comment: finding.comment,
        statuses: match finding.statuses {
            Some(statuses) => statuses,
            None => Seq::empty(),
        },
    }
}

/// The property of describing a finding.
pub open spec fn describes() -> spec_fn(FindingModel) -> FindingMetadataModel {
    |f: FindingModel| metadata_of(f)
}

/// Describes one stored finding.
pub fn describe(finding: &Finding) -> (metadata: FindingMetadata)
    ensures
        metadata@ == metadata_of(finding@),
{
    FindingMetadata {
        finding_id: finding.finding_id.clone(),
        groups: match &finding.groups {
            Some(groups) => groups.clone(),
            None => Groups::new(),
        },
        rule_structural_id: finding.rule_structural_id.clone(),
        rule_text_id: match &finding.rule_text_id {
            Some(id) => id.clone(),
            None => String::new(),
        },
        rule_name: finding.rule_name.clone(),
        num_matches: finding.count,
        comment: clone_text(&finding.comment),
        statuses: match &finding.statuses {
            Some(statuses) => statuses.clone(),
            None => Statuses::new(),
        },
    }
}

/// Describes every stored finding, in their order.
pub fn describe_all(findings: &Vec<Finding>) -> (entries: Vec<FindingMetadata>)
    ensures
        entries.deep_view() == findings.deep_view().map_values(describes()),
{
    let mut entries: Vec<FindingMetadata> = Vec::new();
    let mut i: usize = 0;
    while i < findings.len()
        invariant
            i <= findings.len(),
            entries.len() == i,
            forall|k: int| 0 <= k < i ==> (#[trigger] entries@[k])@ == metadata_of(findings@[k]@),
        decreases findings.len() - i,
    {
        entries.push(describe(&findings[i]));
        i += 1;
    }
    assert(entries.deep_view() =~= findings.deep_view().map_values(describes()));
    entries
}

} // verus!
