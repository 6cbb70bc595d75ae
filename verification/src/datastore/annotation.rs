//! Comments and decisions that people attach to findings and matches.

use vstd::prelude::*;

use crate::blob_id::BlobId;
use crate::blob_metadata::clone_text;
use crate::datastore::status::Status;
use crate::match_type::Groups;

verus! {

/// A comment on a finding as a whole.
#[derive(Debug, PartialEq, Eq)]
pub struct FindingAnnotation {
    /// The finding that the comment is about.
    pub finding_id: String,
    pub rule_name: String,
    pub rule_text_id: String,
    pub rule_structural_id: String,
    pub groups: Groups,
    pub comment: String,
}

/// What a finding annotation holds.
pub struct FindingAnnotationModel {
    pub finding_id: Seq<char>,
    pub rule_name: Seq<char>,
    pub rule_text_id: Seq<char>,
    pub rule_structural_id: Seq<char>,
    pub groups: Seq<Seq<u8>>,
    pub comment: Seq<char>,
}

impl View for FindingAnnotation {
    type V = FindingAnnotationModel;

    open spec fn view(&self) -> FindingAnnotationModel {
        FindingAnnotationModel {
            finding_id: self.finding_id@,
            rule_name: self.rule_name@,
            rule_text_id: self.rule_text_id@,
            rule_structural_id: self.rule_structural_id@,
            groups: self.groups@,
            comment: self.comment@,
        }
    }
}

impl DeepView for FindingAnnotation {
    type V = FindingAnnotationModel;

    open spec fn deep_view(&self) -> FindingAnnotationModel {
        self@
    }
}

impl Clone for FindingAnnotation {
    fn clone(&self) -> (copy: FindingAnnotation)
        ensures
            copy@ == self@,
    {
        FindingAnnotation {
            finding_id: self.finding_id.clone(),
            rule_name: self.rule_name.clone(),
            rule_text_id: self.rule_text_id.clone(),
            rule_structural_id: self.rule_structural_id.clone(),
            groups: self.groups.clone(),
            comment: self.comment.clone(),
        }
    }
}

/// A comment on one match, a decision on it, or both.
#[derive(Debug, PartialEq, Eq)]
pub struct MatchAnnotation {
    pub finding_id: String,
    pub rule_name: String,
    pub rule_text_id: String,
    pub rule_structural_id: String,
    /// The structural identifier of the match that the annotation is about.
    pub match_id: String,
    pub blob_id: BlobId,
    pub start_byte: usize,
    pub end_byte: usize,
    pub groups: Groups,
    pub status: Option<Status>,
    pub comment: Option<String>,
}

/// What a match annotation holds.
pub struct MatchAnnotationModel {
    pub finding_id: Seq<char>,
    pub rule_name: Seq<char>,
    pub rule_text_id: Seq<char>,
    pub rule_structural_id: Seq<char>,
    pub match_id: Seq<char>,
    pub blob_id: Seq<u8>,
    pub start_byte: usize,
    pub end_byte: usize,
    pub groups: Seq<Seq<u8>>,
    pub status: Option<Status>,
    pub comment: Option<Seq<char>>,
}

impl View for MatchAnnotation {
    type V = MatchAnnotationModel;

    open spec fn view(&self) -> MatchAnnotationModel {
        MatchAnnotationModel {
            finding_id: self.finding_id@,
            rule_name: self.rule_name@,
            rule_text_id: self.rule_text_id@,
            rule_structural_id: self.rule_structural_id@,
            match_id: self.match_id@,
            blob_id: self.blob_id@,
            start_byte: self.start_byte,
            end_byte: self.end_byte,
            groups: self.groups@,
            status: self.status,
            comment: self.comment.deep_view(),
        }
    }
}

impl DeepView for MatchAnnotation {
    type V = MatchAnnotationModel;

    open spec fn deep_view(&self) -> MatchAnnotationModel {
        self@
    }
}

impl Clone for MatchAnnotation {
    fn clone(&self) -> (copy: MatchAnnotation)
        ensures
            copy@ == self@,
    {
        MatchAnnotation {
            finding_id: self.finding_id.clone(),
            rule_name: self.rule_name.clone(),
            rule_text_id: self.rule_text_id.clone(),
            rule_structural_id: self.rule_structural_id.clone(),
            match_id: self.match_id.clone(),
            blob_id: self.blob_id,
            start_byte: self.start_byte,
            end_byte: self.end_byte,
            groups: self.groups.clone(),
            status: self.status,
            comment: clone_text(&self.comment),
        }
    }
}

/// Annotations of both kinds: what is handed over when annotations are
/// brought in or given out.
#[derive(Debug, PartialEq, Eq)]
pub struct Annotations {
    pub match_annotations: Vec<MatchAnnotation>,
    pub finding_annotations: Vec<FindingAnnotation>,
}

/// What a set of annotations holds.
pub struct AnnotationsModel {
    pub match_annotations: Seq<MatchAnnotationModel>,
    pub finding_annotations: Seq<FindingAnnotationModel>,
}

impl View for Annotations {
    type V = AnnotationsModel;

    open spec fn view(&self) -> AnnotationsModel {
        AnnotationsModel {
            match_annotations: self.match_annotations.deep_view(),
            finding_annotations: self.finding_annotations.deep_view(),
        }
    }
}

impl DeepView for Annotations {
    type V = AnnotationsModel;

    open spec fn deep_view(&self) -> AnnotationsModel {
        self@
    }
}

impl Clone for Annotations {
    fn clone(&self) -> (copy: Annotations)
        ensures
            copy@ == self@,
    {
        let mut match_annotations: Vec<MatchAnnotation> = Vec::new();
        let mut i: usize = 0;
        while i < self.match_annotations.len()
            invariant
                i <= self.match_annotations.len(),
                match_annotations.len() == i,
                forall|k: int|
                    0 <= k < i ==> (#[trigger] match_annotations@[k])@
                        == self.match_annotations@[k]@,
            decreases self.match_annotations.len() - i,
        {
            match_annotations.push(self.match_annotations[i].clone());
            i += 1;
        }
        let mut finding_annotations: Vec<FindingAnnotation> = Vec::new();
        let mut j: usize = 0;
        while j < self.finding_annotations.len()
            invariant
                j <= self.finding_annotations.len(),
                finding_annotations.len() == j,
                forall|k: int|
                    0 <= k < j ==> (#[trigger] finding_annotations@[k])@
                        == self.finding_annotations@[k]@,
            decreases self.finding_annotations.len() - j,
        {
            finding_annotations.push(self.finding_annotations[j].clone());
            j += 1;
        }
        assert(match_annotations.deep_view() =~= self.match_annotations.deep_view());
        assert(finding_annotations.deep_view() =~= self.finding_annotations.deep_view());
        Annotations { match_annotations, finding_annotations }
    }
}

impl Annotations {
    /// No annotations.
    pub fn new() -> (empty: Annotations)
        ensures
            empty@.match_annotations.len() == 0,
            empty@.finding_annotations.len() == 0,
    {
        Annotations { match_annotations: Vec::new(), finding_annotations: Vec::new() }
    }
}

} // verus!
