//! Joining the stored annotations to findings: the decisions on a finding's
//! matches, its status counters, and its comment.

use vstd::prelude::*;

use crate::blob_metadata::clone_text;
use crate::datastore::annotation::{
    Annotations,
    AnnotationsModel,
    FindingAnnotation,
    FindingAnnotationModel,
    MatchAnnotation,
    MatchAnnotationModel,
};
use crate::datastore::finding::{counters_add_up, Finding, FindingModel};
use crate::datastore::merge::{
    find_finding_annotation,
    find_match_annotation,
    finding_key,
    has_key,
    match_key,
};
use crate::datastore::status::{Status, Statuses};
use crate::match_type::MatchModel;
use crate::sequences::first_index;

verus! {

/// The decision stored for a match: that of the first stored match
/// annotation under the match's identifier, if there is one and it has one.
pub open spec fn decision_on(annotations: Seq<MatchAnnotationModel>, match_id: Seq<char>) -> Option<
    Status,
> {
    match first_index(annotations, has_key(match_key(), match_id)) {
        Some(i) => annotations[i].status,
        None => None,
    }
}

/// The comment stored for a match: that of the first stored match
/// annotation under the match's identifier, if there is one and it has one.
pub open spec fn comment_on_match(
    annotations: Seq<MatchAnnotationModel>,
    match_id: Seq<char>,
) -> Option<Seq<char>> {
    match first_index(annotations, has_key(match_key(), match_id)) {
        Some(i) => annotations[i].comment,
        None => None,
    }
}

/// The comment stored for a finding: that of the first stored finding
/// annotation under the finding's identifier, if there is one.
pub open spec fn comment_on_finding(
    annotations: Seq<FindingAnnotationModel>,
    finding_id: Seq<char>,
) -> Option<Seq<char>> {
    match first_index(annotations, has_key(finding_key(), finding_id)) {
        Some(i) => Some(annotations[i].comment),
        None => None,
    }
}

/// The property of giving a match its stored decision.
pub open spec fn decides(annotations: Seq<MatchAnnotationModel>) -> spec_fn(MatchModel) -> Option<
    Status,
> {
    |m: MatchModel| decision_on(annotations, m.structural_id)
}

/// The stored decisions on matches, one for each match, in their order.
pub open spec fn decisions(annotations: Seq<MatchAnnotationModel>, matches: Seq<MatchModel>) -> Seq<
    Option<Status>,
> {
    matches.map_values(decides(annotations))
}

/// How many of the decisions are `label`.
pub open spec fn count_of(labels: Seq<Option<Status>>, label: Option<Status>) -> nat
    decreases labels.len(),
{
    if labels.len() == 0 {
        0
    } else {
        count_of(labels.drop_last(), label) + (if labels.last() == label {
            1nat
        } else {
            0nat
        })
    }
}

/// The decisions that were taken, in their order.
pub open spec fn decided(labels: Seq<Option<Status>>) -> Seq<Status>
    decreases labels.len(),
{
    if labels.len() == 0 {
        Seq::empty()
    } else {
        match labels.last() {
            Some(status) => decided(labels.drop_last()).push(status),
            None => decided(labels.drop_last()),
        }
    }
}

/// A finding with the stored annotations joined to it. Its count is the
/// number of its matches. Every match is counted once: an accepted one as
/// accepted, a rejected one as rejected, and one without a decision as mixed
/// where some match of the finding has a decision and as unlabeled where none
/// has. Its statuses are the decisions taken, and its comment is the stored one.
pub open spec fn relabelled(finding: FindingModel, annotations: AnnotationsModel) -> FindingModel {
    let labels = decisions(annotations.match_annotations, finding.matches);
    let accepted = count_of(labels, Some(Status::Accept));
    let rejected = count_of(labels, Some(Status::Reject));
    let undecided = count_of(labels, None);
    FindingModel {
        count: finding.matches.len(),
        accept_count: accepted,
        reject_count: rejected,
        mixed_count: if accepted + rejected > 0 {
            undecided
        } else {
            0
        },
        unlabeled_count: if accepted + rejected > 0 {
            0
        } else {
            undecided
        },
        comment: comment_on_finding(annotations.finding_annotations, finding.finding_id),
        statuses: Some(decided(labels)),
        ..finding
    }
}

/// The property of joining the stored annotations to a finding.
pub open spec fn relabels(annotations: AnnotationsModel) -> spec_fn(FindingModel) -> FindingModel {
    |f: FindingModel| relabelled(f, annotations)
}

/// Every decision is accepted, rejected or absent.
pub proof fn lemma_counts_cover(labels: Seq<Option<Status>>)
    ensures
        count_of(labels, Some(Status::Accept)) + count_of(labels, Some(Status::Reject)) + count_of(
            labels,
            None,
        ) == labels.len(),
        decided(labels).len() == count_of(labels, Some(Status::Accept)) + count_of(
            labels,
            Some(Status::Reject),
        ),
    decreases labels.len(),
{
    if labels.len() > 0 {
        lemma_counts_cover(labels.drop_last());
        match labels.last() {
            Some(Status::Accept) => {
                assert(labels.last() != Some(Status::Reject));
                assert(labels.last() != None::<Status>);
            },
            Some(Status::Reject) => {
                assert(labels.last() != Some(Status::Accept));
                assert(labels.last() != None::<Status>);
            },
            None => {
                assert(labels.last() != Some(Status::Accept));
                assert(labels.last() != Some(Status::Reject));
            },
        }
    }
}

/// With the annotations joined, the four status counters of a finding add
/// up to its count, whatever is stored.
pub proof fn lemma_relabelled_adds_up(finding: FindingModel, annotations: AnnotationsModel)
    ensures
        counters_add_up(relabelled(finding, annotations)),
{
    lemma_counts_cover(decisions(annotations.match_annotations, finding.matches));
}

/// The stored decision on a match.
pub fn decision_for(annotations: &Vec<MatchAnnotation>, match_id: &String) -> (status: Option<Status>)
    ensures
        status == decision_on(annotations.deep_view(), match_id@),
{
    match find_match_annotation(annotations, match_id) {
        Some(i) => annotations[i].status,
        None => None,
    }
}

/// The stored comment on a match.
pub fn comment_for_match(annotations: &Vec<MatchAnnotation>, match_id: &String) -> (comment: Option<
    String,
>)
    ensures
        comment.deep_view() == comment_on_match(annotations.deep_view(), match_id@),
{
    match find_match_annotation(annotations, match_id) {
        Some(i) => clone_text(&annotations[i].comment),
        None => None,
    }
}

/// The stored comment on a finding.
pub fn comment_for_finding(annotations: &Vec<FindingAnnotation>, finding_id: &String) -> (comment:
    Option<String>)
    ensures
        comment.deep_view() == comment_on_finding(annotations.deep_view(), finding_id@),
{
    match find_finding_annotation(annotations, finding_id) {
        Some(i) => Some(annotations[i].comment.clone()),
        None => None,
    }
}

/// Joins the stored annotations to a finding.
pub fn relabel(finding: &mut Finding, annotations: &Annotations)
    ensures
        final(finding)@ == relabelled(old(finding)@, annotations@),
{
    let ghost stored = annotations@.match_annotations;
    let ghost matches = finding.matches.deep_view();
    let ghost labels = decisions(stored, matches);
    let mut accepted: usize = 0;
    let mut rejected: usize = 0;
    let mut undecided: usize = 0;
    let mut statuses = Statuses::new();
    let n = finding.matches.len();
    let mut i: usize = 0;
    while i < n
        invariant
            i <= n,
            n == finding.matches.len(),
            matches == finding.matches.deep_view(),
            stored == annotations@.match_annotations,
            labels == decisions(stored, matches),
            accepted == count_of(labels.take(i as int), Some(Status::Accept)),
            rejected == count_of(labels.take(i as int), Some(Status::Reject)),
            undecided == count_of(labels.take(i as int), None),
            statuses@ == decided(labels.take(i as int)),
        decreases n - i,
    {
        proof {
            lemma_counts_cover(labels.take(i as int));
        }
        let label = decision_for(&annotations.match_annotations, &finding.matches[i].structural_id);
        match label {
            Some(Status::Accept) => {
                accepted = accepted + 1;
                statuses.push(Status::Accept);
            },
            Some(Status::Reject) => {
                rejected = rejected + 1;
                statuses.push(Status::Reject);
            },
            None => {
                undecided = undecided + 1;
            },
        }
        i += 1;
        proof {
            let now = labels.take(i as int);
            assert(now.drop_last() =~= labels.take(i - 1));
            assert(now.last() == labels[i - 1]);
            assert(labels[i - 1] == label);
        }
    }
    assert(labels.take(i as int) =~= labels);
    let touched = accepted > 0 || rejected > 0;
    finding.count = n;
    finding.accept_count = accepted;
    finding.reject_count = rejected;
    finding.mixed_count = if touched {
        undecided
    } else {
        0
    };
    finding.unlabeled_count = if touched {
        0
    } else {
        undecided
    };
    finding.comment = comment_for_finding(&annotations.finding_annotations, &finding.finding_id);
    finding.statuses = Some(statuses);
}

/// Joins the stored annotations to every finding.
pub fn relabel_all(findings: &mut Vec<Finding>, annotations: &Annotations)
    ensures
        final(findings).deep_view() == old(findings).deep_view().map_values(relabels(annotations@)),
{
    let ghost start = findings.deep_view();
    let n = findings.len();
    let mut i: usize = 0;
    while i < n
        invariant
            i <= n,
            n == findings.len(),
            start.len() == n,
            forall|k: int|
                0 <= k < i ==> (#[trigger] findings@[k])@ == relabelled(start[k], annotations@),
            forall|k: int| i <= k < n ==> (#[trigger] findings@[k])@ == start[k],
        decreases n - i,
    {
        let ghost earlier = findings@;
        relabel(&mut findings[i], annotations);
        assert(findings@ =~= earlier.update(i as int, findings@[i as int]));
        i += 1;
    }
    assert(findings.deep_view() =~= start.map_values(relabels(annotations@)));
}

} // verus!
