//! Bringing annotations from elsewhere into the stored ones without losing
//! or overwriting what is stored.

use vstd::prelude::*;
use vstd::string::*;

use crate::datastore::annotation::{
    FindingAnnotation,
    FindingAnnotationModel,
    MatchAnnotation,
    MatchAnnotationModel,
};
use crate::sequences::{first_index, lemma_first_index_is, lemma_first_index_none};
use crate::text::{decimal_text, to_decimal};

verus! {

/// What became of one incoming annotation.
#[derive(Debug, Copy, Clone, PartialEq, Eq, Structural)]
pub enum MergeOutcome {
    /// Nothing was stored under its key: it was stored.
    Imported,
    /// The stored annotation under its key has the same comment: nothing changed.
    Existing,
    /// The stored annotation under its key has another comment: the stored
    /// one was kept and the incoming one dropped.
    Conflicting,
}

/// How many incoming annotations of one kind met each fate.
#[derive(Debug, Copy, Clone, PartialEq, Eq, Structural)]
pub struct MergeStats {
    pub n_imported: usize,
    pub n_conflicting: usize,
    pub n_existing: usize,
    pub n_missing: usize,
}

/// Counts of outcomes, without a bound.
pub struct MergeTally {
    pub imported: nat,
    pub conflicting: nat,
    pub existing: nat,
    pub missing: nat,
}

impl View for MergeStats {
    type V = MergeTally;

    open spec fn view(&self) -> MergeTally {
        MergeTally {
            imported: self.n_imported as nat,
            conflicting: self.n_conflicting as nat,
            existing: self.n_existing as nat,
            missing: self.n_missing as nat,
        }
    }
}

/// The tally before anything was merged.
pub open spec fn empty_tally() -> MergeTally {
    MergeTally { imported: 0, conflicting: 0, existing: 0, missing: 0 }
}

/// The tally with one more outcome counted.
pub open spec fn tally_after(tally: MergeTally, outcome: MergeOutcome) -> MergeTally {
    match outcome {
        MergeOutcome::Imported => MergeTally { imported: tally.imported + 1, ..tally },
        MergeOutcome::Existing => MergeTally { existing: tally.existing + 1, ..tally },
        MergeOutcome::Conflicting => MergeTally { conflicting: tally.conflicting + 1, ..tally },
    }
}

/// The number of outcomes that a tally counts.
pub open spec fn tally_total(tally: MergeTally) -> nat {
    tally.imported + tally.conflicting + tally.existing + tally.missing
}

/// The text of a line that reports a tally.
pub open spec fn tally_text(tally: MergeTally) -> Seq<char> {
    decimal_text(tally.existing) + " existing; "@ + decimal_text(tally.missing) + " missing; "@
        + decimal_text(tally.conflicting) + " conflicting; "@ + decimal_text(tally.imported)
        + " imported"@
}

impl MergeStats {
    /// No outcome counted yet.
    pub fn new() -> (stats: MergeStats)
        ensures
            stats@ == empty_tally(),
    {
        MergeStats { n_imported: 0, n_conflicting: 0, n_existing: 0, n_missing: 0 }
    }

    /// Counts one more outcome.
    pub fn record(&mut self, outcome: MergeOutcome)
        requires
            tally_total(old(self)@) < usize::MAX,
        ensures
            final(self)@ == tally_after(old(self)@, outcome),
    {
        match outcome {
            MergeOutcome::Imported => {
                self.n_imported = self.n_imported + 1;
            },
            MergeOutcome::Existing => {
                self.n_existing = self.n_existing + 1;
            },
            MergeOutcome::Conflicting => {
                self.n_conflicting = self.n_conflicting + 1;
            },
        }
    }

    /// The line that reports the counts: existing, missing, conflicting, imported.
    pub fn to_string(&self) -> (text: String)
        ensures
            text@ == tally_text(self@),
    {
        let mut text = to_decimal(self.n_existing);
        text.append(" existing; ");
        text.append(to_decimal(self.n_missing).as_str());
        text.append(" missing; ");
        text.append(to_decimal(self.n_conflicting).as_str());
        text.append(" conflicting; ");
        text.append(to_decimal(self.n_imported).as_str());
        text.append(" imported");
        text
    }
}

/// The property of being stored under the key `wanted`.
pub open spec fn has_key<T>(key: spec_fn(T) -> Seq<char>, wanted: Seq<char>) -> spec_fn(T) -> bool {
    |a: T| key(a) == wanted
}

/// What becomes of `incoming` beside the stored annotations: it is looked up
/// by its key, and where one is stored under that key the comments are held
/// against each other.
pub open spec fn outcome_of<T>(
    store: Seq<T>,
    incoming: T,
    key: spec_fn(T) -> Seq<char>,
    comment: spec_fn(T) -> Seq<char>,
) -> MergeOutcome {
    match first_index(store, has_key(key, key(incoming))) {
        None => MergeOutcome::Imported,
        Some(i) => if comment(store[i]) == comment(incoming) {
            MergeOutcome::Existing
        } else {
            MergeOutcome::Conflicting
        },
    }
}

/// The stored annotations after `incoming` was merged: it is appended where
/// nothing was stored under its key, and nothing changes otherwise.
pub open spec fn store_after<T>(
    store: Seq<T>,
    incoming: T,
    key: spec_fn(T) -> Seq<char>,
    comment: spec_fn(T) -> Seq<char>,
) -> Seq<T> {
    if outcome_of(store, incoming, key, comment) is Imported {
        store.push(incoming)
    } else {
        store
    }
}

/// The stored annotations after a batch was merged, one by one in its order.
pub open spec fn merged_store<T>(
    store: Seq<T>,
    batch: Seq<T>,
    key: spec_fn(T) -> Seq<char>,
    comment: spec_fn(T) -> Seq<char>,
) -> Seq<T>
    decreases batch.len(),
{
    if batch.len() == 0 {
        store
    } else {
        store_after(merged_store(store, batch.drop_last(), key, comment), batch.last(), key, comment)
    }
}

/// The outcomes of merging a batch, counted.
pub open spec fn merged_tally<T>(
    store: Seq<T>,
    batch: Seq<T>,
    key: spec_fn(T) -> Seq<char>,
    comment: spec_fn(T) -> Seq<char>,
) -> MergeTally
    decreases batch.len(),
{
    if batch.len() == 0 {
        empty_tally()
    } else {
        tally_after(
            merged_tally(store, batch.drop_last(), key, comment),
            outcome_of(
                merged_store(store, batch.drop_last(), key, comment),
                batch.last(),
                key,
                comment,
            ),
        )
    }
}

/// The key of a finding annotation: the finding's identifier.
pub open spec fn finding_key() -> spec_fn(FindingAnnotationModel) -> Seq<char> {
    |a: FindingAnnotationModel| a.finding_id
}

/// The comment of a finding annotation.
pub open spec fn finding_comment() -> spec_fn(FindingAnnotationModel) -> Seq<char> {
    |a: FindingAnnotationModel| a.comment
}

/// The key of a match annotation: the match's structural identifier.
pub open spec fn match_key() -> spec_fn(MatchAnnotationModel) -> Seq<char> {
    |a: MatchAnnotationModel| a.match_id
}

/// The comment of a match annotation; the empty text where it has none.
pub open spec fn match_comment() -> spec_fn(MatchAnnotationModel) -> Seq<char> {
    |a: MatchAnnotationModel|
        match a.comment {
            Some(c) => c,
            None => Seq::empty(),
        }
}

/// Merging never changes or removes what was stored: the stored annotations
/// stay, in their places, at the front of the result.
pub proof fn lemma_merge_keeps_store<T>(
    store: Seq<T>,
    batch: Seq<T>,
    key: spec_fn(T) -> Seq<char>,
    comment: spec_fn(T) -> Seq<char>,
)
    ensures
        merged_store(store, batch, key, comment).len() >= store.len(),
        merged_store(store, batch, key, comment).take(store.len() as int) == store,
    decreases batch.len(),
{
    if batch.len() == 0 {
        assert(store.take(store.len() as int) =~= store);
    } else {
        lemma_merge_keeps_store(store, batch.drop_last(), key, comment);
        let before = merged_store(store, batch.drop_last(), key, comment);
        let after = merged_store(store, batch, key, comment);
        assert(after.take(store.len() as int) =~= before.take(store.len() as int));
    }
}

/// Every incoming annotation is counted once, as imported, existing or
/// conflicting, and the store grows by the imported ones.
pub proof fn lemma_merge_counts_each<T>(
    store: Seq<T>,
    batch: Seq<T>,
    key: spec_fn(T) -> Seq<char>,
    comment: spec_fn(T) -> Seq<char>,
)
    ensures
        tally_total(merged_tally(store, batch, key, comment)) == batch.len(),
        merged_tally(store, batch, key, comment).missing == 0,
        merged_store(store, batch, key, comment).len() == store.len() + merged_tally(
            store,
            batch,
            key,
            comment,
        ).imported,
    decreases batch.len(),
{
    if batch.len() > 0 {
        lemma_merge_counts_each(store, batch.drop_last(), key, comment);
    }
}

/// An incoming annotation whose comment differs from the stored one under
/// the same key changes nothing and counts as conflicting, once.
pub proof fn lemma_conflict_keeps_stored<T>(
    store: Seq<T>,
    incoming: T,
    key: spec_fn(T) -> Seq<char>,
    comment: spec_fn(T) -> Seq<char>,
    i: int,
)
    requires
        0 <= i < store.len(),
        key(store[i]) == key(incoming),
        forall|j: int| 0 <= j < i ==> key(#[trigger] store[j]) != key(incoming),
        comment(store[i]) != comment(incoming),
    ensures
        merged_store(store, seq![incoming], key, comment) == store,
        merged_tally(store, seq![incoming], key, comment) == (MergeTally {
            imported: 0,
            conflicting: 1,
            existing: 0,
            missing: 0,
        }),
{
    let batch = seq![incoming];
    lemma_first_index_is(store, has_key(key, key(incoming)), i);
    assert(batch.drop_last() =~= Seq::<T>::empty());
    assert(merged_store(store, batch.drop_last(), key, comment) == store);
    assert(merged_tally(store, batch.drop_last(), key, comment) == empty_tally());
}

/// An incoming annotation with the same comment as the stored one under the
/// same key changes nothing and counts as existing, once.
pub proof fn lemma_duplicate_changes_nothing<T>(
    store: Seq<T>,
    incoming: T,
    key: spec_fn(T) -> Seq<char>,
    comment: spec_fn(T) -> Seq<char>,
    i: int,
)
    requires
        0 <= i < store.len(),
        key(store[i]) == key(incoming),
        forall|j: int| 0 <= j < i ==> key(#[trigger] store[j]) != key(incoming),
        comment(store[i]) == comment(incoming),
    ensures
        merged_store(store, seq![incoming], key, comment) == store,
        merged_tally(store, seq![incoming], key, comment) == (MergeTally {
            imported: 0,
            conflicting: 0,
            existing: 1,
            missing: 0,
        }),
{
    let batch = seq![incoming];
    lemma_first_index_is(store, has_key(key, key(incoming)), i);
    assert(batch.drop_last() =~= Seq::<T>::empty());
    assert(merged_store(store, batch.drop_last(), key, comment) == store);
    assert(merged_tally(store, batch.drop_last(), key, comment) == empty_tally());
}

/// An incoming annotation under a key that nothing is stored under is
/// appended and counts as imported, once.
pub proof fn lemma_new_key_is_imported<T>(
    store: Seq<T>,
    incoming: T,
    key: spec_fn(T) -> Seq<char>,
    comment: spec_fn(T) -> Seq<char>,
)
    requires
        forall|j: int| 0 <= j < store.len() ==> key(#[trigger] store[j]) != key(incoming),
    ensures
        merged_store(store, seq![incoming], key, comment) == store.push(incoming),
        merged_tally(store, seq![incoming], key, comment) == (MergeTally {
            imported: 1,
            conflicting: 0,
            existing: 0,
            missing: 0,
        }),
{
    let batch = seq![incoming];
    lemma_first_index_none(store, has_key(key, key(incoming)));
    assert(batch.drop_last() =~= Seq::<T>::empty());
    assert(merged_store(store, batch.drop_last(), key, comment) == store);
    assert(merged_tally(store, batch.drop_last(), key, comment) == empty_tally());
}

/// The place of the first stored finding annotation for a finding.
pub fn find_finding_annotation(store: &Vec<FindingAnnotation>, finding_id: &String) -> (found:
    Option<usize>)
    ensures
        match found {
            Some(i) => first_index(store.deep_view(), has_key(finding_key(), finding_id@)) == Some(
                i as int,
            ),
            None => first_index(store.deep_view(), has_key(finding_key(), finding_id@)) is None,
        },
        found matches Some(i) ==> i < store.len(),
{
    let mut i: usize = 0;
    while i < store.len()
        invariant
            i <= store.len(),
            forall|j: int| 0 <= j < i ==> (#[trigger] store@[j]).finding_id@ != finding_id@,
        decreases store.len() - i,
    {
        if store[i].finding_id == *finding_id {
            proof {
                let pred = has_key(finding_key(), finding_id@);
                assert forall|j: int| 0 <= j < i implies !pred(#[trigger] store.deep_view()[j]) by {
                    assert(store@[j].finding_id@ != finding_id@);
                }
                assert(pred(store.deep_view()[i as int]));
                lemma_first_index_is(store.deep_view(), pred, i as int);
            }
            return Some(i);
        }
        i += 1;
    }
    proof {
        let pred = has_key(finding_key(), finding_id@);
        assert forall|j: int| 0 <= j < store.len() implies !pred(
            #[trigger] store.deep_view()[j],
        ) by {
            assert(store@[j].finding_id@ != finding_id@);
        }
        lemma_first_index_none(store.deep_view(), pred);
    }
    None
}

/// The place of the first stored match annotation for a match.
pub fn find_match_annotation(store: &Vec<MatchAnnotation>, match_id: &String) -> (found: Option<
    usize,
>)
    ensures
        match found {
            Some(i) => first_index(store.deep_view(), has_key(match_key(), match_id@)) == Some(
                i as int,
            ),
            None => first_index(store.deep_view(), has_key(match_key(), match_id@)) is None,
        },
        found matches Some(i) ==> i < store.len(),
{
    let mut i: usize = 0;
    while i < store.len()
        invariant
            i <= store.len(),
            forall|j: int| 0 <= j < i ==> (#[trigger] store@[j]).match_id@ != match_id@,
        decreases store.len() - i,
    {
        if store[i].match_id == *match_id {
            proof {
                let pred = has_key(match_key(), match_id@);
                assert forall|j: int| 0 <= j < i implies !pred(#[trigger] store.deep_view()[j]) by {
                    assert(store@[j].match_id@ != match_id@);
                }
                assert(pred(store.deep_view()[i as int]));
                lemma_first_index_is(store.deep_view(), pred, i as int);
            }
            return Some(i);
        }
        i += 1;
    }
    proof {
        let pred = has_key(match_key(), match_id@);
        assert forall|j: int| 0 <= j < store.len() implies !pred(
            #[trigger] store.deep_view()[j],
        ) by {
            assert(store@[j].match_id@ != match_id@);
        }
        lemma_first_index_none(store.deep_view(), pred);
    }
    None
}

/// Merges one finding annotation into the stored ones.
pub fn import_finding_annotation(
    store: &mut Vec<FindingAnnotation>,
    incoming: &FindingAnnotation,
) -> (outcome: MergeOutcome)
    ensures
        outcome == outcome_of(
            old(store).deep_view(),
            incoming@,
            finding_key(),
            finding_comment(),
        ),
        final(store).deep_view() == store_after(
            old(store).deep_view(),
            incoming@,
            finding_key(),
            finding_comment(),
        ),
{
    match find_finding_annotation(store, &incoming.finding_id) {
        Some(i) => {
            if store[i].comment == incoming.comment {
                MergeOutcome::Existing
            } else {
                MergeOutcome::Conflicting
            }
        },
        None => {
            let ghost before = store.deep_view();
            store.push(incoming.clone());
            assert(store.deep_view() =~= before.push(incoming@));
            MergeOutcome::Imported
        },
    }
}

/// Whether two optional comments read the same, an absent one reading as
/// the empty text.
fn same_comment(a: &Option<String>, b: &Option<String>) -> (same: bool)
    ensures
        same == ((match a.deep_view() {
            Some(c) => c,
            None => Seq::empty(),
        }) == (match b.deep_view() {
            Some(c) => c,
            None => Seq::empty(),
        })),
{
    let left: &str = match a {
        Some(c) => c.as_str(),
        None => "",
    };
    let right: &str = match b {
        Some(c) => c.as_str(),
        None => "",
    };
    proof {
        reveal_strlit("");
        assert(""@ =~= Seq::<char>::empty());
    }
    crate::text::str_equal(left, right)
}

/// Merges one match annotation into the stored ones.
pub fn import_match_annotation(store: &mut Vec<MatchAnnotation>, incoming: &MatchAnnotation) -> (outcome:
    MergeOutcome)
    ensures
        outcome == outcome_of(old(store).deep_view(), incoming@, match_key(), match_comment()),
        final(store).deep_view() == store_after(
            old(store).deep_view(),
            incoming@,
            match_key(),
            match_comment(),
        ),
{
    match find_match_annotation(store, &incoming.match_id) {
        Some(i) => {
            if same_comment(&store[i].comment, &incoming.comment) {
                MergeOutcome::Existing
            } else {
                MergeOutcome::Conflicting
            }
        },
        None => {
            let ghost before = store.deep_view();
            store.push(incoming.clone());
            assert(store.deep_view() =~= before.push(incoming@));
            MergeOutcome::Imported
        },
    }
}

/// Merges a batch of finding annotations into the stored ones, in the
/// order of the batch, and counts the outcomes.
pub fn import_finding_annotations(
    store: &mut Vec<FindingAnnotation>,
    batch: &Vec<FindingAnnotation>,
) -> (stats: MergeStats)
    ensures
        final(store).deep_view() == merged_store(
            old(store).deep_view(),
            batch.deep_view(),
            finding_key(),
            finding_comment(),
        ),
        stats@ == merged_tally(
            old(store).deep_view(),
            batch.deep_view(),
            finding_key(),
            finding_comment(),
        ),
{
    let ghost start = store.deep_view();
    let ghost items = batch.deep_view();
    let mut stats = MergeStats::new();
    let mut i: usize = 0;
    while i < batch.len()
        invariant
            i <= batch.len(),
            items == batch.deep_view(),
            store.deep_view() == merged_store(
                start,
                items.take(i as int),
                finding_key(),
                finding_comment(),
            ),
            stats@ == merged_tally(start, items.take(i as int), finding_key(), finding_comment()),
        decreases batch.len() - i,
    {
        proof {
            lemma_merge_counts_each(start, items.take(i as int), finding_key(), finding_comment());
        }
        let outcome = import_finding_annotation(store, &batch[i]);
        stats.record(outcome);
        i += 1;
        proof {
            let now = items.take(i as int);
            assert(now.drop_last() =~= items.take(i - 1));
            assert(now.last() == items[i - 1]);
        }
    }
    assert(items.take(i as int) =~= items);
    stats
}

/// Merges a batch of match annotations into the stored ones, in the order
/// of the batch, and counts the outcomes.
pub fn import_match_annotations(store: &mut Vec<MatchAnnotation>, batch: &Vec<MatchAnnotation>) -> (stats:
    MergeStats)
    ensures
        final(store).deep_view() == merged_store(
            old(store).deep_view(),
            batch.deep_view(),
            match_key(),
            match_comment(),
        ),
        stats@ == merged_tally(
            old(store).deep_view(),
            batch.deep_view(),
            match_key(),
            match_comment(),
        ),
{
    let ghost start = store.deep_view();
    let ghost items = batch.deep_view();
    let mut stats = MergeStats::new();
    let mut i: usize = 0;
    while i < batch.len()
        invariant
            i <= batch.len(),
            items == batch.deep_view(),
            store.deep_view() == merged_store(
                start,
                items.take(i as int),
                match_key(),
                match_comment(),
            ),
            stats@ == merged_tally(start, items.take(i as int), match_key(), match_comment()),
        decreases batch.len() - i,
    {
        proof {
            lemma_merge_counts_each(start, items.take(i as int), match_key(), match_comment());
        }
        let outcome = import_match_annotation(store, &batch[i]);
        stats.record(outcome);
        i += 1;
        proof {
            let now = items.take(i as int);
            assert(now.drop_last() =~= items.take(i - 1));
            assert(now.last() == items[i - 1]);
        }
    }
    assert(items.take(i as int) =~= items);
    stats
}

} // verus!
