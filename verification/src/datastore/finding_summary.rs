//! Per-rule totals over the stored findings.

use vstd::prelude::*;

use crate::datastore::error::DatastoreError;
use crate::datastore::finding::{Finding, FindingModel};
use crate::sequences::{distinct, lemma_distinct};

verus! {

/// The totals of one rule's findings.
#[derive(Debug, PartialEq, Eq)]
pub struct FindingSummaryEntry {
    pub rule_name: String,
    /// The number of the rule's findings.
    pub distinct_count: usize,
    /// The number of matches in the rule's findings.
    pub total_count: usize,
    pub accept_count: usize,
    pub reject_count: usize,
    pub mixed_count: usize,
    pub unlabeled_count: usize,
}

/// The totals of one rule's findings, without a bound.
pub struct SummaryEntryModel {
    pub rule_name: Seq<char>,
    pub distinct_count: nat,
    pub total_count: nat,
    pub accept_count: nat,
    pub reject_count: nat,
    pub mixed_count: nat,
    pub unlabeled_count: nat,
}

impl View for FindingSummaryEntry {
    type V = SummaryEntryModel;

    open spec fn view(&self) -> SummaryEntryModel {
        SummaryEntryModel {
            rule_name: self.rule_name@,
            distinct_count: self.distinct_count as nat,
            total_count: self.total_count as nat,
            accept_count: self.accept_count as nat,
            reject_count: self.reject_count as nat,
            mixed_count: self.mixed_count as nat,
            unlabeled_count: self.unlabeled_count as nat,
        }
    }
}

impl DeepView for FindingSummaryEntry {
    type V = SummaryEntryModel;

    open spec fn deep_view(&self) -> SummaryEntryModel {
        self@
    }
}

impl Clone for FindingSummaryEntry {
    fn clone(&self) -> (copy: FindingSummaryEntry)
        ensures
            copy@ == self@,
    {
        FindingSummaryEntry {
            rule_name: self.rule_name.clone(),
            distinct_count: self.distinct_count,
            total_count: self.total_count,
            accept_count: self.accept_count,
            reject_count: self.reject_count,
            mixed_count: self.mixed_count,
            unlabeled_count: self.unlabeled_count,
        }
    }
}

/// The totals of all rules that have a finding, one entry per rule.
#[derive(Debug, PartialEq, Eq)]
pub struct FindingSummary(pub Vec<FindingSummaryEntry>);

impl View for FindingSummary {
    type V = Seq<SummaryEntryModel>;

    open spec fn view(&self) -> Seq<SummaryEntryModel> {
        self.0.deep_view()
    }
}

impl DeepView for FindingSummary {
    type V = Seq<SummaryEntryModel>;

    open spec fn deep_view(&self) -> Seq<SummaryEntryModel> {
        self.0.deep_view()
    }
}

/// The rule names of findings, in their order.
pub open spec fn rule_names(findings: Seq<FindingModel>) -> Seq<Seq<char>> {
    findings.map_values(|f: FindingModel| f.rule_name)
}

/// The property of belonging to the rule named `name`.
pub open spec fn of_rule(name: Seq<char>) -> spec_fn(FindingModel) -> bool {
    |f: FindingModel| f.rule_name == name
}

/// The findings of the rule named `name`, in their order.
pub open spec fn findings_of_rule(findings: Seq<FindingModel>, name: Seq<char>) -> Seq<FindingModel> {
    findings.filter(of_rule(name))
}

/// The sum of the counts of matches of findings.
pub open spec fn sum_count(findings: Seq<FindingModel>) -> nat
    decreases findings.len(),
{
    if findings.len() == 0 {
        0
    } else {
        sum_count(findings.drop_last()) + findings.last().count
    }
}

/// The sum of the counts of accepted matches of findings.
pub open spec fn sum_accept(findings: Seq<FindingModel>) -> nat
    decreases findings.len(),
{
    if findings.len() == 0 {
        0
    } else {
        sum_accept(findings.drop_last()) + findings.last().accept_count
    }
}

/// The sum of the counts of rejected matches of findings.
pub open spec fn sum_reject(findings: Seq<FindingModel>) -> nat
    decreases findings.len(),
{
    if findings.len() == 0 {
        0
    } else {
        sum_reject(findings.drop_last()) + findings.last().reject_count
    }
}

/// The sum of the counts of mixed matches of findings.
pub open spec fn sum_mixed(findings: Seq<FindingModel>) -> nat
    decreases findings.len(),
{
    if findings.len() == 0 {
        0
    } else {
        sum_mixed(findings.drop_last()) + findings.last().mixed_count
    }
}

/// The sum of the counts of unlabeled matches of findings.
pub open spec fn sum_unlabeled(findings: Seq<FindingModel>) -> nat
    decreases findings.len(),
{
    if findings.len() == 0 {
        0
    } else {
        sum_unlabeled(findings.drop_last()) + findings.last().unlabeled_count
    }
}

/// The entry of the rule named `name`: the number of its findings, and the
/// sums of their counts.
pub open spec fn entry_of_rule(findings: Seq<FindingModel>, name: Seq<char>) -> SummaryEntryModel {
    let own = findings_of_rule(findings, name);
    SummaryEntryModel {
        rule_name: name,
        distinct_count: own.len(),
        total_count: sum_count(own),
        accept_count: sum_accept(own),
        reject_count: sum_reject(own),
        mixed_count: sum_mixed(own),
        unlabeled_count: sum_unlabeled(own),
    }
}

/// The property of summing up the findings of a rule.
pub open spec fn sums_up(findings: Seq<FindingModel>) -> spec_fn(Seq<char>) -> SummaryEntryModel {
    |name: Seq<char>| entry_of_rule(findings, name)
}

/// The summary of findings: one entry for each rule name, in the order in
/// which the names first occur.
pub open spec fn summary_of(findings: Seq<FindingModel>) -> Seq<SummaryEntryModel> {
    distinct(rule_names(findings)).map_values(sums_up(findings))
}

/// Whether every count of an entry can be held in a `usize`.
pub open spec fn entry_fits(entry: SummaryEntryModel) -> bool {
    &&& entry.distinct_count <= usize::MAX
    &&& entry.total_count <= usize::MAX
    &&& entry.accept_count <= usize::MAX
    &&& entry.reject_count <= usize::MAX
    &&& entry.mixed_count <= usize::MAX
    &&& entry.unlabeled_count <= usize::MAX
}

/// Whether every count of the summary of findings can be held in a `usize`.
pub open spec fn summary_fits(findings: Seq<FindingModel>) -> bool {
    forall|j: int|
        0 <= j < summary_of(findings).len() ==> entry_fits(#[trigger] summary_of(findings)[j])
}

/// The entry with one more finding counted.
pub open spec fn with_finding(entry: SummaryEntryModel, f: FindingModel) -> SummaryEntryModel {
    SummaryEntryModel {
        rule_name: entry.rule_name,
        distinct_count: entry.distinct_count + 1,
        total_count: entry.total_count + f.count,
        accept_count: entry.accept_count + f.accept_count,
        reject_count: entry.reject_count + f.reject_count,
        mixed_count: entry.mixed_count + f.mixed_count,
        unlabeled_count: entry.unlabeled_count + f.unlabeled_count,
    }
}

/// The entry of a rule of which `f` is the only finding.
pub open spec fn first_entry(f: FindingModel) -> SummaryEntryModel {
    SummaryEntryModel {
        rule_name: f.rule_name,
        distinct_count: 1,
        total_count: f.count,
        accept_count: f.accept_count,
        reject_count: f.reject_count,
        mixed_count: f.mixed_count,
        unlabeled_count: f.unlabeled_count,
    }
}

/// How the entry of a rule changes when one more finding is counted.
pub proof fn lemma_entry_push(findings: Seq<FindingModel>, f: FindingModel, name: Seq<char>)
    ensures
        entry_of_rule(findings.push(f), name) == (if f.rule_name == name {
            with_finding(entry_of_rule(findings, name), f)
        } else {
            entry_of_rule(findings, name)
        }),
{
    reveal(Seq::filter);
    let own = findings_of_rule(findings, name);
    assert(findings.push(f).drop_last() =~= findings);
    assert(of_rule(name)(f) == (f.rule_name == name));
    if f.rule_name == name {
        assert(findings_of_rule(findings.push(f), name) == own.push(f));
        assert(own.push(f).drop_last() =~= own);
    }
}

/// A rule that has no finding has an entry of zeros.
pub proof fn lemma_entry_of_absent_rule(findings: Seq<FindingModel>, name: Seq<char>)
    requires
        !rule_names(findings).contains(name),
    ensures
        findings_of_rule(findings, name).len() == 0,
{
    let own = findings_of_rule(findings, name);
    if own.len() > 0 {
        findings.lemma_filter_pred(of_rule(name), 0);
        findings.lemma_filter_contains_rev(of_rule(name), own[0]);
        let i = choose|i: int| 0 <= i < findings.len() && findings[i] == own[0];
        assert(rule_names(findings)[i] == name);
    }
}

/// How the summary changes when one more finding is counted: where its
/// rule is new, an entry for it is appended; otherwise the entry of its rule
/// counts it, and every other entry stays as it is.
pub proof fn lemma_summary_push(findings: Seq<FindingModel>, f: FindingModel)
    ensures
        summary_of(findings).len() == distinct(rule_names(findings)).len(),
        !distinct(rule_names(findings)).contains(f.rule_name) ==> summary_of(findings.push(f))
            == summary_of(findings).push(first_entry(f)),
        forall|j: int|
            0 <= j < distinct(rule_names(findings)).len() && #[trigger] distinct(
                rule_names(findings),
            )[j] == f.rule_name ==> summary_of(findings.push(f)) == summary_of(findings).update(
                j,
                with_finding(summary_of(findings)[j], f),
            ),
{
    let names = rule_names(findings);
    let d = distinct(names);
    let more = findings.push(f);
    let s = summary_of(findings);
    lemma_distinct(names);
    assert(rule_names(more) =~= names.push(f.rule_name));
    assert(names.push(f.rule_name).drop_last() =~= names);
    assert forall|name: Seq<char>|
        entry_of_rule(more, name) == (if f.rule_name == name {
            with_finding(entry_of_rule(findings, name), f)
        } else {
            entry_of_rule(findings, name)
        }) by {
        lemma_entry_push(findings, f, name);
    }
    if d.contains(f.rule_name) {
        assert(distinct(rule_names(more)) == d);
        assert forall|j: int| 0 <= j < d.len() && #[trigger] d[j] == f.rule_name implies summary_of(
            more,
        ) == s.update(j, with_finding(s[j], f)) by {
            assert forall|i: int| 0 <= i < d.len() implies #[trigger] summary_of(more)[i]
                == s.update(j, with_finding(s[j], f))[i] by {
                if i != j {
                    assert(d[i] != f.rule_name);
                }
            }
            assert(summary_of(more) =~= s.update(j, with_finding(s[j], f)));
        }
    } else {
        assert(distinct(rule_names(more)) == d.push(f.rule_name));
        assert(!names.contains(f.rule_name));
        lemma_entry_of_absent_rule(findings, f.rule_name);
        assert(findings_of_rule(findings, f.rule_name) =~= Seq::<FindingModel>::empty());
        assert(entry_of_rule(more, f.rule_name) == first_entry(f));
        assert forall|i: int| 0 <= i < d.len() implies #[trigger] summary_of(more)[i] == s[i] by {
            assert(d.contains(d[i]));
        }
        assert(summary_of(more) =~= s.push(first_entry(f)));
    }
}

/// In the summary, the entry of a rule counts exactly the findings of that
/// rule: `distinct_count` is their number and `total_count` is the sum of
/// their counts. Every rule that has a finding has one entry, and no rule
/// has two.
pub proof fn lemma_summary_is_additive(findings: Seq<FindingModel>)
    ensures
        distinct(rule_names(findings)).no_duplicates(),
        summary_of(findings).len() == distinct(rule_names(findings)).len(),
        forall|i: int|
            0 <= i < findings.len() ==> distinct(rule_names(findings)).contains(
                #[trigger] findings[i].rule_name,
            ),
        forall|j: int|
            0 <= j < summary_of(findings).len() ==> {
                let entry = #[trigger] summary_of(findings)[j];
                let own = findings_of_rule(findings, entry.rule_name);
                &&& entry.rule_name == distinct(rule_names(findings))[j]
                &&& entry.distinct_count == own.len()
                &&& entry.distinct_count > 0
                &&& entry.total_count == sum_count(own)
                &&& entry.accept_count == sum_accept(own)
                &&& entry.reject_count == sum_reject(own)
                &&& entry.mixed_count == sum_mixed(own)
                &&& entry.unlabeled_count == sum_unlabeled(own)
            },
{
    let names = rule_names(findings);
    let d = distinct(names);
    lemma_distinct(names);
    assert forall|i: int| 0 <= i < findings.len() implies d.contains(
        #[trigger] findings[i].rule_name,
    ) by {
        assert(names[i] == findings[i].rule_name);
        assert(names.contains(findings[i].rule_name));
    }
    assert forall|j: int| 0 <= j < summary_of(findings).len() implies (#[trigger] summary_of(
        findings,
    )[j]).distinct_count > 0 by {
        assert(d.contains(d[j]));
        assert(names.contains(d[j]));
        let i = choose|i: int| 0 <= i < names.len() && names[i] == d[j];
        assert(of_rule(d[j])(findings[i]));
        findings.lemma_filter_contains(of_rule(d[j]), i);
    }
}

/// The counts of a rule never shrink when more findings are counted.
pub proof fn lemma_entry_grows(findings: Seq<FindingModel>, k: int, name: Seq<char>)
    requires
        0 <= k <= findings.len(),
    ensures
        entry_of_rule(findings.take(k), name).distinct_count <= entry_of_rule(
            findings,
            name,
        ).distinct_count,
        entry_of_rule(findings.take(k), name).total_count <= entry_of_rule(
            findings,
            name,
        ).total_count,
        entry_of_rule(findings.take(k), name).accept_count <= entry_of_rule(
            findings,
            name,
        ).accept_count,
        entry_of_rule(findings.take(k), name).reject_count <= entry_of_rule(
            findings,
            name,
        ).reject_count,
        entry_of_rule(findings.take(k), name).mixed_count <= entry_of_rule(
            findings,
            name,
        ).mixed_count,
        entry_of_rule(findings.take(k), name).unlabeled_count <= entry_of_rule(
            findings,
            name,
        ).unlabeled_count,
    decreases findings.len() - k,
{
    if k == findings.len() {
        assert(findings.take(k) =~= findings);
    } else {
        lemma_entry_grows(findings, k + 1, name);
        assert(findings.take(k + 1) =~= findings.take(k).push(findings[k]));
        lemma_entry_push(findings.take(k), findings[k], name);
    }
}

/// The sum of two counts, where it can be held in a `usize`.
fn add_counts(a: usize, b: usize) -> (sum: Option<usize>)
    ensures
        sum == (if a + b <= usize::MAX {
            Some((a + b) as usize)
        } else {
            None
        }),
{
    if a > usize::MAX - b {
        None
    } else {
        Some(a + b)
    }
}

/// The entry with one more finding counted, where every count can be held.
fn count_finding(entry: &FindingSummaryEntry, f: &Finding) -> (counted: Option<FindingSummaryEntry>)
    ensures
        counted is Some == entry_fits(with_finding(entry@, f@)),
        counted matches Some(e) ==> e@ == with_finding(entry@, f@),
{
    let distinct_count = add_counts(entry.distinct_count, 1);
    let total_count = add_counts(entry.total_count, f.count);
    let accept_count = add_counts(entry.accept_count, f.accept_count);
    let reject_count = add_counts(entry.reject_count, f.reject_count);
    let mixed_count = add_counts(entry.mixed_count, f.mixed_count);
    let unlabeled_count = add_counts(entry.unlabeled_count, f.unlabeled_count);
    match (distinct_count, total_count, accept_count, reject_count, mixed_count, unlabeled_count) {
        (Some(d), Some(t), Some(a), Some(r), Some(m), Some(u)) => Some(
            FindingSummaryEntry {
                rule_name: entry.rule_name.clone(),
                distinct_count: d,
                total_count: t,
                accept_count: a,
                reject_count: r,
                mixed_count: m,
                unlabeled_count: u,
            },
        ),
        _ => None,
    }
}

/// The place of the entry of the rule named `name`.
fn find_entry(entries: &Vec<FindingSummaryEntry>, name: &String) -> (found: Option<usize>)
    ensures
        match found {
            Some(j) => j < entries.len() && entries@[j as int].rule_name@ == name@,
            None => forall|j: int|
                0 <= j < entries.len() ==> (#[trigger] entries@[j]).rule_name@ != name@,
        },
{
    let mut j: usize = 0;
    while j < entries.len()
        invariant
            j <= entries.len(),
            forall|k: int| 0 <= k < j ==> (#[trigger] entries@[k]).rule_name@ != name@,
        decreases entries.len() - j,
    {
        if entries[j].rule_name == *name {
            return Some(j);
        }
        j += 1;
    }
    None
}

/// Sums up findings by rule: for each rule the number of its findings and
/// the sums of their counts, one entry per rule in the order in which the
/// rules first occur. Fails where a sum is more than a `usize` can hold, and
/// then names a rule of which that is so.
pub fn summarize(findings: &Vec<Finding>) -> (summary: Result<FindingSummary, DatastoreError>)
    ensures
        summary is Ok == summary_fits(findings.deep_view()),
        summary matches Ok(s) ==> s@ == summary_of(findings.deep_view()),
        summary matches Err(e) ==> e matches DatastoreError::CountOverflow { rule_name }
            && rule_names(findings.deep_view()).contains(rule_name@) && !entry_fits(
            entry_of_rule(findings.deep_view(), rule_name@),
        ),
{
    let ghost all = findings.deep_view();
    let mut entries: Vec<FindingSummaryEntry> = Vec::new();
    let mut i: usize = 0;
    assert(summary_of(all.take(0)) =~= Seq::<SummaryEntryModel>::empty()) by {
        assert(rule_names(all.take(0)) =~= Seq::<Seq<char>>::empty());
    }
    while i < findings.len()
        invariant
            i <= findings.len(),
            all == findings.deep_view(),
            entries.deep_view() == summary_of(all.take(i as int)),
        decreases findings.len() - i,
    {
        let f = &findings[i];
        let ghost seen = all.take(i as int);
        let ghost d = distinct(rule_names(seen));
        let ghost before = entries.deep_view();
        proof {
            assert(all[i as int] == f@);
            assert(all.take(i + 1) =~= seen.push(f@));
            lemma_summary_push(seen, f@);
            assert forall|j: int| 0 <= j < d.len() implies (#[trigger] before[j]).rule_name
                == d[j] && before[j] == entry_of_rule(seen, d[j]) by {
                assert(before[j] == summary_of(seen)[j]);
            }
        }
        match find_entry(&entries, &f.rule_name) {
            Some(j) => {
                proof {
                    assert(before[j as int] == entries@[j as int]@);
                    assert(d[j as int] == f@.rule_name);
                }
                match count_finding(&entries[j], f) {
                    Some(counted) => {
                        let ghost earlier = entries@;
                        entries[j] = counted;
                        proof {
                            assert forall|k: int| 0 <= k < before.len() implies #[trigger] entries.deep_view()[k]
                                == before.update(j as int, with_finding(before[j as int], f@))[k] by {
                                if k != j {
                                    assert(entries@[k] == earlier[k]);
                                }
                            }
                            assert(entries.deep_view() =~= before.update(
                                j as int,
                                with_finding(before[j as int], f@),
                            ));
                        }
                    },
                    None => {
                        proof {
                            let name = f@.rule_name;
                            lemma_entry_push(seen, f@, name);
                            lemma_entry_grows(all, i + 1, name);
                            assert(rule_names(all)[i as int] == name);
                            assert(rule_names(all).contains(name));
                            lemma_distinct(rule_names(all));
                            let whole = distinct(rule_names(all));
                            assert(whole.contains(name));
                            let jj = choose|jj: int| 0 <= jj < whole.len() && whole[jj] == name;
                            assert(summary_of(all)[jj] == entry_of_rule(all, name));
                        }
                        return Err(DatastoreError::CountOverflow { rule_name: f.rule_name.clone() });
                    },
                }
            },
            None => {
                proof {
                    if d.contains(f@.rule_name) {
                        let j = choose|j: int| 0 <= j < d.len() && d[j] == f@.rule_name;
                        assert(before[j] == entries@[j]@);
                    }
                }
                let fresh = FindingSummaryEntry {
                    rule_name: f.rule_name.clone(),
                    distinct_count: 1,
                    total_count: f.count,
                    accept_count: f.accept_count,
                    reject_count: f.reject_count,
                    mixed_count: f.mixed_count,
                    unlabeled_count: f.unlabeled_count,
                };
                entries.push(fresh);
                assert(entries.deep_view() =~= before.push(first_entry(f@)));
            },
        }
        i += 1;
    }
    proof {
        assert(all.take(i as int) =~= all);
        assert forall|j: int| 0 <= j < summary_of(all).len() implies entry_fits(
            #[trigger] summary_of(all)[j],
        ) by {
            assert(summary_of(all)[j] == entries@[j]@);
        }
    }
    Ok(FindingSummary(entries))
}

} // verus!
