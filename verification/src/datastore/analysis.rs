//! Grouping matches into findings: one finding for each rule and each
//! sequence of groups, in the order in which they first occur.

use vstd::prelude::*;

use crate::datastore::finding::{counters_add_up, Finding, FindingModel, MatchRecord, MatchRecordModel};
use crate::match_type::{finding_id_of, Match, MatchModel};
use crate::sequences::{distinct, lemma_distinct};

verus! {

/// What decides which finding a match belongs to.
pub struct FindingKey {
    pub rule_name: Seq<char>,
    pub rule_structural_id: Seq<char>,
    pub finding_id: Seq<char>,
}

/// The grouping key of a match: the rule's name and structural identifier,
/// and the finding identifier computed from the rule and the groups.
pub open spec fn key_of(m: MatchModel) -> FindingKey {
    FindingKey {
        rule_name: m.rule_name,
        rule_structural_id: m.rule_structural_id,
        finding_id: finding_id_of(m.rule_structural_id, m.groups),
    }
}

/// The grouping keys of matches, in their order.
pub open spec fn keys_of(matches: Seq<MatchModel>) -> Seq<FindingKey> {
    matches.map_values(|m: MatchModel| key_of(m))
}

/// The property of having the grouping key `key`.
pub open spec fn has_finding_key(key: FindingKey) -> spec_fn(MatchModel) -> bool {
    |m: MatchModel| key_of(m) == key
}

/// The matches with the grouping key `key`, in their order.
pub open spec fn matches_with_key(matches: Seq<MatchModel>, key: FindingKey) -> Seq<MatchModel> {
    matches.filter(has_finding_key(key))
}

/// The finding that gathers the given matches under `key`: every match
/// counts as unlabeled, and the descriptors are those of the first match.
pub open spec fn finding_of(key: FindingKey, own: Seq<MatchModel>) -> FindingModel {
    FindingModel {
        rule_name: key.rule_name,
        rule_structural_id: key.rule_structural_id,
        finding_id: key.finding_id,
        count: own.len(),
        matches: own,
        accept_count: 0,
        reject_count: 0,
        mixed_count: 0,
        unlabeled_count: own.len(),
        rule_text_id: if own.len() > 0 {
            Some(own[0].rule_text_id)
        } else {
            None
        },
        groups: if own.len() > 0 {
            Some(own[0].groups)
        } else {
            None
        },
        comment: None,
        statuses: None,
    }
}

/// The property of gathering the matches of `matches` under a key.
pub open spec fn gathers(matches: Seq<MatchModel>) -> spec_fn(FindingKey) -> FindingModel {
    |key: FindingKey| finding_of(key, matches_with_key(matches, key))
}

/// The findings of a collection of matches: one for each grouping key, in
/// the order in which the keys first occur, each with all matches of its key.
pub open spec fn analyzed(matches: Seq<MatchModel>) -> Seq<FindingModel> {
    distinct(keys_of(matches)).map_values(gathers(matches))
}

/// The matches of stored records.
pub open spec fn matches_of(records: Seq<MatchRecordModel>) -> Seq<MatchModel> {
    records.map_values(|r: MatchRecordModel| r.match_val)
}

/// A key that occurs among the matches has at least one match, and a key
/// that does not occur has none.
pub proof fn lemma_matches_with_key(matches: Seq<MatchModel>, key: FindingKey)
    ensures
        keys_of(matches).contains(key) <==> matches_with_key(matches, key).len() > 0,
{
    let pred = has_finding_key(key);
    let own = matches.filter(pred);
    if keys_of(matches).contains(key) {
        let i = choose|i: int| 0 <= i < keys_of(matches).len() && keys_of(matches)[i] == key;
        assert(pred(matches[i]));
        matches.lemma_filter_contains(pred, i);
    }
    if own.len() > 0 {
        matches.lemma_filter_pred(pred, 0);
        matches.lemma_filter_contains_rev(pred, own[0]);
        let i = choose|i: int| 0 <= i < matches.len() && matches[i] == own[0];
        assert(keys_of(matches)[i] == key);
    }
}

/// The finding that gathers one more match of its key.
pub open spec fn grown(finding: FindingModel, m: MatchModel) -> FindingModel {
    FindingModel {
        count: finding.count + 1,
        matches: finding.matches.push(m),
        unlabeled_count: finding.unlabeled_count + 1,
        ..finding
    }
}

/// How the findings change when one more match is analysed: where its key
/// is new, a finding with that one match is appended; otherwise the finding
/// of its key gathers it, and every other finding stays as it is.
pub proof fn lemma_analyzed_push(matches: Seq<MatchModel>, m: MatchModel)
    ensures
        analyzed(matches).len() == distinct(keys_of(matches)).len(),
        !distinct(keys_of(matches)).contains(key_of(m)) ==> analyzed(matches.push(m))
            == analyzed(matches).push(finding_of(key_of(m), seq![m])),
        forall|j: int|
            0 <= j < distinct(keys_of(matches)).len() && #[trigger] distinct(keys_of(matches))[j]
                == key_of(m) ==> analyzed(matches.push(m)) == analyzed(matches).update(
                j,
                grown(analyzed(matches)[j], m),
            ),
{
    let k = key_of(m);
    let keys = keys_of(matches);
    let d = distinct(keys);
    let more = matches.push(m);
    let fs = analyzed(matches);
    lemma_distinct(keys);
    assert(keys_of(more) =~= keys.push(k));
    assert(keys.push(k).drop_last() =~= keys);
    assert(more.drop_last() =~= matches);
    reveal(Seq::filter);
    assert forall|key: FindingKey|
        matches_with_key(more, key) == (if key == k {
            matches_with_key(matches, key).push(m)
        } else {
            matches_with_key(matches, key)
        }) by {
        assert(has_finding_key(key)(m) == (key == k));
    }
    if d.contains(k) {
        assert(distinct(keys_of(more)) == d);
        assert forall|j: int| 0 <= j < d.len() && #[trigger] d[j] == k implies analyzed(more)
            == fs.update(j, grown(fs[j], m)) by {
            assert forall|i: int| 0 <= i < d.len() implies #[trigger] analyzed(more)[i] == fs.update(
                j,
                grown(fs[j], m),
            )[i] by {
                assert(d.contains(d[i]));
                lemma_matches_with_key(matches, d[i]);
                if i != j {
                    assert(d[i] != k);
                } else {
                    let own = matches_with_key(matches, k);
                    assert(own.push(m)[0] == own[0]);
                    assert(grown(fs[j], m) =~= finding_of(k, own.push(m)));
                }
            }
            assert(analyzed(more) =~= fs.update(j, grown(fs[j], m)));
        }
    } else {
        assert(distinct(keys_of(more)) == d.push(k));
        lemma_matches_with_key(matches, k);
        assert(matches_with_key(matches, k) =~= Seq::<MatchModel>::empty());
        assert(matches_with_key(more, k) =~= seq![m]);
        assert forall|i: int| 0 <= i < d.len() implies #[trigger] analyzed(more)[i] == fs[i] by {
            assert(d.contains(d[i]));
        }
        assert(analyzed(more) =~= fs.push(finding_of(k, seq![m])));
    }
}

/// In the findings of a collection of matches, no two findings have the
/// same key, every match is in the finding of its key, every finding is
/// made of exactly the matches of its key, and the counters of every finding
/// add up to its count.
pub proof fn lemma_analyzed_groups(matches: Seq<MatchModel>)
    ensures
        distinct(keys_of(matches)).no_duplicates(),
        analyzed(matches).len() == distinct(keys_of(matches)).len(),
        forall|i: int|
            0 <= i < matches.len() ==> distinct(keys_of(matches)).contains(
                #[trigger] key_of(matches[i]),
            ),
        forall|j: int|
            0 <= j < analyzed(matches).len() ==> {
                let f = #[trigger] analyzed(matches)[j];
                let k = distinct(keys_of(matches))[j];
                &&& f.matches == matches_with_key(matches, k)
                &&& f.matches.len() > 0
                &&& f.count == f.matches.len()
                &&& counters_add_up(f)
            },
{
    let keys = keys_of(matches);
    let d = distinct(keys);
    lemma_distinct(keys);
    assert forall|i: int| 0 <= i < matches.len() implies d.contains(
        #[trigger] key_of(matches[i]),
    ) by {
        assert(keys[i] == key_of(matches[i]));
        assert(keys.contains(key_of(matches[i])));
    }
    assert forall|j: int| 0 <= j < analyzed(matches).len() implies {
        let f = #[trigger] analyzed(matches)[j];
        let k = d[j];
        &&& f.matches == matches_with_key(matches, k)
        &&& f.matches.len() > 0
        &&& f.count == f.matches.len()
        &&& counters_add_up(f)
    } by {
        assert(d.contains(d[j]));
        lemma_matches_with_key(matches, d[j]);
    }
}

/// The place of the finding with the grouping key of a match, whose
/// finding identifier is handed in.
fn find_finding(findings: &Vec<Finding>, m: &Match, finding_id: &String) -> (found: Option<usize>)
    ensures
        match found {
            Some(j) => j < findings.len() && findings@[j as int].rule_name@ == m.rule_name@
                && findings@[j as int].rule_structural_id@ == m.rule_structural_id@
                && findings@[j as int].finding_id@ == finding_id@,
            None => forall|j: int|
                0 <= j < findings.len() ==> !((#[trigger] findings@[j]).rule_name@ == m.rule_name@
                    && findings@[j].rule_structural_id@ == m.rule_structural_id@
                    && findings@[j].finding_id@ == finding_id@),
        },
{
    let mut j: usize = 0;
    while j < findings.len()
        invariant
            j <= findings.len(),
            forall|k: int|
                0 <= k < j ==> !((#[trigger] findings@[k]).rule_name@ == m.rule_name@
                    && findings@[k].rule_structural_id@ == m.rule_structural_id@
                    && findings@[k].finding_id@ == finding_id@),
        decreases findings.len() - j,
    {
        let f = &findings[j];
        if f.rule_name == m.rule_name && f.rule_structural_id == m.rule_structural_id
            && f.finding_id == *finding_id {
            return Some(j);
        }
        j += 1;
    }
    None
}

/// Adds a match to a finding, as one more match without a decision.
fn gather(finding: &mut Finding, m: Match)
    requires
        old(finding).count < usize::MAX,
        old(finding).unlabeled_count < usize::MAX,
    ensures
        final(finding)@ == grown(old(finding)@, m@),
{
    let ghost before = finding.matches.deep_view();
    finding.matches.push(m);
    finding.count = finding.count + 1;
    finding.unlabeled_count = finding.unlabeled_count + 1;
    assert(finding.matches.deep_view() =~= before.push(m@));
}

/// Groups stored matches into findings: one finding for each grouping key,
/// in the order in which the keys first occur, each with all matches of its key.
pub fn group_matches(records: &Vec<MatchRecord>) -> (findings: Vec<Finding>)
    ensures
        findings.deep_view() == analyzed(matches_of(records.deep_view())),
{
    let ghost all = matches_of(records.deep_view());
    let mut findings: Vec<Finding> = Vec::new();
    let mut i: usize = 0;
    assert(analyzed(all.take(0)) =~= Seq::<FindingModel>::empty()) by {
        assert(keys_of(all.take(0)) =~= Seq::<FindingKey>::empty());
    }
    while i < records.len()
        invariant
            i <= records.len(),
            all == matches_of(records.deep_view()),
            findings.deep_view() == analyzed(all.take(i as int)),
        decreases records.len() - i,
    {
        let m = &records[i].match_val;
        let finding_id = m.finding_id();
        let ghost seen = all.take(i as int);
        let ghost d = distinct(keys_of(seen));
        let ghost before = findings.deep_view();
        proof {
            assert(all[i as int] == m@);
            assert(all.take(i + 1) =~= seen.push(m@));
            lemma_analyzed_push(seen, m@);
            lemma_analyzed_groups(seen);
            assert(key_of(m@).finding_id == finding_id@);
            assert forall|j: int| 0 <= j < d.len() implies (#[trigger] before[j]).rule_name
                == d[j].rule_name && before[j].rule_structural_id == d[j].rule_structural_id
                && before[j].finding_id == d[j].finding_id && before[j].count <= i
                && before[j].unlabeled_count <= i by {
                assert(before[j] == analyzed(seen)[j]);
                seen.lemma_filter_len(has_finding_key(d[j]));
            }
        }
        match find_finding(&findings, m, &finding_id) {
            Some(j) => {
                proof {
                    assert(before[j as int] == findings@[j as int]@);
                    assert(d[j as int] == key_of(m@));
                }
                let ghost earlier = findings@;
                gather(&mut findings[j], m.clone());
                proof {
                    assert(findings@ =~= earlier.update(j as int, findings@[j as int]));
                    assert forall|k: int| 0 <= k < before.len() implies #[trigger] findings.deep_view()[k]
                        == before.update(j as int, grown(before[j as int], m@))[k] by {
                        if k != j {
                            assert(findings@[k] == earlier[k]);
                        }
                    }
                    assert(findings.deep_view() =~= before.update(
                        j as int,
                        grown(before[j as int], m@),
                    ));
                }
            },
            None => {
                proof {
                    if d.contains(key_of(m@)) {
                        let j = choose|j: int| 0 <= j < d.len() && d[j] == key_of(m@);
                        assert(before[j] == findings@[j]@);
                    }
                }
                let mut matches: Vec<Match> = Vec::new();
                matches.push(m.clone());
                let fresh = Finding {
                    rule_name: m.rule_name.clone(),
                    rule_structural_id: m.rule_structural_id.clone(),
                    finding_id,
                    count: 1,
                    matches,
                    accept_count: 0,
                    reject_count: 0,
                    mixed_count: 0,
                    unlabeled_count: 1,
                    rule_text_id: Some(m.rule_text_id.clone()),
                    groups: Some(m.groups.clone()),
                    comment: None,
                    statuses: None,
                };
                assert(fresh.matches.deep_view() =~= seq![m@]);
                assert(fresh@ == finding_of(key_of(m@), seq![m@]));
                findings.push(fresh);
                assert(findings.deep_view() =~= before.push(finding_of(key_of(m@), seq![m@])));
            },
        }
        i += 1;
    }
    assert(all.take(i as int) =~= all);
    findings
}

} // verus!
