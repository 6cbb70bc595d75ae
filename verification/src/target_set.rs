//! Non-empty sets of targets, without entries that a more detailed entry
//! for the same Git repository makes redundant.

use std::path::PathBuf;
use vstd::prelude::*;

use crate::target::{path_class, same_path, Target, TargetModel};

verus! {

/// Whether `target` is a Git repo entry that carries its first commit.
pub open spec fn is_detailed(target: TargetModel) -> bool {
    target matches TargetModel::GitRepo { first_commit, .. } && first_commit is Some
}

/// Whether some entry of `all` is a detailed entry for the repository at `repo_path`.
pub open spec fn has_detailed_entry(all: Seq<TargetModel>, repo_path: PathBuf) -> bool {
    exists|j: int|
        0 <= j < all.len() && is_detailed(#[trigger] all[j]) && path_class(all[j]->repo_path)
            == path_class(repo_path)
}

/// Whether `target` says less than another entry of `all`: a Git repo entry
/// without a first commit, beside a detailed entry for the same repository.
pub open spec fn is_redundant(all: Seq<TargetModel>, target: TargetModel) -> bool {
    target matches TargetModel::GitRepo { repo_path, first_commit } && first_commit is None
        && has_detailed_entry(all, repo_path)
}

/// The entries of `all` that are not redundant, in their order.
pub open spec fn collapsed(all: Seq<TargetModel>) -> Seq<TargetModel> {
    all.filter(|t: TargetModel| !is_redundant(all, t))
}

/// Where at least one entry is given, at least one stays.
pub proof fn lemma_collapsed_nonempty(all: Seq<TargetModel>)
    requires
        all.len() > 0,
    ensures
        collapsed(all).len() > 0,
{
    let keep = |t: TargetModel| !is_redundant(all, t);
    if is_redundant(all, all[0]) {
        let j = choose|j: int|
            0 <= j < all.len() && is_detailed(#[trigger] all[j]) && path_class(all[j]->repo_path)
                == path_class(all[0]->repo_path);
        assert(keep(all[j]));
        all.lemma_filter_contains(keep, j);
    } else {
        assert(keep(all[0]));
        all.lemma_filter_contains(keep, 0);
    }
}

/// Nothing that stays is redundant, and every entry that is not redundant stays.
pub proof fn lemma_collapsed_members(all: Seq<TargetModel>)
    ensures
        forall|i: int|
            0 <= i < collapsed(all).len() ==> !is_redundant(all, #[trigger] collapsed(all)[i]),
        forall|i: int|
            0 <= i < all.len() && !is_redundant(all, all[i]) ==> collapsed(all).contains(
                #[trigger] all[i],
            ),
{
    let keep = |t: TargetModel| !is_redundant(all, t);
    assert forall|i: int| 0 <= i < collapsed(all).len() implies !is_redundant(
        all,
        #[trigger] collapsed(all)[i],
    ) by {
        all.lemma_filter_pred(keep, i);
    }
    assert forall|i: int| 0 <= i < all.len() && !is_redundant(all, all[i]) implies collapsed(
        all,
    ).contains(#[trigger] all[i]) by {
        assert(keep(all[i]));
        all.lemma_filter_contains(keep, i);
    }
}

/// Filtering keeps a sequence as it is where the property holds of every item.
proof fn lemma_filter_keeps_all<T>(s: Seq<T>, pred: spec_fn(T) -> bool)
    requires
        forall|i: int| 0 <= i < s.len() ==> pred(#[trigger] s[i]),
    ensures
        s.filter(pred) == s,
    decreases s.len(),
{
    reveal(Seq::filter);
    if s.len() > 0 {
        lemma_filter_keeps_all(s.drop_last(), pred);
        assert(s.drop_last().push(s.last()) =~= s);
    }
}

/// What stays has no redundant entry among itself: leaving out the
/// redundant entries a second time changes nothing.
pub proof fn lemma_collapsed_is_stable(all: Seq<TargetModel>)
    ensures
        collapsed(collapsed(all)) == collapsed(all),
{
    let kept = collapsed(all);
    let keep = |t: TargetModel| !is_redundant(all, t);
    let keep_again = |t: TargetModel| !is_redundant(kept, t);
    lemma_collapsed_members(all);
    assert forall|i: int| 0 <= i < kept.len() implies keep_again(#[trigger] kept[i]) by {
        if is_redundant(kept, kept[i]) {
            let j = choose|j: int|
                0 <= j < kept.len() && is_detailed(#[trigger] kept[j]) && path_class(
                    kept[j]->repo_path,
                ) == path_class(kept[i]->repo_path);
            all.lemma_filter_contains_rev(keep, kept[j]);
            let k = choose|k: int| 0 <= k < all.len() && all[k] == kept[j];
            assert(is_detailed(all[k]));
            assert(is_redundant(all, kept[i]));
        }
    }
    lemma_filter_keeps_all(kept, keep_again);
}

/// Of a bare entry for a repository followed by a detailed entry for the
/// same repository, only the detailed entry stays.
pub proof fn lemma_detailed_entry_replaces_bare(bare: TargetModel, detailed: TargetModel)
    requires
        bare matches TargetModel::GitRepo { first_commit, .. } && first_commit is None,
        is_detailed(detailed),
        path_class(bare->repo_path) == path_class(detailed->repo_path),
    ensures
        collapsed(seq![bare, detailed]) == seq![detailed],
{
    let all = seq![bare, detailed];
    let keep = |t: TargetModel| !is_redundant(all, t);
    reveal_with_fuel(Seq::filter, 3);
    assert(is_detailed(all[1]));
    assert(is_redundant(all, bare));
    assert(!is_redundant(all, detailed));
    assert(all.drop_last() =~= seq![bare]);
    assert(all.drop_last().drop_last() =~= Seq::<TargetModel>::empty());
    assert(all.filter(keep) =~= seq![detailed]);
}

/// A single entry stays as it is.
pub proof fn lemma_single_entry_stays(target: TargetModel)
    ensures
        collapsed(seq![target]) == seq![target],
{
    let all = seq![target];
    let keep = |t: TargetModel| !is_redundant(all, t);
    reveal_with_fuel(Seq::filter, 2);
    assert(!is_redundant(all, target)) by {
        if is_redundant(all, target) {
            let j = choose|j: int|
                0 <= j < all.len() && is_detailed(#[trigger] all[j]) && path_class(
                    all[j]->repo_path,
                ) == path_class(target->repo_path);
            assert(all[j] == target);
        }
    }
    assert(all.drop_last() =~= Seq::<TargetModel>::empty());
    assert(all.filter(keep) =~= seq![target]);
}

fn detailed_entry_exists(all: &Vec<Target>, repo_path: &PathBuf) -> (found: bool)
    ensures
        found == has_detailed_entry(all.deep_view(), *repo_path),
{
    let mut j: usize = 0;
    while j < all.len()
        invariant
            j <= all.len(),
            forall|k: int|
                0 <= k < j ==> !(is_detailed(#[trigger] all.deep_view()[k]) && path_class(
                    all.deep_view()[k]->repo_path,
                ) == path_class(*repo_path)),
        decreases all.len() - j,
    {
        match &all[j] {
            Target::GitRepo(e) => {
                if e.first_commit.is_some() && same_path(&e.repo_path, repo_path) {
                    assert(is_detailed(all.deep_view()[j as int]));
                    return true;
                }
            },
            _ => {},
        }
        j += 1;
    }
    false
}

fn collapse(all: &Vec<Target>) -> (kept: Vec<Target>)
    ensures
        kept.deep_view() == collapsed(all.deep_view()),
{
    let ghost models = all.deep_view();
    let ghost keep = |t: TargetModel| !is_redundant(models, t);
    let mut kept: Vec<Target> = Vec::new();
    let mut i: usize = 0;
    proof {
        reveal(Seq::filter);
        assert(models.take(0).filter(keep) =~= Seq::<TargetModel>::empty());
    }
    while i < all.len()
        invariant
            i <= all.len(),
            models == all.deep_view(),
            keep == (|t: TargetModel| !is_redundant(models, t)),
            kept.deep_view() == models.take(i as int).filter(keep),
        decreases all.len() - i,
    {
        let redundant = match &all[i] {
            Target::GitRepo(e) => e.first_commit.is_none() && detailed_entry_exists(
                all,
                &e.repo_path,
            ),
            _ => false,
        };
        let ghost before = kept.deep_view();
        if !redundant {
            kept.push(all[i].clone());
        }
        i += 1;
        proof {
            reveal(Seq::filter);
            let now = models.take(i as int);
            assert(now.drop_last() =~= models.take(i - 1));
            assert(now.last() == models[i - 1]);
            assert(redundant == is_redundant(models, models[i - 1]));
            if !redundant {
                assert(kept.deep_view() =~= before.push(models[i - 1]));
            }
        }
    }
    assert(models.take(i as int) =~= models);
    kept
}

/// A non-empty set of `Target` entries.
#[derive(Debug)]
pub struct TargetSet {
    target: Target,
    more_target: Vec<Target>,
}

impl View for TargetSet {
    type V = Seq<TargetModel>;

    closed spec fn view(&self) -> Seq<TargetModel> {
        seq![self.target@] + self.more_target.deep_view()
    }
}

impl DeepView for TargetSet {
    type V = Seq<TargetModel>;

    open spec fn deep_view(&self) -> Seq<TargetModel> {
        self@
    }
}

impl TargetSet {
    #[verifier::type_invariant]
    spec fn fits(self) -> bool {
        self.more_target.len() < usize::MAX
    }

    fn from_entries(all: &Vec<Target>) -> (set: TargetSet)
        requires
            all.len() > 0,
        ensures
            set@ == collapsed(all.deep_view()),
    {
        let mut kept = collapse(all);
        proof {
            lemma_collapsed_nonempty(all.deep_view());
            all.deep_view().lemma_filter_len(|t: TargetModel| !is_redundant(all.deep_view(), t));
        }
        let ghost whole = kept.deep_view();
        let target = kept.remove(0);
        assert(seq![target@] + kept.deep_view() =~= whole);
        TargetSet { target, more_target: kept }
    }

    /// A set of the given entries, without the redundant ones: a Git repo
    /// entry without a first commit is left out where another entry for the
    /// same repository carries one.
    pub fn new(target: Target, more_target: Vec<Target>) -> (set: TargetSet)
        requires
            more_target.len() < usize::MAX,
        ensures
            set@ == collapsed(seq![target@] + more_target.deep_view()),
            set@.len() > 0,
    {
        let mut more = more_target;
        let mut all: Vec<Target> = Vec::new();
        all.push(target);
        all.append(&mut more);
        assert(all.deep_view() =~= seq![target@] + more_target.deep_view());
        proof {
            lemma_collapsed_nonempty(all.deep_view());
        }
        TargetSet::from_entries(&all)
    }

    /// A set of the given entries, without the redundant ones; `None` where
    /// no entry is given.
    pub fn try_from_iter(it: Vec<Target>) -> (set: Option<TargetSet>)
        ensures
            set is Some == (it.len() > 0),
            set matches Some(s) ==> s@ == collapsed(it.deep_view()) && s@.len() > 0,
    {
        if it.len() == 0 {
            None
        } else {
            proof {
                lemma_collapsed_nonempty(it.deep_view());
            }
            Some(TargetSet::from_entries(&it))
        }
    }

    /// The first entry.
    pub fn first(&self) -> (target: &Target)
        ensures
            target@ == self@[0],
    {
        &self.target
    }

    /// The number of entries, which is at least 1.
    pub fn len(&self) -> (len: usize)
        ensures
            len == self@.len(),
            len >= 1,
    {
        proof {
            use_type_invariant(self);
        }
        1 + self.more_target.len()
    }

    /// The entries, in their order.
    pub fn iter(&self) -> (entries: Vec<&Target>)
        ensures
            entries@.len() == self@.len(),
            forall|i: int| 0 <= i < entries@.len() ==> (#[trigger] entries@[i])@ == self@[i],
    {
        let mut entries: Vec<&Target> = Vec::new();
        entries.push(&self.target);
        let mut i: usize = 0;
        while i < self.more_target.len()
            invariant
                i <= self.more_target.len(),
                entries@.len() == i + 1,
                entries@[0]@ == self.target@,
                forall|k: int|
                    0 <= k < i ==> (#[trigger] entries@[k + 1])@ == self.more_target@[k]@,
            decreases self.more_target.len() - i,
        {
            entries.push(&self.more_target[i]);
            i += 1;
        }
        assert forall|k: int| 0 <= k < entries@.len() implies (#[trigger] entries@[k])@
            == self@[k] by {
            if k > 0 {
                assert(entries@[(k - 1) + 1]@ == self.more_target@[k - 1]@);
            }
        }
        entries
    }

    /// The entries as a vector, in their order.
    pub fn into_vec(self) -> (entries: Vec<Target>)
        ensures
            entries.deep_view() == self@,
    {
        let TargetSet { target, more_target } = self;
        let mut more = more_target;
        let mut entries: Vec<Target> = Vec::new();
        entries.push(target);
        entries.append(&mut more);
        assert(entries.deep_view() =~= seq![target@] + more_target.deep_view());
        entries
    }
}

impl Clone for TargetSet {
    fn clone(&self) -> (copy: TargetSet)
        ensures
            copy@ == self@,
    {
        proof {
            use_type_invariant(self);
        }
        let mut more: Vec<Target> = Vec::new();
        let mut i: usize = 0;
        while i < self.more_target.len()
            invariant
                i <= self.more_target.len(),
                more.len() == i,
                forall|k: int| 0 <= k < i ==> (#[trigger] more@[k])@ == self.more_target@[k]@,
            decreases self.more_target.len() - i,
        {
            more.push(self.more_target[i].clone());
            i += 1;
        }
        assert(more.deep_view() =~= self.more_target.deep_view());
        TargetSet { target: self.target.clone(), more_target: more }
    }
}

} // verus!
