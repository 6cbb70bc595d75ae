//! Matches of a rule in a blob, their capture groups and their identifiers.

use smallvec::SmallVec;
use vstd::prelude::*;
use vstd::string::*;
use vstd::utf8::*;

use crate::blob_id::BlobId;
use crate::digest::{sha1_hex, sha1_hexdigest};
use crate::location::{source_span_of, Location, LocationMapping, OffsetSpan};
use crate::snippet::{snippet_of, Snippet, SnippetModel};
use crate::text::{
    base64_encode,
    base64_text,
    copy_range,
    decimal_text,
    hex_text,
    is_base64_char,
    lemma_base64_chars,
    lemma_base64_injective,
    to_decimal,
};

verus! {

/// The bytes that one capture group matched.
#[derive(Debug, PartialEq, Eq, Hash)]
pub struct Group(pub Vec<u8>);

impl View for Group {
    type V = Seq<u8>;

    open spec fn view(&self) -> Seq<u8> {
        self.0@
    }
}

impl DeepView for Group {
    type V = Seq<u8>;

    open spec fn deep_view(&self) -> Seq<u8> {
        self.0@
    }
}

impl Clone for Group {
    fn clone(&self) -> (copy: Group)
        ensures
            copy@ == self@,
    {
        Group(self.0.clone())
    }
}

impl Group {
    /// A group that holds a copy of `bytes`.
    pub fn new(bytes: &[u8]) -> (group: Group)
        ensures
            group@ == bytes@,
    {
        let copy = copy_range(bytes, 0, bytes.len());
        assert(bytes@.subrange(0, bytes@.len() as int) =~= bytes@);
        Group(copy)
    }
}

/// The capture groups of a match, in the order of the rule's pattern.
///
/// Backed by `smallvec::SmallVec`; what it holds is `groups_items`.
#[verifier::external_body]
#[derive(Debug, PartialEq, Eq, Hash)]
pub struct Groups {
    inner: SmallVec<[Group; 1]>,
}

/// The byte strings that a collection of groups holds, first group first.
pub uninterp spec fn groups_items(groups: Groups) -> Seq<Seq<u8>>;

impl View for Groups {
    type V = Seq<Seq<u8>>;

    open spec fn view(&self) -> Seq<Seq<u8>> {
        groups_items(*self)
    }
}

impl DeepView for Groups {
    type V = Seq<Seq<u8>>;

    open spec fn deep_view(&self) -> Seq<Seq<u8>> {
        groups_items(*self)
    }
}

/// Calls `SmallVec::new`: the new collection holds nothing.
#[verifier::external_body]
fn groups_new() -> (groups: Groups)
    ensures
        groups_items(groups) == Seq::<Seq<u8>>::empty(),
{
    Groups { inner: SmallVec::new() }
}

/// Calls `SmallVec::push`: the group is appended after those already held.
#[verifier::external_body]
fn groups_push(groups: &mut Groups, group: Group)
    ensures
        groups_items(*final(groups)) == groups_items(*old(groups)).push(group@),
{
    groups.inner.push(group)
}

/// Calls `SmallVec::len`: the number of groups held.
#[verifier::external_body]
fn groups_len(groups: &Groups) -> (len: usize)
    ensures
        len == groups_items(*groups).len(),
{
    groups.inner.len()
}

/// Indexes the `SmallVec` as a slice: the group at `index`, which must be in range.
#[verifier::external_body]
fn groups_get(groups: &Groups, index: usize) -> (group: &Group)
    requires
        index < groups_items(*groups).len(),
    ensures
        group@ == groups_items(*groups)[index as int],
{
    &groups.inner[index]
}

impl Clone for Groups {
    /// Calls `SmallVec::clone`: the copy holds the same byte strings in the same order.
    #[verifier::external_body]
    fn clone(&self) -> (copy: Groups)
        ensures
            groups_items(copy) == groups_items(*self),
    {
        Groups { inner: self.inner.clone() }
    }
}

impl Default for Groups {
    fn default() -> (groups: Groups)
        ensures
            groups@ == Seq::<Seq<u8>>::empty(),
    {
        groups_new()
    }
}

/// One group as a JSON string: its base64 text between double quotes.
pub open spec fn quoted_group(group: Seq<u8>) -> Seq<char> {
    seq!['"'] + base64_text(group) + seq!['"']
}

/// The groups as JSON strings with a comma between neighbours.
pub open spec fn joined_groups(groups: Seq<Seq<u8>>) -> Seq<char>
    decreases groups.len(),
{
    if groups.len() == 0 {
        Seq::empty()
    } else if groups.len() == 1 {
        quoted_group(groups[0])
    } else {
        joined_groups(groups.drop_last()) + seq![','] + quoted_group(groups.last())
    }
}

/// The groups as a compact JSON array of base64 strings.
pub open spec fn groups_json(groups: Seq<Seq<u8>>) -> Seq<char> {
    seq!['['] + joined_groups(groups) + seq![']']
}

impl Groups {
    /// An empty collection.
    pub fn new() -> (groups: Groups)
        ensures
            groups@ == Seq::<Seq<u8>>::empty(),
    {
        groups_new()
    }

    /// Appends a group.
    pub fn push(&mut self, group: Group)
        ensures
            final(self)@ == old(self)@.push(group@),
    {
        groups_push(self, group)
    }

    /// The number of groups held.
    pub fn len(&self) -> (len: usize)
        ensures
            len == self@.len(),
    {
        groups_len(self)
    }

    /// Whether no group is held.
    pub fn is_empty(&self) -> (empty: bool)
        ensures
            empty == (self@.len() == 0),
    {
        groups_len(self) == 0
    }

    /// The group at `index`, if there is one.
    pub fn get(&self, index: usize) -> (group: Option<&Group>)
        ensures
            group is Some == (index < self@.len()),
            group matches Some(g) ==> g@ == self@[index as int],
    {
        if index < groups_len(self) {
            Some(groups_get(self, index))
        } else {
            None
        }
    }

    /// Collects groups from a vector, keeping their order.
    pub fn from_vec(items: Vec<Group>) -> (groups: Groups)
        ensures
            groups@ == items.deep_view(),
    {
        let mut groups = groups_new();
        let mut i: usize = 0;
        while i < items.len()
            invariant
                i <= items.len(),
                groups@ == items.deep_view().take(i as int),
            decreases items.len() - i,
        {
            groups_push(&mut groups, items[i].clone());
            i += 1;
            assert(items.deep_view().take(i as int) =~= items.deep_view().take(i - 1).push(
                items@[i - 1]@,
            ));
        }
        assert(items.deep_view().take(i as int) =~= items.deep_view());
        groups
    }

    /// Whether some group of `self` holds the same bytes as some group of `other`.
    pub fn intersects(&self, other: &Groups) -> (shared: bool)
        ensures
            shared == groups_intersect(self@, other@),
    {
        let n = groups_len(self);
        let m = groups_len(other);
        let mut i: usize = 0;
        while i < n
            invariant
                i <= n,
                n == self@.len(),
                m == other@.len(),
                forall|a: int, b: int|
                    #![trigger self@[a], other@[b]]
                    0 <= a < i && 0 <= b < m ==> self@[a] != other@[b],
            decreases n - i,
        {
            let mine = groups_get(self, i);
            let mut j: usize = 0;
            while j < m
                invariant
                    j <= m,
                    i < n,
                    n == self@.len(),
                    m == other@.len(),
                    mine@ == self@[i as int],
                    forall|b: int| 0 <= b < j ==> self@[i as int] != #[trigger] other@[b],
                decreases m - j,
            {
                let theirs = groups_get(other, j);
                if crate::text::bytes_equal(mine.0.as_slice(), theirs.0.as_slice()) {
                    return true;
                }
                j += 1;
            }
            i += 1;
        }
        false
    }

    /// The groups as a compact JSON array of base64 strings.
    pub fn to_json(&self) -> (json: String)
        ensures
            json@ == groups_json(self@),
    {
        proof {
            reveal_strlit("[");
            reveal_strlit("]");
            reveal_strlit(",");
            reveal_strlit("\"");
        }
        let mut json: String = "[".to_owned();
        let n = groups_len(self);
        let mut i: usize = 0;
        while i < n
            invariant
                i <= n,
                n == self@.len(),
                json@ == seq!['['] + joined_groups(self@.take(i as int)),
            decreases n - i,
        {
            let ghost before = json@;
            if i > 0 {
                json.append(",");
            }
            json.append("\"");
            json.append(base64_encode(groups_get(self, i).0.as_slice()).as_str());
            json.append("\"");
            i += 1;
            proof {
                reveal_strlit(",");
                reveal_strlit("\"");
                let now = self@.take(i as int);
                let item = quoted_group(self@[i - 1]);
                assert(now.drop_last() =~= self@.take(i - 1));
                assert(now.last() == self@[i - 1]);
                if i == 1 {
                    assert(joined_groups(self@.take(0)) =~= Seq::<char>::empty());
                    assert(now[0] == self@[0]);
                    assert(json@ =~= before + item);
                } else {
                    assert(json@ =~= before + seq![','] + item);
                }
                assert(json@ =~= seq!['['] + joined_groups(now));
            }
        }
        assert(self@.take(i as int) =~= self@);
        json.append("]");
        assert(json@ =~= groups_json(self@));
        json
    }
}

/// Whether two collections of groups have a byte string in common.
pub open spec fn groups_intersect(a: Seq<Seq<u8>>, b: Seq<Seq<u8>>) -> bool {
    exists|i: int, j: int|
        #![trigger a[i], b[j]]
        0 <= i < a.len() && 0 <= j < b.len() && a[i] == b[j]
}

/// The identifiers and the name of the rule that produced a match.
#[derive(Debug, PartialEq, Eq)]
pub struct RuleIdentity {
    /// The identifier computed from the rule's content.
    pub structural_id: String,
    /// The identifier that the rule's author gave it.
    pub text_id: String,
    /// The rule's name.
    pub name: String,
}

/// One place where a rule's pattern matched in a blob, before it is recorded.
#[derive(Debug)]
pub struct BlobMatch<'a> {
    /// The rule whose pattern matched.
    pub rule: &'a RuleIdentity,
    /// The identifier of the blob.
    pub blob_id: BlobId,
    /// The bytes of the blob.
    pub blob_bytes: &'a [u8],
    /// Where in the blob the whole pattern matched.
    pub matching_input_offset_span: OffsetSpan,
    /// What each capture slot matched, the whole match first; `None` for a
    /// slot that took no part in the match.
    pub captures: Vec<Option<Vec<u8>>>,
}

/// What the capture slots hold.
pub open spec fn captures_of(captures: Seq<Option<Vec<u8>>>) -> Seq<Option<Seq<u8>>> {
    captures.map_values(
        |slot: Option<Vec<u8>>|
            match slot {
                Some(bytes) => Some(bytes@),
                None => None,
            },
    )
}

/// The groups of a match: what the slots after the first matched, without
/// the slots that took no part.
pub open spec fn participating_groups(captures: Seq<Option<Seq<u8>>>) -> Seq<Seq<u8>>
    decreases captures.len(),
{
    if captures.len() <= 1 {
        Seq::empty()
    } else {
        let earlier = participating_groups(captures.drop_last());
        match captures.last() {
            Some(bytes) => earlier.push(bytes),
            None => earlier,
        }
    }
}

impl<'a> BlobMatch<'a> {
    /// Whether the matching span lies within the blob.
    pub open spec fn in_bounds(&self) -> bool {
        self.matching_input_offset_span.start <= self.matching_input_offset_span.end
            <= self.blob_bytes@.len()
    }

    /// Decides `in_bounds`.
    pub fn is_in_bounds(&self) -> (ok: bool)
        ensures
            ok == self.in_bounds(),
    {
        self.matching_input_offset_span.start <= self.matching_input_offset_span.end
            && self.matching_input_offset_span.end <= self.blob_bytes.len()
    }
}

/// One occurrence of a rule's pattern in one blob.
#[derive(Debug, PartialEq, Eq)]
pub struct Match {
    /// The blob this match comes from.
    pub blob_id: BlobId,
    /// The location of the entire matching content.
    pub location: Location,
    /// The capture groups.
    pub groups: Groups,
    /// A snippet of the match and surrounding context.
    pub snippet: Snippet,
    /// The content-based identifier of this match.
    pub structural_id: String,
    /// The structural identifier of the rule that produced this match.
    pub rule_structural_id: String,
    /// The text identifier of the rule that produced this match.
    pub rule_text_id: String,
    /// The name of the rule that produced this match.
    pub rule_name: String,
}

/// What a match holds.
pub struct MatchModel {
    pub blob_id: Seq<u8>,
    pub location: Location,
    pub groups: Seq<Seq<u8>>,
    pub snippet: SnippetModel,
    pub structural_id: Seq<char>,
    pub rule_structural_id: Seq<char>,
    pub rule_text_id: Seq<char>,
    pub rule_name: Seq<char>,
}

impl View for Match {
    type V = MatchModel;

    open spec fn view(&self) -> MatchModel {
        MatchModel {
            blob_id: self.blob_id@,
            location: self.location,
            groups: self.groups@,
            snippet: self.snippet@,
            structural_id: self.structural_id@,
            rule_structural_id: self.rule_structural_id@,
            rule_text_id: self.rule_text_id@,
            rule_name: self.rule_name@,
        }
    }
}

impl DeepView for Match {
    type V = MatchModel;

    open spec fn deep_view(&self) -> MatchModel {
        self@
    }
}

impl Clone for Match {
    fn clone(&self) -> (copy: Match)
        ensures
            copy@ == self@,
    {
        Match {
            blob_id: self.blob_id,
            location: self.location,
            groups: self.groups.clone(),
            snippet: self.snippet.clone(),
            structural_id: self.structural_id.clone(),
            rule_structural_id: self.rule_structural_id.clone(),
            rule_text_id: self.rule_text_id.clone(),
            rule_name: self.rule_name.clone(),
        }
    }
}

/// The text whose digest identifies a match: the rule's structural
/// identifier, the blob's identifier in hexadecimal, and the two ends of the
/// span in decimal, with a NUL character between neighbours.
pub open spec fn structural_id_text(rule: Seq<char>, blob: Seq<u8>, span: OffsetSpan) -> Seq<char> {
    rule + seq!['\0'] + hex_text(blob) + seq!['\0'] + decimal_text(span.start as nat) + seq!['\0']
        + decimal_text(span.end as nat)
}

/// The identifier of the match of a rule at a span of a blob.
pub open spec fn structural_id_of(rule: Seq<char>, blob: Seq<u8>, span: OffsetSpan) -> Seq<char> {
    sha1_hex(encode_utf8(structural_id_text(rule, blob, span)))
}

/// The text whose digest identifies a finding: the rule's structural
/// identifier, a NUL character, and the groups as JSON.
pub open spec fn finding_id_text(rule: Seq<char>, groups: Seq<Seq<u8>>) -> Seq<char> {
    rule + seq!['\0'] + groups_json(groups)
}

/// The identifier of the finding that gathers the matches of a rule with
/// the given groups.
pub open spec fn finding_id_of(rule: Seq<char>, groups: Seq<Seq<u8>>) -> Seq<char> {
    sha1_hex(encode_utf8(finding_id_text(rule, groups)))
}

/// The match that recording a pattern match gives.
pub open spec fn converted_match(
    points: Seq<crate::location::SourcePoint>,
    rule: RuleIdentity,
    blob_id: Seq<u8>,
    blob_bytes: Seq<u8>,
    span: OffsetSpan,
    captures: Seq<Option<Seq<u8>>>,
    context: usize,
) -> MatchModel {
    MatchModel {
        blob_id,
        location: Location { offset_span: span, source_span: source_span_of(points, span) },
        groups: participating_groups(captures),
        snippet: snippet_of(blob_bytes, span.start as int, span.end as int, context as int),
        structural_id: structural_id_of(rule.structural_id@, blob_id, span),
        rule_structural_id: rule.structural_id@,
        rule_text_id: rule.text_id@,
        rule_name: rule.name@,
    }
}

impl Match {
    /// Records a pattern match: its location by offsets and by source
    /// positions, a snippet with up to `snippet_context_bytes` bytes of context
    /// on either side, the groups that took part, and the match's identifier.
    pub fn convert<'a>(
        loc_mapping: &'a LocationMapping,
        blob_match: &'a BlobMatch<'a>,
        snippet_context_bytes: usize,
    ) -> (recorded: Match)
        requires
            blob_match.in_bounds(),
        ensures
            recorded@ == converted_match(
                loc_mapping@,
                *blob_match.rule,
                blob_match.blob_id@,
                blob_match.blob_bytes@,
                blob_match.matching_input_offset_span,
                captures_of(blob_match.captures@),
                snippet_context_bytes,
            ),
    {
        let offset_span = blob_match.matching_input_offset_span;
        let bytes = blob_match.blob_bytes;

        let before_start: usize = offset_span.start.saturating_sub(snippet_context_bytes);
        let before = copy_range(bytes, before_start, offset_span.start);
        let reach: usize = offset_span.end.saturating_add(snippet_context_bytes);
        let after_end: usize = if reach < bytes.len() {
            reach
        } else {
            bytes.len()
        };
        let after = copy_range(bytes, offset_span.end, after_end);
        let matching = copy_range(bytes, offset_span.start, offset_span.end);
        let source_span = loc_mapping.get_source_span(&offset_span);

        let ghost slots = captures_of(blob_match.captures@);
        let mut groups = Groups::new();
        let mut i: usize = 1;
        proof {
            if blob_match.captures.len() > 0 {
                assert(slots.take(1).len() == 1);
                assert(participating_groups(slots.take(1)) =~= Seq::<Seq<u8>>::empty());
            }
        }
        while i < blob_match.captures.len()
            invariant
                1 <= i,
                slots == captures_of(blob_match.captures@),
                i <= blob_match.captures.len() || blob_match.captures.len() == 0,
                blob_match.captures.len() > 0 ==> groups@ == participating_groups(
                    slots.take(i as int),
                ),
                blob_match.captures.len() == 0 ==> groups@ == Seq::<Seq<u8>>::empty(),
            decreases blob_match.captures.len() - i,
        {
            match &blob_match.captures[i] {
                Some(bytes) => {
                    groups.push(Group::new(bytes.as_slice()));
                },
                None => {},
            }
            i += 1;
            proof {
                let now = slots.take(i as int);
                assert(now.drop_last() =~= slots.take(i - 1));
                assert(now.last() == slots[i - 1]);
            }
        }
        proof {
            if blob_match.captures.len() > 0 {
                assert(slots.take(i as int) =~= slots);
            }
        }

        let rule_structural_id = blob_match.rule.structural_id.clone();
        let structural_id = Match::compute_structural_id(
            rule_structural_id.as_str(),
            &blob_match.blob_id,
            offset_span,
        );

        Match {
            blob_id: blob_match.blob_id,
            rule_structural_id,
            rule_name: blob_match.rule.name.clone(),
            rule_text_id: blob_match.rule.text_id.clone(),
            snippet: Snippet { matching, before, after },
            location: Location { offset_span, source_span },
            groups,
            structural_id,
        }
    }

    /// The content-based identifier of the match of a rule at a span of a blob.
    pub fn compute_structural_id(rule_structural_id: &str, blob_id: &BlobId, span: OffsetSpan) -> (id:
        String)
        ensures
            id@ == structural_id_of(rule_structural_id@, blob_id@, span),
            id@.len() == 40,
    {
        proof {
            reveal_strlit("\0");
        }
        let mut text: String = rule_structural_id.to_owned();
        text.append("\0");
        text.append(blob_id.hex().as_str());
        text.append("\0");
        text.append(to_decimal(span.start).as_str());
        text.append("\0");
        text.append(to_decimal(span.end).as_str());
        assert(text@ =~= structural_id_text(rule_structural_id@, blob_id@, span));
        sha1_hexdigest(text.as_str().as_bytes())
    }

    /// The identifier of the finding that this match belongs to: a digest of
    /// the rule's structural identifier and of the groups, in their order.
    pub fn finding_id(&self) -> (id: String)
        ensures
            id@ == finding_id_of(self@.rule_structural_id, self@.groups),
            id@.len() == 40,
    {
        proof {
            reveal_strlit("\0");
        }
        let mut text: String = self.rule_structural_id.clone();
        text.append("\0");
        text.append(self.groups.to_json().as_str());
        assert(text@ =~= finding_id_text(self@.rule_structural_id, self@.groups));
        sha1_hexdigest(text.as_str().as_bytes())
    }
}

/// A group as a JSON string holds no comma.
pub proof fn lemma_quoted_group_has_no_comma(group: Seq<u8>)
    ensures
        forall|i: int| 0 <= i < quoted_group(group).len() ==> #[trigger] quoted_group(group)[i] != ',',
{
    lemma_base64_chars(group);
    let text = base64_text(group);
    assert forall|i: int| 0 <= i < quoted_group(group).len() implies #[trigger] quoted_group(
        group,
    )[i] != ',' by {
        if 0 < i <= text.len() {
            assert(quoted_group(group)[i] == text[i - 1]);
            assert(is_base64_char(text[i - 1]));
        }
    }
}

/// A text is split at its last comma in one way only.
pub proof fn lemma_split_at_last_comma(
    before: Seq<char>,
    after: Seq<char>,
    other_before: Seq<char>,
    other_after: Seq<char>,
)
    requires
        before + seq![','] + after == other_before + seq![','] + other_after,
        forall|i: int| 0 <= i < after.len() ==> #[trigger] after[i] != ',',
        forall|i: int| 0 <= i < other_after.len() ==> #[trigger] other_after[i] != ',',
    ensures
        before == other_before,
        after == other_after,
{
    let head = before + seq![','];
    let other_head = other_before + seq![','];
    let text = head + after;
    let other = other_head + other_after;
    assert(text.len() == other.len());
    assert(head.len() == before.len() + 1);
    assert(other_head.len() == other_before.len() + 1);
    assert(text[before.len() as int] == head[before.len() as int]);
    assert(other[other_before.len() as int] == other_head[other_before.len() as int]);
    if before.len() < other_before.len() {
        let at = other_before.len() as int;
        assert(other[at] == ',');
        assert(head.len() <= at < text.len());
        assert(text[at] == after[at - head.len()]);
    } else if other_before.len() < before.len() {
        let at = before.len() as int;
        assert(text[at] == ',');
        assert(other_head.len() <= at < other.len());
        assert(other[at] == other_after[at - other_head.len()]);
    }
    assert(before =~= text.take(before.len() as int));
    assert(other_before =~= other.take(before.len() as int));
    assert(after =~= text.skip(before.len() as int + 1));
    assert(other_after =~= other.skip(before.len() as int + 1));
}

/// Different groups are different as JSON strings.
pub proof fn lemma_quoted_group_injective(a: Seq<u8>, b: Seq<u8>)
    requires
        quoted_group(a) == quoted_group(b),
    ensures
        a == b,
{
    let qa = quoted_group(a);
    let qb = quoted_group(b);
    assert(base64_text(a) =~= qa.subrange(1, qa.len() - 1));
    assert(base64_text(b) =~= qb.subrange(1, qb.len() - 1));
    lemma_base64_injective(a, b);
}

/// Two or more groups as JSON are the groups before the last, a comma, and
/// the last group; one group as JSON is that group alone.
pub proof fn lemma_joined_groups_last(groups: Seq<Seq<u8>>)
    requires
        groups.len() > 0,
    ensures
        groups.len() == 1 ==> joined_groups(groups) == quoted_group(groups.last()),
        groups.len() > 1 ==> joined_groups(groups) == joined_groups(groups.drop_last()) + seq![
            ',',
        ] + quoted_group(groups.last()),
        joined_groups(groups).len() >= 2,
{
    if groups.len() == 1 {
        assert(groups.last() == groups[0]);
    }
}

/// One group as JSON differs from two or more groups as JSON.
proof fn lemma_one_group_is_not_more(one: Seq<Seq<u8>>, more: Seq<Seq<u8>>)
    requires
        one.len() == 1,
        more.len() > 1,
    ensures
        joined_groups(one) != joined_groups(more),
{
    lemma_joined_groups_last(one);
    lemma_joined_groups_last(more);
    lemma_quoted_group_has_no_comma(one.last());
    let head = joined_groups(more.drop_last());
    let text = head + seq![','] + quoted_group(more.last());
    let at = head.len() as int;
    assert(text[at] == (head + seq![','])[at]);
    assert(text[at] == ',');
    if joined_groups(one) == joined_groups(more) {
        assert(quoted_group(one.last())[at] == ',');
    }
}

/// Different sequences of groups are different as JSON: the text tells the
/// groups and their order.
pub proof fn lemma_joined_groups_injective(a: Seq<Seq<u8>>, b: Seq<Seq<u8>>)
    requires
        joined_groups(a) == joined_groups(b),
    ensures
        a == b,
    decreases a.len(),
{
    if a.len() == 0 || b.len() == 0 {
        if a.len() > 0 {
            lemma_joined_groups_last(a);
        }
        if b.len() > 0 {
            lemma_joined_groups_last(b);
        }
        assert(a =~= b);
    } else {
        lemma_joined_groups_last(a);
        lemma_joined_groups_last(b);
        if a.len() == 1 && b.len() == 1 {
            lemma_quoted_group_injective(a.last(), b.last());
        } else if a.len() == 1 {
            lemma_one_group_is_not_more(a, b);
        } else if b.len() == 1 {
            lemma_one_group_is_not_more(b, a);
        } else {
            lemma_quoted_group_has_no_comma(a.last());
            lemma_quoted_group_has_no_comma(b.last());
            lemma_split_at_last_comma(
                joined_groups(a.drop_last()),
                quoted_group(a.last()),
                joined_groups(b.drop_last()),
                quoted_group(b.last()),
            );
            lemma_joined_groups_injective(a.drop_last(), b.drop_last());
            lemma_quoted_group_injective(a.last(), b.last());
        }
        assert(a =~= a.drop_last().push(a.last()));
        assert(b =~= b.drop_last().push(b.last()));
    }
}

/// The text whose digest identifies a finding tells the groups and their
/// order: for one rule, different sequences of groups give different texts.
pub proof fn lemma_finding_id_text_tells_groups(rule: Seq<char>, a: Seq<Seq<u8>>, b: Seq<Seq<u8>>)
    requires
        finding_id_text(rule, a) == finding_id_text(rule, b),
    ensures
        a == b,
{
    let ta = finding_id_text(rule, a);
    let tb = finding_id_text(rule, b);
    let ja = groups_json(a);
    let jb = groups_json(b);
    assert(ja =~= ta.skip(rule.len() as int + 1));
    assert(jb =~= tb.skip(rule.len() as int + 1));
    assert(joined_groups(a) =~= ja.subrange(1, ja.len() - 1));
    assert(joined_groups(b) =~= jb.subrange(1, jb.len() - 1));
    lemma_joined_groups_injective(a, b);
}

/// The identifier of a match depends on nothing but the rule's structural
/// identifier, the blob's identifier and the span.
pub proof fn lemma_structural_id_deterministic(a: MatchModel, b: MatchModel)
    requires
        a.rule_structural_id == b.rule_structural_id,
        a.blob_id == b.blob_id,
        a.location.offset_span == b.location.offset_span,
    ensures
        structural_id_of(a.rule_structural_id, a.blob_id, a.location.offset_span)
            == structural_id_of(b.rule_structural_id, b.blob_id, b.location.offset_span),
{
}

/// The identifier of a finding depends on nothing but the rule's structural
/// identifier and the sequence of groups.
pub proof fn lemma_finding_id_deterministic(a: MatchModel, b: MatchModel)
    requires
        a.rule_structural_id == b.rule_structural_id,
        a.groups == b.groups,
    ensures
        finding_id_of(a.rule_structural_id, a.groups) == finding_id_of(
            b.rule_structural_id,
            b.groups,
        ),
{
}

} // verus!
