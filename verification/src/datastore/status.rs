//! Decisions that people took on matches.

use smallvec::SmallVec;
use vstd::prelude::*;

use crate::text::str_equal;

verus! {

/// The decision that a person took on one match.
#[derive(Debug, Copy, Clone, PartialEq, Eq, Hash, Structural)]
pub enum Status {
    Accept,
    Reject,
}

/// The stored spelling of a status.
pub open spec fn status_text(status: Status) -> Seq<char> {
    match status {
        Status::Accept => "accept"@,
        Status::Reject => "reject"@,
    }
}

/// The status that a stored spelling stands for, if any.
pub open spec fn parse_status(text: Seq<char>) -> Result<Status, ()> {
    if text == "accept"@ {
        Ok(Status::Accept)
    } else if text == "reject"@ {
        Ok(Status::Reject)
    } else {
        Err(())
    }
}

impl Status {
    /// The stored spelling: `accept` or `reject`.
    pub fn as_str(&self) -> (text: &'static str)
        ensures
            text@ == status_text(*self),
    {
        match self {
            Status::Accept => "accept",
            Status::Reject => "reject",
        }
    }

    /// The stored spelling as an owned string.
    pub fn to_string(&self) -> (text: String)
        ensures
            text@ == status_text(*self),
    {
        self.as_str().to_owned()
    }

    /// Reads a stored spelling; anything but `accept` and `reject` is an error.
    pub fn from_str(s: &str) -> (parsed: Result<Status, ()>)
        ensures
            parsed == parse_status(s@),
    {
        if str_equal(s, "accept") {
            Ok(Status::Accept)
        } else if str_equal(s, "reject") {
            Ok(Status::Reject)
        } else {
            Err(())
        }
    }
}

/// Reading back the spelling of a status gives that status.
pub proof fn lemma_status_text_round_trip(status: Status)
    ensures
        parse_status(status_text(status)) == Ok::<Status, ()>(status),
{
    reveal_strlit("accept");
    reveal_strlit("reject");
    assert("accept"@[0] != "reject"@[0]);
}

/// The statuses of a finding's matches, in the order in which they were added.
///
/// Backed by `smallvec::SmallVec`; what it holds is `statuses_items`.
#[verifier::external_body]
#[derive(Debug, PartialEq, Eq, Hash)]
pub struct Statuses {
    inner: SmallVec<[Status; 16]>,
}

/// The statuses that a collection holds, oldest first.
pub uninterp spec fn statuses_items(statuses: Statuses) -> Seq<Status>;

impl View for Statuses {
    type V = Seq<Status>;

    open spec fn view(&self) -> Seq<Status> {
        statuses_items(*self)
    }
}

impl DeepView for Statuses {
    type V = Seq<Status>;

    open spec fn deep_view(&self) -> Seq<Status> {
        statuses_items(*self)
    }
}

/// Calls `SmallVec::new`: the new collection holds nothing.
#[verifier::external_body]
fn statuses_new() -> (statuses: Statuses)
    ensures
        statuses_items(statuses) == Seq::<Status>::empty(),
{
    Statuses { inner: SmallVec::new() }
}

/// Calls `SmallVec::push`: the item is appended after those already held.
#[verifier::external_body]
fn statuses_push(statuses: &mut Statuses, status: Status)
    ensures
        statuses_items(*final(statuses)) == statuses_items(*old(statuses)).push(status),
{
    statuses.inner.push(status)
}

/// Calls `SmallVec::len`: the number of items held.
#[verifier::external_body]
fn statuses_len(statuses: &Statuses) -> (len: usize)
    ensures
        len == statuses_items(*statuses).len(),
{
    statuses.inner.len()
}

/// Indexes the `SmallVec` as a slice: the item at `index`, which must be in range.
#[verifier::external_body]
fn statuses_get(statuses: &Statuses, index: usize) -> (status: Status)
    requires
        index < statuses_items(*statuses).len(),
    ensures
        status == statuses_items(*statuses)[index as int],
{
    statuses.inner[index]
}

impl Clone for Statuses {
    /// Calls `SmallVec::clone`: the copy holds the same items in the same order.
    #[verifier::external_body]
    fn clone(&self) -> (copy: Statuses)
        ensures
            statuses_items(copy) == statuses_items(*self),
    {
        Statuses { inner: self.inner.clone() }
    }
}

impl Default for Statuses {
    fn default() -> (statuses: Statuses)
        ensures
            statuses@ == Seq::<Status>::empty(),
    {
        statuses_new()
    }
}

impl Statuses {
    /// An empty collection.
    pub fn new() -> (statuses: Statuses)
        ensures
            statuses@ == Seq::<Status>::empty(),
    {
        statuses_new()
    }

    /// Appends a status.
    pub fn push(&mut self, status: Status)
        ensures
            final(self)@ == old(self)@.push(status),
    {
        statuses_push(self, status)
    }

    /// The number of statuses held.
    pub fn len(&self) -> (len: usize)
        ensures
            len == self@.len(),
    {
        statuses_len(self)
    }

    /// The status at `index`, if there is one.
    pub fn get(&self, index: usize) -> (status: Option<Status>)
        ensures
            status == (if index < self@.len() {
                Some(self@[index as int])
            } else {
                None
            }),
    {
        if index < statuses_len(self) {
            Some(statuses_get(self, index))
        } else {
            None
        }
    }

    /// Collects statuses from a vector, keeping their order.
    pub fn from_vec(items: Vec<Status>) -> (statuses: Statuses)
        ensures
            statuses@ == items@,
    {
        let mut statuses = statuses_new();
        let mut i: usize = 0;
        while i < items.len()
            invariant
                i <= items.len(),
                statuses@ == items@.take(i as int),
            decreases items.len() - i,
        {
            statuses_push(&mut statuses, items[i]);
            i += 1;
            assert(items@.take(i as int) =~= items@.take(i - 1).push(items@[i - 1]));
        }
        assert(items@.take(i as int) =~= items@);
        statuses
    }

    /// The statuses as a vector, in order.
    pub fn to_vec(&self) -> (items: Vec<Status>)
        ensures
            items@ == self@,
    {
        let mut items: Vec<Status> = Vec::new();
        let n = statuses_len(self);
        let mut i: usize = 0;
        while i < n
            invariant
                i <= n,
                n == self@.len(),
                items@ == self@.take(i as int),
            decreases n - i,
        {
            items.push(statuses_get(self, i));
            i += 1;
            assert(self@.take(i as int) =~= self@.take(i - 1).push(self@[i - 1]));
        }
        assert(self@.take(i as int) =~= self@);
        items
    }
}

} // verus!
