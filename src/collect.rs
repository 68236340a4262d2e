use vstd::prelude::*;
use crate::progress::{bar_text, progress_bar, redraw_due, redraw_due_exec};

verus! {

/// Why a query produced no report.
#[derive(Clone, Copy, Debug, PartialEq, Eq, Structural)]
pub enum DuError {
    /// The queried directory does not exist.
    NotFound,
    /// The queried directory exists but cannot be opened for reading.
    PermissionDenied,
    /// Listing the queried directory failed for another reason.
    OsError,
    /// The caller asked to stop while the walk was running.
    Cancelled,
}

impl DuError {
    /// A short description of the error.
    pub fn message(&self) -> (r: &'static str)
        ensures
            *self == DuError::NotFound ==> r@ == "Directory not found"@,
            *self == DuError::PermissionDenied ==> r@ == "Permission denied"@,
            *self == DuError::OsError ==> r@ == "Error accessing directory"@,
            *self == DuError::Cancelled ==> r@ == "Interrupted"@,
    {
        match self {
            DuError::NotFound => "Directory not found",
            DuError::PermissionDenied => "Permission denied",
            DuError::OsError => "Error accessing directory",
            DuError::Cancelled => "Interrupted",
        }
    }
}

/// The error for a queried directory that could not be listed: `NotFound`
/// when it does not exist, `PermissionDenied` when it exists but reading it
/// was refused, `OsError` otherwise.
pub fn listing_error(exists: bool, permission_denied: bool) -> (r: DuError)
    ensures
        !exists ==> r == DuError::NotFound,
        exists && permission_denied ==> r == DuError::PermissionDenied,
        exists && !permission_denied ==> r == DuError::OsError,
{
    if !exists {
        DuError::NotFound
    } else if permission_denied {
        DuError::PermissionDenied
    } else {
        DuError::OsError
    }
}

/// One child of the queried directory with its aggregate.
#[derive(Debug, PartialEq, Eq)]
pub struct ChildTotal {
    pub name: String,
    pub value: u64,
}

/// What the walk of one child's subtree produced.
#[derive(Clone, Copy, Debug, PartialEq, Eq, Structural)]
pub struct ChildOutcome {
    /// The aggregate, partial when the walk stopped early or skipped entries.
    pub value: u64,
    /// The walk stopped early because cancellation was requested.
    pub interrupted: bool,
    /// Some entry of the subtree could not be read and was skipped.
    pub unreadable: bool,
}

/// Number of filled slots.
pub open spec fn filled(slots: Seq<Option<u64>>) -> nat
    decreases slots.len(),
{
    if slots.len() == 0 {
        0
    } else {
        filled(slots.drop_last()) + if slots.last() is Some {
            1nat
        } else {
            0nat
        }
    }
}

pub proof fn lemma_filled_bounds(slots: Seq<Option<u64>>)
    ensures
        filled(slots) <= slots.len(),
        filled(slots) == slots.len() ==> forall|i: int| 0 <= i < slots.len() ==> #[trigger] slots[i] is Some,
    decreases slots.len(),
{
    if slots.len() > 0 {
        lemma_filled_bounds(slots.drop_last());
        if filled(slots) == slots.len() {
            assert forall|i: int| 0 <= i < slots.len() implies #[trigger] slots[i] is Some by {
                if i < slots.len() - 1 {
                    assert(slots[i] == slots.drop_last()[i]);
                }
            }
        }
    }
}

pub proof fn lemma_filled_update(slots: Seq<Option<u64>>, i: int, v: u64)
    requires
        0 <= i < slots.len(),
        slots[i] is None,
    ensures
        filled(slots.update(i, Some(v))) == filled(slots) + 1,
    decreases slots.len(),
{
    let t = slots.update(i, Some(v));
    if i < slots.len() - 1 {
        assert(t.drop_last() =~= slots.drop_last().update(i, Some(v)));
        lemma_filled_update(slots.drop_last(), i, v);
    } else {
        assert(t.drop_last() =~= slots.drop_last());
    }
}

/// Gathers the aggregate of each child of the queried directory as the
/// walks finish, in any order, and counts them for the progress bar.
pub struct Collector {
    names: Vec<String>,
    slots: Vec<Option<u64>>,
    completed: usize,
    interrupted: bool,
    unreadable: bool,
}

impl Collector {
    /// The children's names, in listing order.
    pub closed spec fn names_view(&self) -> Seq<String> {
        self.names@
    }

    /// The aggregate recorded for each child so far.
    pub closed spec fn slots_view(&self) -> Seq<Option<u64>> {
        self.slots@
    }

    /// Some walk stopped early because cancellation was requested.
    pub closed spec fn interrupted_view(&self) -> bool {
        self.interrupted
    }

    /// Some walk skipped an entry it could not read.
    pub closed spec fn unreadable_view(&self) -> bool {
        self.unreadable
    }

    pub closed spec fn wf(&self) -> bool {
        &&& self.names@.len() == self.slots@.len()
        &&& self.completed == filled(self.slots@)
    }

    /// Number of children whose aggregate has been recorded.
    pub open spec fn completed_view(&self) -> nat {
        filled(self.slots_view())
    }

    /// A collector for the children `names`, with nothing recorded yet.
    pub fn new(names: Vec<String>) -> (r: Collector)
        ensures
            r.wf(),
            r.names_view() == names@,
            r.slots_view() == Seq::new(names@.len(), |i: int| None::<u64>),
            !r.interrupted_view(),
            !r.unreadable_view(),
    {
        let mut slots: Vec<Option<u64>> = Vec::new();
        let n = names.len();
        while slots.len() < n
            invariant
                slots@.len() <= n,
                slots@ == Seq::new(slots@.len(), |i: int| None::<u64>),
                filled(slots@) == 0,
            decreases n - slots@.len(),
        {
            let ghost before = slots@;
            slots.push(None);
            assert(slots@.drop_last() =~= before);
            assert(slots@ =~= Seq::new(slots@.len(), |i: int| None::<u64>));
        }
        Collector { names, slots, completed: 0, interrupted: false, unreadable: false }
    }

    /// Number of children.
    pub fn child_count(&self) -> (r: usize)
        requires
            self.wf(),
        ensures
            r == self.names_view().len(),
    {
        self.names.len()
    }

    /// Number of children whose aggregate has been recorded.
    pub fn completed_count(&self) -> (r: usize)
        requires
            self.wf(),
        ensures
            r == self.completed_view(),
    {
        self.completed
    }

    /// Whether the aggregate of child `index` has been recorded.
    pub fn is_recorded(&self, index: usize) -> (r: bool)
        requires
            self.wf(),
            index < self.names_view().len(),
        ensures
            r == self.slots_view()[index as int] is Some,
    {
        self.slots[index].is_some()
    }

    /// Whether every child's aggregate has been recorded.
    pub fn is_complete(&self) -> (r: bool)
        requires
            self.wf(),
        ensures
            r == (self.completed_view() == self.names_view().len()),
    {
        self.completed == self.names.len()
    }

    /// Whether some walk skipped an entry it could not read.
    pub fn saw_unreadable(&self) -> (r: bool)
        ensures
            r == self.unreadable_view(),
    {
        self.unreadable
    }

    /// Records the outcome of the walk of child `index`, which has not been
    /// recorded before. Returns whether the progress bar is due for a redraw.
    pub fn record(&mut self, index: usize, outcome: ChildOutcome) -> (redraw: bool)
        requires
            old(self).wf(),
            index < old(self).names_view().len(),
            old(self).slots_view()[index as int] is None,
        ensures
            final(self).wf(),
            final(self).names_view() == old(self).names_view(),
            final(self).slots_view() == old(self).slots_view().update(index as int, Some(outcome.value)),
            final(self).completed_view() == old(self).completed_view() + 1,
            final(self).interrupted_view() == (old(self).interrupted_view() || outcome.interrupted),
            final(self).unreadable_view() == (old(self).unreadable_view() || outcome.unreadable),
            redraw == redraw_due(final(self).completed_view(), final(self).names_view().len()),
    {
        proof {
            lemma_filled_update(self.slots@, index as int, outcome.value);
            lemma_filled_bounds(self.slots@.update(index as int, Some(outcome.value)));
        }
        let total = self.names.len();
        self.slots.set(index, Some(outcome.value));
        self.completed = self.completed + 1;
        self.interrupted = self.interrupted || outcome.interrupted;
        self.unreadable = self.unreadable || outcome.unreadable;
        redraw_due_exec(self.completed, total)
    }

    /// The progress bar for the children recorded so far.
    pub fn progress_bar(&self) -> (r: String)
        requires
            self.wf(),
        ensures
            r@ == bar_text(self.completed_view(), self.names_view().len()),
    {
        proof {
            lemma_filled_bounds(self.slots@);
        }
        progress_bar(self.completed, self.names.len())
    }

    /// The result of the query once every child is recorded: `Cancelled` when
    /// cancellation was requested (`cancel_requested`) or some walk stopped
    /// early for it; otherwise exactly one row per child, in listing order,
    /// holding its name and recorded aggregate.
    pub fn finish(self, cancel_requested: bool) -> (r: Result<Vec<ChildTotal>, DuError>)
        requires
            self.wf(),
            self.completed_view() == self.names_view().len(),
        ensures
            (cancel_requested || self.interrupted_view()) ==> r == Err::<Vec<ChildTotal>, DuError>(
                DuError::Cancelled,
            ),
            !(cancel_requested || self.interrupted_view()) ==> r is Ok,
            r is Ok ==> {
                let rows = r->Ok_0@;
                &&& rows.len() == self.names_view().len()
                &&& forall|i: int|
                    0 <= i < rows.len() ==> (#[trigger] rows[i]).name == self.names_view()[i]
                        && Some(rows[i].value) == self.slots_view()[i]
            },
    {
        if cancel_requested || self.interrupted {
            return Err(DuError::Cancelled);
        }
        proof {
            lemma_filled_bounds(self.slots@);
        }
        let mut rows: Vec<ChildTotal> = Vec::new();
        let n = self.names.len();
        while rows.len() < n
            invariant
                self.wf(),
                n == self.names@.len(),
                forall|i: int| 0 <= i < n ==> #[trigger] self.slots@[i] is Some,
                rows@.len() <= n,
                forall|i: int|
                    0 <= i < rows@.len() ==> (#[trigger] rows@[i]).name == self.names@[i] && Some(
                        rows@[i].value,
                    ) == self.slots@[i],
            decreases n - rows@.len(),
        {
            let i = rows.len();
            let value = match self.slots[i] {
                Some(v) => v,
                None => 0,
            };
            rows.push(ChildTotal { name: self.names[i].clone(), value });
        }
        Ok(rows)
    }
}

} // verus!
