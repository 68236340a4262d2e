use vstd::prelude::*;
use crate::collect::ChildOutcome;

verus! {

/// What a subtree walk adds up for each entry it meets.
#[derive(Clone, Copy, Debug, PartialEq, Eq, Structural)]
pub enum Mode {
    /// Disk usage: each regular file adds its length rounded up to kibibytes.
    Size,
    /// Entry count: each file-system entry adds one.
    Inodes,
}

/// Kind of a file-system entry as the walk reports it, without following links.
#[derive(Clone, Copy, Debug, PartialEq, Eq, Structural)]
pub enum EntryKind {
    File,
    Dir,
    Symlink,
    /// Anything else: a fifo, a socket, a device.
    Other,
}

/// How many entries are visited between two looks at the cancellation flag.
pub const POLL_EVERY: u64 = 1000;

/// Number of whole kibibytes needed to hold `bytes` bytes, rounded up.
pub open spec fn kib_ceil(bytes: nat) -> nat {
    if bytes % 1024 == 0 {
        bytes / 1024
    } else {
        bytes / 1024 + 1
    }
}

/// What one visited entry adds to its subtree's aggregate.
pub open spec fn contribution(mode: Mode, kind: EntryKind, bytes: u64) -> nat {
    match mode {
        Mode::Size => if kind == EntryKind::File {
            kib_ceil(bytes as nat)
        } else {
            0
        },
        Mode::Inodes => 1,
    }
}

/// The aggregate of a walk that visited `items` (kind and byte length of each entry).
pub open spec fn aggregate(mode: Mode, items: Seq<(EntryKind, u64)>) -> nat
    decreases items.len(),
{
    if items.len() == 0 {
        0
    } else {
        aggregate(mode, items.drop_last()) + contribution(mode, items.last().0, items.last().1)
    }
}

/// Sum of the aggregates of several walks, taken one by one.
pub open spec fn sum_of_parts(mode: Mode, parts: Seq<Seq<(EntryKind, u64)>>) -> nat
    decreases parts.len(),
{
    if parts.len() == 0 {
        0
    } else {
        aggregate(mode, parts.first()) + sum_of_parts(mode, parts.drop_first())
    }
}

/// `x` as a `u64`, held at `u64::MAX` when it does not fit.
pub open spec fn saturate(x: nat) -> u64 {
    if x <= u64::MAX {
        x as u64
    } else {
        u64::MAX
    }
}

/// Rounds a byte length up to whole kibibytes: `ceil(bytes / 1024)`.
pub fn round_up_kb(bytes: u64) -> (r: u64)
    ensures
        r == kib_ceil(bytes as nat),
        r * 1024 >= bytes,
        r * 1024 < bytes + 1024,
{
    let whole = bytes / 1024;
    if bytes % 1024 == 0 {
        whole
    } else {
        whole + 1
    }
}

/// The aggregate of a walk is the sum of the aggregates of its two halves.
pub proof fn lemma_aggregate_append(mode: Mode, a: Seq<(EntryKind, u64)>, b: Seq<(EntryKind, u64)>)
    ensures
        aggregate(mode, a + b) == aggregate(mode, a) + aggregate(mode, b),
    decreases b.len(),
{
    if b.len() == 0 {
        assert(a + b =~= a);
    } else {
        lemma_aggregate_append(mode, a, b.drop_last());
        assert((a + b).drop_last() =~= a + b.drop_last());
        assert((a + b).last() == b.last());
    }
}

/// Removing one entry from a walk removes its contribution from the aggregate.
pub proof fn lemma_aggregate_remove(mode: Mode, items: Seq<(EntryKind, u64)>, i: int)
    requires
        0 <= i < items.len(),
    ensures
        aggregate(mode, items) == aggregate(mode, items.remove(i)) + contribution(
            mode,
            items[i].0,
            items[i].1,
        ),
    decreases items.len(),
{
    if i == items.len() - 1 {
        assert(items.remove(i) =~= items.drop_last());
    } else {
        assert(items.remove(i).drop_last() =~= items.drop_last().remove(i));
        lemma_aggregate_remove(mode, items.drop_last(), i);
    }
}

/// The aggregate does not depend on the order in which the walk meets the
/// entries: two walks that visit the same entries, each as many times, agree.
pub proof fn lemma_aggregate_order_independent(
    mode: Mode,
    a: Seq<(EntryKind, u64)>,
    b: Seq<(EntryKind, u64)>,
)
    requires
        a.to_multiset() == b.to_multiset(),
    ensures
        aggregate(mode, a) == aggregate(mode, b),
    decreases a.len(),
{
    broadcast use vstd::seq_lib::group_to_multiset_ensures;

    if a.len() == 0 {
        assert(a.to_multiset().len() == 0);
        assert(b.to_multiset().len() == 0);
    } else {
        let x = a.last();
        assert(a =~= a.drop_last().push(x));
        assert(a.to_multiset().count(x) > 0);
        assert(b.contains(x));
        let j = choose|j: int| 0 <= j < b.len() && b[j] == x;
        vstd::seq_lib::to_multiset_remove(b, j);
        vstd::seq_lib::to_multiset_build(a.drop_last(), x);
        assert(a.drop_last().to_multiset() =~= b.remove(j).to_multiset()) by {
            broadcast use vstd::multiset::group_multiset_axioms;

        }
        lemma_aggregate_order_independent(mode, a.drop_last(), b.remove(j));
        lemma_aggregate_remove(mode, b, j);
    }
}

/// Walking independent subtrees separately and adding up their aggregates gives
/// the same total as one walk that visits all of them in sequence, in either mode.
pub proof fn lemma_parallel_matches_sequential(mode: Mode, parts: Seq<Seq<(EntryKind, u64)>>)
    ensures
        sum_of_parts(mode, parts) == aggregate(mode, parts.flatten()),
    decreases parts.len(),
{
    if parts.len() > 0 {
        lemma_parallel_matches_sequential(mode, parts.drop_first());
        lemma_aggregate_append(mode, parts.first(), parts.drop_first().flatten());
    }
}

/// Cancellation is seen within one polling interval: whatever number `n` of
/// entries a walk has visited, [`Tally::visit`] asks for a look at the
/// cancellation flag again after at most [`POLL_EVERY`] more entries.
pub proof fn lemma_poll_within_interval(n: nat)
    ensures
        exists|k: nat| n < k <= n + POLL_EVERY && #[trigger] (k % (POLL_EVERY as nat)) == 0,
{
    let k: nat = (n / (POLL_EVERY as nat) + 1) * (POLL_EVERY as nat);
    assert(n < k <= n + POLL_EVERY && k % (POLL_EVERY as nat) == 0) by (nonlinear_arith)
        requires
            k == (n / (POLL_EVERY as nat) + 1) * (POLL_EVERY as nat),
            POLL_EVERY == 1000;
}

/// Running aggregate of one subtree walk.
///
/// The walk itself happens elsewhere: each entry it yields is handed to
/// [`Tally::visit`], which also says when the cancellation flag is due to be read.
pub struct Tally {
    mode: Mode,
    total: u64,
    since_poll: u64,
    unreadable: bool,
    seen: Ghost<Seq<(EntryKind, u64)>>,
}

impl Tally {
    /// The entries visited so far, in order.
    pub closed spec fn seen(&self) -> Seq<(EntryKind, u64)> {
        self.seen@
    }

    pub closed spec fn mode(&self) -> Mode {
        self.mode
    }

    /// Some entry of the subtree could not be read and was skipped.
    pub closed spec fn unreadable_view(&self) -> bool {
        self.unreadable
    }

    pub closed spec fn wf(&self) -> bool {
        &&& self.total == saturate(aggregate(self.mode, self.seen@))
        &&& self.since_poll == self.seen@.len() % (POLL_EVERY as nat)
    }

    /// The aggregate of everything visited so far, held at `u64::MAX` if larger.
    pub open spec fn spec_total(&self) -> u64 {
        saturate(aggregate(self.mode(), self.seen()))
    }

    /// A walk that has visited nothing yet.
    pub fn new(mode: Mode) -> (r: Tally)
        ensures
            r.wf(),
            r.mode() == mode,
            r.seen() == Seq::<(EntryKind, u64)>::empty(),
            !r.unreadable_view(),
    {
        Tally { mode, total: 0, since_poll: 0, unreadable: false, seen: Ghost(Seq::empty()) }
    }

    /// Records one visited entry of kind `kind` whose length is `bytes`
    /// (the length matters only for regular files in [`Mode::Size`]).
    ///
    /// Returns `true` when the number of entries visited so far is a multiple
    /// of [`POLL_EVERY`]: the walker should then read the cancellation flag.
    pub fn visit(&mut self, kind: EntryKind, bytes: u64) -> (poll: bool)
        requires
            old(self).wf(),
        ensures
            final(self).wf(),
            final(self).mode() == old(self).mode(),
            final(self).seen() == old(self).seen().push((kind, bytes)),
            final(self).unreadable_view() == old(self).unreadable_view(),
            poll == (final(self).seen().len() % (POLL_EVERY as nat) == 0),
    {
        let ghost before = self.seen@;
        let add: u64 = match self.mode {
            Mode::Size => if kind == EntryKind::File {
                round_up_kb(bytes)
            } else {
                0
            },
            Mode::Inodes => 1,
        };
        self.seen = Ghost(before.push((kind, bytes)));
        proof {
            assert(self.seen@.drop_last() =~= before);
        }
        self.total = self.total.saturating_add(add);
        let poll = self.since_poll + 1 == POLL_EVERY;
        if poll {
            self.since_poll = 0;
        } else {
            self.since_poll = self.since_poll + 1;
        }
        poll
    }

    /// The aggregate of everything visited so far, held at `u64::MAX` if larger.
    pub fn total(&self) -> (r: u64)
        requires
            self.wf(),
        ensures
            r == self.spec_total(),
    {
        self.total
    }

    /// Notes that the walk met an entry it could not read and skipped it.
    pub fn skip_unreadable(&mut self)
        requires
            old(self).wf(),
        ensures
            final(self).wf(),
            final(self).mode() == old(self).mode(),
            final(self).seen() == old(self).seen(),
            final(self).unreadable_view(),
    {
        self.unreadable = true;
    }

    /// What the walk produced; `interrupted` tells whether it stopped early
    /// because cancellation was requested.
    pub fn outcome(&self, interrupted: bool) -> (r: ChildOutcome)
        requires
            self.wf(),
        ensures
            r.value == self.spec_total(),
            r.interrupted == interrupted,
            r.unreadable == self.unreadable_view(),
    {
        ChildOutcome { value: self.total, interrupted, unreadable: self.unreadable }
    }
}

} // verus!
