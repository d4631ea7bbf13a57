//! Markers: the identifiers that tie a submitted update to the report of
//! its completion, and the book that is kept of them.
//!
//! A marker is allocated when an update is about to be submitted, is issued
//! once the device has accepted the update, and is retired when the update
//! has been waited for or the device has refused it.

use vstd::prelude::*;
use vstd::seq_lib::seq_to_set_is_finite;
use vstd::set_lib::lemma_len_subset;

verus! {

/// Identifier of a submitted update. Never zero.
#[derive(Clone, Copy, Debug, PartialEq, Eq, Structural)]
pub struct UpdateMarker {
    pub id: u32,
}

/// One line of the book: a marker and whether the device has accepted the
/// update that carries it.
#[derive(Clone, Copy, Debug, PartialEq, Eq, Structural)]
pub struct MarkerEntry {
    pub marker: UpdateMarker,
    pub issued: bool,
}

/// Number of identifiers there are: every 32-bit value but zero.
pub const MARKER_SPACE: u32 = 0xFFFF_FFFF;

/// The `k`-th identifier after `start`, where the first follows the last.
pub open spec fn candidate(start: u32, k: nat) -> UpdateMarker {
    if start + k <= MARKER_SPACE {
        UpdateMarker { id: (start + k) as u32 }
    } else {
        UpdateMarker { id: (start + k - MARKER_SPACE) as u32 }
    }
}

/// The oldest entry of `entries` that has been issued, if there is one.
pub open spec fn oldest_issued(entries: Seq<MarkerEntry>) -> Option<UpdateMarker>
    decreases entries.len(),
{
    if entries.len() == 0 {
        None
    } else if entries[0].issued {
        Some(entries[0].marker)
    } else {
        oldest_issued(entries.drop_first())
    }
}

/// What the book holds: the identifier at which the search for a free one
/// starts, and the markers in the order in which they were allocated.
pub struct TrackerModel {
    pub next: u32,
    pub entries: Seq<MarkerEntry>,
}

impl TrackerModel {
    /// No marker is zero, none stands twice in the book, and the search
    /// starts at an identifier.
    pub open spec fn wf(self) -> bool {
        &&& self.next != 0
        &&& forall|i: int| 0 <= i < self.entries.len() ==> (#[trigger] self.entries[i]).marker.id != 0
        &&& forall|i: int, j: int|
            0 <= i < j < self.entries.len() ==> (#[trigger] self.entries[i]).marker != (
            #[trigger] self.entries[j]).marker
    }

    /// Whether the marker stands in the book.
    pub open spec fn tracks(self, marker: UpdateMarker) -> bool {
        exists|i: int| 0 <= i < self.entries.len() && (#[trigger] self.entries[i]).marker == marker
    }

    /// Whether the marker was allocated and its update is not yet accepted.
    pub open spec fn is_pending(self, marker: UpdateMarker) -> bool {
        exists|i: int|
            0 <= i < self.entries.len() && (#[trigger] self.entries[i]).marker == marker
                && !self.entries[i].issued
    }

    /// Whether the marker was issued and is not yet retired.
    pub open spec fn is_outstanding(self, marker: UpdateMarker) -> bool {
        exists|i: int|
            0 <= i < self.entries.len() && (#[trigger] self.entries[i]).marker == marker
                && self.entries[i].issued
    }

    /// Where the marker stands in the book.
    pub open spec fn position(self, marker: UpdateMarker) -> int {
        choose|i: int| 0 <= i < self.entries.len() && (#[trigger] self.entries[i]).marker == marker
    }

    /// How many identifiers from `next` on, counted from the `k`-th, are
    /// taken before the first free one.
    pub open spec fn taken_from(self, k: nat) -> nat
        decreases self.entries.len() - k,
    {
        if k >= self.entries.len() || !self.tracks(candidate(self.next, k)) {
            k
        } else {
            self.taken_from(k + 1)
        }
    }

    /// The marker that the next allocation hands out: the first free
    /// identifier from `next` on. There is none where every identifier is
    /// taken.
    pub open spec fn fresh(self) -> Option<UpdateMarker> {
        if self.entries.len() >= MARKER_SPACE {
            None
        } else {
            Some(candidate(self.next, self.taken_from(0)))
        }
    }

    /// The book after an allocation.
    pub open spec fn after_allocate(self) -> TrackerModel {
        match self.fresh() {
            None => self,
            Some(m) => TrackerModel {
                next: candidate(m.id, 1).id,
                entries: self.entries.push(MarkerEntry { marker: m, issued: false }),
            },
        }
    }

    /// The book after the device has accepted the update of `marker`.
    pub open spec fn after_issue(self, marker: UpdateMarker) -> TrackerModel {
        if self.is_pending(marker) {
            TrackerModel {
                next: self.next,
                entries: self.entries.update(
                    self.position(marker),
                    MarkerEntry { marker, issued: true },
                ),
            }
        } else {
            self
        }
    }

    /// The book after `marker` has been retired.
    pub open spec fn after_retire(self, marker: UpdateMarker) -> TrackerModel {
        if self.tracks(marker) {
            TrackerModel { next: self.next, entries: self.entries.remove(self.position(marker)) }
        } else {
            self
        }
    }

    /// The outstanding marker that was allocated first.
    pub open spec fn oldest_outstanding(self) -> Option<UpdateMarker> {
        oldest_issued(self.entries)
    }
}

/// The identifiers after `start` differ from one another until they have
/// all been passed.
pub proof fn lemma_candidates_differ(start: u32, j: nat, k: nat)
    requires
        start != 0,
        j < k < MARKER_SPACE,
    ensures
        candidate(start, j) != candidate(start, k),
        candidate(start, j).id != 0,
        candidate(start, k).id != 0,
{
}

/// Where each of the first `n` identifiers from `next` on stands in the
/// book, the book has at least `n` lines.
pub proof fn lemma_taken_fit(t: TrackerModel, n: nat)
    requires
        t.next != 0,
        n <= MARKER_SPACE,
        forall|j: nat| j < n ==> t.tracks(#[trigger] candidate(t.next, j)),
    ensures
        n <= t.entries.len(),
{
    broadcast use seq_to_set_is_finite;

    let taken = Seq::new(n, |j: int| candidate(t.next, j as nat));
    let held = Seq::new(t.entries.len(), |i: int| t.entries[i].marker);
    assert forall|i: int, j: int| 0 <= i < taken.len() && 0 <= j < taken.len() && i != j implies taken[i]
        != taken[j] by {
        if i < j {
            lemma_candidates_differ(t.next, i as nat, j as nat);
        } else {
            lemma_candidates_differ(t.next, j as nat, i as nat);
        }
    }
    assert forall|m: UpdateMarker| taken.to_set().contains(m) implies held.to_set().contains(m) by {
        let j = choose|j: int| 0 <= j < taken.len() && taken[j] == m;
        assert(t.tracks(candidate(t.next, j as nat)));
        let i = choose|i: int| 0 <= i < t.entries.len() && (#[trigger] t.entries[i]).marker == m;
        assert(held[i] == m);
    }
    taken.unique_seq_to_set();
    held.lemma_cardinality_of_set();
    lemma_len_subset(taken.to_set(), held.to_set());
}

/// The marker that an allocation hands out is no zero, does not stand in
/// the book, and is the first such identifier from `next` on.
pub proof fn lemma_fresh_is_free(t: TrackerModel)
    requires
        t.wf(),
        t.fresh().is_some(),
    ensures
        t.fresh().unwrap().id != 0,
        !t.tracks(t.fresh().unwrap()),
        t.fresh().unwrap() == candidate(t.next, t.taken_from(0)),
        t.taken_from(0) <= t.entries.len(),
        forall|j: nat| j < t.taken_from(0) ==> t.tracks(#[trigger] candidate(t.next, j)),
{
    lemma_taken_from(t, 0);
    let k = t.taken_from(0);
    if k > 0 {
        lemma_candidates_differ(t.next, 0, k);
    }
}

/// From the `k`-th identifier on, the search stops at a free one within
/// the length of the book, having passed taken ones only.
proof fn lemma_taken_from(t: TrackerModel, k: nat)
    requires
        t.next != 0,
        t.entries.len() < MARKER_SPACE,
        k <= t.entries.len(),
        forall|j: nat| j < k ==> t.tracks(#[trigger] candidate(t.next, j)),
    ensures
        k <= t.taken_from(k) <= t.entries.len(),
        !t.tracks(candidate(t.next, t.taken_from(k))),
        forall|j: nat| j < t.taken_from(k) ==> t.tracks(#[trigger] candidate(t.next, j)),
    decreases t.entries.len() - k,
{
    if !t.tracks(candidate(t.next, k)) {
    } else {
        lemma_taken_fit(t, k + 1);
        lemma_taken_from(t, k + 1);
    }
}

/// An allocation keeps the book well formed.
pub proof fn lemma_allocate_keeps_wf(t: TrackerModel)
    requires
        t.wf(),
    ensures
        t.after_allocate().wf(),
{
    if t.fresh().is_some() {
        lemma_fresh_is_free(t);
        let m = t.fresh().unwrap();
        let u = t.after_allocate();
        assert(candidate(m.id, 1).id != 0);
        assert forall|i: int, j: int| 0 <= i < j < u.entries.len() implies (#[trigger] u.entries[i]).marker
            != (#[trigger] u.entries[j]).marker by {
            if j == t.entries.len() {
                assert(t.entries[i].marker != m);
            } else {
                assert(t.entries[i].marker != t.entries[j].marker);
            }
        }
    }
}

/// What an allocation hands out that follows `n` others, none of the
/// markers being retired in between.
pub open spec fn nth_allocation(t: TrackerModel, n: nat) -> Option<UpdateMarker>
    decreases n,
{
    if n == 0 {
        t.fresh()
    } else {
        nth_allocation(t.after_allocate(), (n - 1) as nat)
    }
}

/// The book after `n` allocations.
pub open spec fn after_allocations(t: TrackerModel, n: nat) -> TrackerModel
    decreases n,
{
    if n == 0 {
        t
    } else {
        after_allocations(t.after_allocate(), (n - 1) as nat)
    }
}

/// Allocations never take a marker out of the book.
pub proof fn lemma_allocations_keep(t: TrackerModel, n: nat, m: UpdateMarker)
    requires
        t.wf(),
        t.tracks(m),
    ensures
        after_allocations(t, n).wf(),
        after_allocations(t, n).tracks(m),
    decreases n,
{
    if n > 0 {
        lemma_allocate_keeps_wf(t);
        let u = t.after_allocate();
        let i = choose|i: int| 0 <= i < t.entries.len() && (#[trigger] t.entries[i]).marker == m;
        assert(u.entries[i].marker == m);
        lemma_allocations_keep(u, (n - 1) as nat, m);
    }
}

/// What the `n`-th allocation hands out is what the book after `n`
/// allocations hands out next.
pub proof fn lemma_nth_allocation(t: TrackerModel, n: nat)
    ensures
        nth_allocation(t, n) == after_allocations(t, n).fresh(),
    decreases n,
{
    if n > 0 {
        lemma_nth_allocation(t.after_allocate(), (n - 1) as nat);
    }
}

/// Uniqueness of markers: of any number of allocations made one after the
/// other, no two hand out the same marker.
pub proof fn lemma_allocations_distinct(t: TrackerModel, i: nat, j: nat)
    requires
        t.wf(),
        i < j,
        nth_allocation(t, i).is_some(),
        nth_allocation(t, j).is_some(),
    ensures
        nth_allocation(t, i) != nth_allocation(t, j),
    decreases i,
{
    lemma_allocate_keeps_wf(t);
    if i == 0 {
        let m = t.fresh().unwrap();
        let u = t.after_allocate();
        assert(u.entries[t.entries.len() as int].marker == m);
        assert(u.tracks(m));
        lemma_allocations_keep(u, (j - 1) as nat, m);
        lemma_nth_allocation(u, (j - 1) as nat);
        lemma_fresh_is_free(after_allocations(u, (j - 1) as nat));
    } else {
        lemma_allocations_distinct(t.after_allocate(), (i - 1) as nat, (j - 1) as nat);
    }
}

/// The oldest outstanding marker is outstanding, and every marker that was
/// allocated before it is still pending.
pub proof fn lemma_oldest_is_first(entries: Seq<MarkerEntry>)
    ensures
        match oldest_issued(entries) {
            None => forall|i: int| 0 <= i < entries.len() ==> !(#[trigger] entries[i]).issued,
            Some(m) => exists|k: int|
                0 <= k < entries.len() && (#[trigger] entries[k]).marker == m && entries[k].issued
                    && forall|i: int| 0 <= i < k ==> !(#[trigger] entries[i]).issued,
        },
    decreases entries.len(),
{
    if entries.len() == 0 {
    } else if entries[0].issued {
        assert(entries[0].marker == oldest_issued(entries).unwrap());
    } else {
        let rest = entries.drop_first();
        lemma_oldest_is_first(rest);
        match oldest_issued(rest) {
            None => {
                assert forall|i: int| 0 <= i < entries.len() implies !(#[trigger] entries[i]).issued by {
                    if i > 0 {
                        assert(rest[i - 1] == entries[i]);
                    }
                }
            },
            Some(m) => {
                let k = choose|k: int|
                    0 <= k < rest.len() && (#[trigger] rest[k]).marker == m && rest[k].issued
                        && forall|i: int| 0 <= i < k ==> !(#[trigger] rest[i]).issued;
                assert(entries[k + 1] == rest[k]);
                assert forall|i: int| 0 <= i < k + 1 implies !(#[trigger] entries[i]).issued by {
                    if i > 0 {
                        assert(rest[i - 1] == entries[i]);
                    }
                }
            },
        }
    }
}

/// The book of markers.
pub struct MarkerTracker {
    next: u32,
    entries: Vec<MarkerEntry>,
}

impl View for MarkerTracker {
    type V = TrackerModel;

    closed spec fn view(&self) -> TrackerModel {
        TrackerModel { next: self.next, entries: self.entries@ }
    }
}

impl MarkerTracker {
    /// Whether the book is well formed. Every operation keeps it so.
    pub open spec fn wf(&self) -> bool {
        self@.wf()
    }

    /// An empty book, whose first marker will be 1.
    pub fn new() -> (t: MarkerTracker)
        ensures
            t.wf(),
            t@.next == 1,
            t@.entries == Seq::<MarkerEntry>::empty(),
    {
        MarkerTracker { next: 1, entries: Vec::new() }
    }

    /// An empty book, whose first marker will be `first`, or 1 where
    /// `first` is zero.
    pub fn starting_at(first: u32) -> (t: MarkerTracker)
        ensures
            t.wf(),
            t@.next == (if first == 0 {
                1u32
            } else {
                first
            }),
            t@.entries == Seq::<MarkerEntry>::empty(),
    {
        MarkerTracker {
            next: if first == 0 {
                1
            } else {
                first
            },
            entries: Vec::new(),
        }
    }

    /// Where the marker stands in the book, if it does.
    fn find(&self, marker: UpdateMarker) -> (r: Option<usize>)
        requires
            self.wf(),
        ensures
            match r {
                Some(i) => i < self@.entries.len() && self@.entries[i as int].marker == marker
                    && self@.tracks(marker) && self@.position(marker) == i,
                None => !self@.tracks(marker),
            },
    {
        let mut i: usize = 0;
        while i < self.entries.len()
            invariant
                self.wf(),
                i <= self.entries.len(),
                forall|j: int| 0 <= j < i ==> (#[trigger] self.entries@[j]).marker != marker,
            decreases self.entries.len() - i,
        {
            if self.entries[i].marker.id == marker.id {
                proof {
                    assert(self@.entries[i as int].marker == marker);
                    let p = self@.position(marker);
                    assert(self@.entries[p].marker == marker);
                    if p < i {
                        assert(self@.entries[p].marker != self@.entries[i as int].marker);
                    } else if i < p {
                        assert(self@.entries[i as int].marker != self@.entries[p].marker);
                    }
                }
                return Some(i);
            }
            i += 1;
        }
        None
    }

    /// How many markers stand in the book.
    pub fn len(&self) -> (n: usize)
        ensures
            n == self@.entries.len(),
    {
        self.entries.len()
    }

    /// Whether the marker stands in the book.
    pub fn is_tracked(&self, marker: UpdateMarker) -> (b: bool)
        requires
            self.wf(),
        ensures
            b == self@.tracks(marker),
    {
        self.find(marker).is_some()
    }

    /// Whether the marker was issued and is not yet retired.
    pub fn is_outstanding(&self, marker: UpdateMarker) -> (b: bool)
        requires
            self.wf(),
        ensures
            b == self@.is_outstanding(marker),
    {
        match self.find(marker) {
            Some(i) => {
                let b: bool = self.entries[i].issued;
                proof {
                    if !b && self@.is_outstanding(marker) {
                        let p = choose|p: int|
                            0 <= p < self@.entries.len() && (#[trigger] self@.entries[p]).marker
                                == marker && self@.entries[p].issued;
                        if p < i {
                            assert(self@.entries[p].marker != self@.entries[i as int].marker);
                        } else if i < p {
                            assert(self@.entries[i as int].marker != self@.entries[p].marker);
                        }
                    }
                }
                b
            },
            None => false,
        }
    }

    /// Whether the marker was allocated and its update is not yet accepted.
    pub fn is_pending(&self, marker: UpdateMarker) -> (b: bool)
        requires
            self.wf(),
        ensures
            b == self@.is_pending(marker),
    {
        match self.find(marker) {
            Some(i) => {
                let b: bool = !self.entries[i].issued;
                proof {
                    if !b && self@.is_pending(marker) {
                        let p = choose|p: int|
                            0 <= p < self@.entries.len() && (#[trigger] self@.entries[p]).marker
                                == marker && !self@.entries[p].issued;
                        if p < i {
                            assert(self@.entries[p].marker != self@.entries[i as int].marker);
                        } else if i < p {
                            assert(self@.entries[i as int].marker != self@.entries[p].marker);
                        }
                    }
                }
                b
            },
            None => false,
        }
    }

    /// Hands out a fresh marker: one that is no zero and does not stand in
    /// the book, however long ago it may have been retired. Returns `None`
    /// where every identifier stands in the book.
    pub fn allocate(&mut self) -> (r: Option<UpdateMarker>)
        requires
            old(self).wf(),
        ensures
            final(self).wf(),
            r == old(self)@.fresh(),
            final(self)@ == old(self)@.after_allocate(),
            r matches Some(m) ==> m.id != 0 && !old(self)@.tracks(m) && final(self)@.is_pending(m),
    {
        if self.entries.len() >= 0xFFFF_FFFF {
            return None;
        }
        let mut id: u32 = self.next;
        let mut k: usize = 0;
        loop
            invariant
                self.wf(),
                *self == *old(self),
                self.entries.len() < MARKER_SPACE,
                k <= self.entries.len(),
                candidate(self.next, k as nat) == (UpdateMarker { id }),
                id != 0,
                forall|j: nat| j < k ==> self@.tracks(#[trigger] candidate(self.next, j)),
                self@.taken_from(0) == self@.taken_from(k as nat),
            ensures
                !self@.tracks(candidate(self.next, k as nat)),
            decreases self.entries.len() - k,
        {
            if self.find(UpdateMarker { id }).is_none() {
                break ;
            }
            proof {
                lemma_taken_fit(self@, (k + 1) as nat);
            }
            id = if id == 0xFFFF_FFFF {
                1
            } else {
                id + 1
            };
            k += 1;
        }
        let marker = UpdateMarker { id };
        proof {
            lemma_allocate_keeps_wf(self@);
        }
        self.next = if id == 0xFFFF_FFFF {
            1
        } else {
            id + 1
        };
        self.entries.push(MarkerEntry { marker, issued: false });
        proof {
            assert(final(self)@.entries[old(self)@.entries.len() as int].marker == marker);
        }
        Some(marker)
    }

    /// Records that the device has accepted the update of `marker`. Tells
    /// whether the marker was pending; the book is unchanged where it was not.
    pub fn issue(&mut self, marker: UpdateMarker) -> (b: bool)
        requires
            old(self).wf(),
        ensures
            final(self).wf(),
            b == old(self)@.is_pending(marker),
            final(self)@ == old(self)@.after_issue(marker),
            b ==> final(self)@.is_outstanding(marker),
    {
        if !self.is_pending(marker) {
            return false;
        }
        match self.find(marker) {
            Some(i) => {
                self.entries.set(i, MarkerEntry { marker, issued: true });
                proof {
                    assert(final(self)@.entries[i as int].marker == marker);
                    assert forall|a: int, b: int| 0 <= a < b < final(self)@.entries.len() implies (
                    #[trigger] final(self)@.entries[a]).marker != (
                    #[trigger] final(self)@.entries[b]).marker by {
                        assert(old(self)@.entries[a].marker != old(self)@.entries[b].marker);
                    }
                    assert forall|a: int| 0 <= a < final(self)@.entries.len() implies (
                    #[trigger] final(self)@.entries[a]).marker.id != 0 by {
                        assert(old(self)@.entries[a].marker.id != 0);
                    }
                }
                true
            },
            None => false,
        }
    }

    /// Retires the marker. Tells whether it stood in the book.
    pub fn retire(&mut self, marker: UpdateMarker) -> (b: bool)
        requires
            old(self).wf(),
        ensures
            final(self).wf(),
            b == old(self)@.tracks(marker),
            final(self)@ == old(self)@.after_retire(marker),
            !final(self)@.tracks(marker),
    {
        match self.find(marker) {
            Some(i) => {
                self.entries.remove(i);
                proof {
                    let before = old(self)@.entries;
                    let after = final(self)@.entries;
                    before.remove_ensures(i as int);
                    assert(after =~= before.remove(i as int));
                    assert forall|a: int| 0 <= a < after.len() implies (#[trigger] after[a]).marker.id
                        != 0 && after[a].marker != marker by {
                        if a < i {
                            assert(before[a].marker != before[i as int].marker);
                        } else {
                            assert(before[i as int].marker != before[a + 1].marker);
                        }
                    }
                    assert forall|a: int, b: int| 0 <= a < b < after.len() implies (
                    #[trigger] after[a]).marker != (#[trigger] after[b]).marker by {
                        let a0 = if a < i { a } else { a + 1 };
                        let b0 = if b < i { b } else { b + 1 };
                        assert(before[a0].marker != before[b0].marker);
                    }
                }
                true
            },
            None => false,
        }
    }

    /// The outstanding marker that was allocated first, if any is outstanding.
    pub fn oldest_outstanding(&self) -> (r: Option<UpdateMarker>)
        ensures
            r == self@.oldest_outstanding(),
    {
        let mut i: usize = 0;
        assert(self.entries@.subrange(0, self.entries@.len() as int) =~= self.entries@);
        while i < self.entries.len()
            invariant
                i <= self.entries.len(),
                oldest_issued(self.entries@) == oldest_issued(
                    self.entries@.subrange(i as int, self.entries@.len() as int),
                ),
            decreases self.entries.len() - i,
        {
            let ghost rest = self.entries@.subrange(i as int, self.entries@.len() as int);
            if self.entries[i].issued {
                assert(rest[0] == self.entries@[i as int]);
                return Some(self.entries[i].marker);
            }
            proof {
                assert(rest[0] == self.entries@[i as int]);
                assert(rest.drop_first() =~= self.entries@.subrange(
                    i + 1,
                    self.entries@.len() as int,
                ));
            }
            i += 1;
        }
        None
    }
}

} // verus!
