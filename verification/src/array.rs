//! The aggregation slot: one shared result built from the cells of many
//! independent producers.
//!
//! A slot is created over a row of empty storage cells, one per producer,
//! together with one move-only [`Sender`] handle per cell. Each handle is
//! consumed exactly once, by depositing a value into its own cell
//! ([`Sender::send`]) or by bowing out ([`Sender::decline`]). The slot counts
//! the outstanding handles; the operation that consumes the last one is the
//! unique finalizer. A finalizing send receives a [`SenderIter`] over every
//! deposited value, in cell order; a finalizing decline discards whatever was
//! deposited.

use vstd::prelude::*;

verus! {

use vstd::set_lib::set_int_range;

/// A single storage cell: holds at most one value, written at most once by
/// the producer that owns it and read at most once by the finalizer.
#[derive(Debug)]
pub struct Element<T> {
    value: Option<T>,
}

impl<T> View for Element<T> {
    type V = Option<T>;

    closed spec fn view(&self) -> Option<T> {
        self.value
    }
}

impl<T> Default for Element<T> {
    /// A fresh cell is empty; this is the only way to make one.
    fn default() -> (r: Self)
        ensures
            r@ is None,
    {
        Element { value: None }
    }
}

impl<T> Element<T> {
    /// A row of `count` empty cells, ready to back an aggregation slot.
    pub fn vec(count: usize) -> (r: Vec<Element<T>>)
        ensures
            r@.len() == count,
            forall|i: int| 0 <= i < count ==> r@[i]@ is None,
    {
        let mut v: Vec<Element<T>> = Vec::new();
        while v.len() < count
            invariant
                v@.len() <= count,
                forall|i: int| 0 <= i < v@.len() ==> v@[i]@ is None,
            decreases count - v@.len(),
        {
            v.push(Element { value: None });
        }
        v
    }

    /// An array of `N` empty cells, ready to back an aggregation slot.
    ///
    /// Relies on `core::array::from_fn`: it fills each position of the array
    /// with the closure's result for that position's index; the closure here
    /// builds an empty cell.
    #[verifier::external_body]
    pub fn array<const N: usize>() -> (r: [Element<T>; N])
        ensures
            forall|i: int| 0 <= i < N ==> r@[i]@ is None,
    {
        core::array::from_fn(|_| Element::default())
    }

    /// Deposit a value into an empty cell.
    pub(crate) fn place(&mut self, data: T)
        requires
            old(self)@ is None,
        ensures
            final(self)@ == Some(data),
    {
        self.value = Some(data);
    }

    /// Read the cell out, consuming it.
    pub(crate) fn take(self) -> (r: Option<T>)
        ensures
            r == self@,
    {
        self.value
    }
}

/// The view of a slot's cell row.
pub open spec fn cells_of<T>(place: Seq<Element<T>>) -> Seq<Option<T>> {
    place.map_values(|e: Element<T>| e@)
}

/// A row of `n` cells with nothing deposited yet.
pub open spec fn fresh_cells<T>(n: nat) -> Seq<Option<T>> {
    Seq::new(n, |i: int| None::<T>)
}

/// The cell row after index `i` receives the value `x`.
pub open spec fn deposit<T>(cells: Seq<Option<T>>, i: int, x: T) -> Seq<Option<T>> {
    cells.update(i, Some(x))
}

/// An aggregation slot: a row of cells and the count of handles that have
/// not yet acted on it.
pub struct Slot<T> {
    place: Vec<Element<T>>,
    count: usize,
    outstanding: Ghost<Set<int>>,
}

impl<T> Slot<T> {
    /// The slot's cells, as what each currently holds.
    pub closed spec fn cells(self) -> Seq<Option<T>> {
        cells_of(self.place@)
    }

    /// The indices whose handles have not yet sent or declined.
    pub closed spec fn live(self) -> Set<int> {
        self.outstanding@
    }

    /// How many handles have not yet sent or declined.
    pub closed spec fn pending(self) -> nat {
        self.count as nat
    }

    /// Well-formedness: the count agrees with the set of outstanding
    /// indices, every outstanding index names a cell, and a cell whose
    /// handle has not acted is still empty.
    pub open spec fn wf(self) -> bool {
        &&& self.live().finite()
        &&& self.live().len() == self.pending()
        &&& forall|i: int| self.live().contains(i) ==> 0 <= i < self.cells().len()
        &&& forall|i: int| self.live().contains(i) ==> self.cells()[i] is None
    }
}

/// A producer's handle on an aggregation slot: the exclusive right to write
/// one cell, or to bow out. Move-only; consumed by either use.
#[derive(Debug)]
pub struct Sender {
    index: usize,
}

impl Sender {
    /// The cell this handle owns.
    pub closed spec fn index(self) -> int {
        self.index as int
    }

    fn with_index(index: usize) -> (s: Sender)
        ensures
            s.index() == index,
    {
        Sender { index }
    }

    /// Deposit `value` into this handle's own cell and consume the handle.
    /// Every call but the last returns `Ok`; the call that consumes the last
    /// outstanding handle instead receives the iterator over everything that
    /// was deposited, and the slot is left spent.
    pub fn send<T>(self, slot: &mut Slot<T>, value: T) -> (r: Result<(), SenderIter<T>>)
        requires
            old(slot).wf(),
            old(slot).live().contains(self.index()),
        ensures
            final(slot).wf(),
            final(slot).live() == old(slot).live().remove(self.index()),
            final(slot).pending() == old(slot).pending() - 1,
            r is Ok <==> old(slot).pending() > 1,
            old(slot).pending() > 1 ==> final(slot).cells() == deposit(
                old(slot).cells(),
                self.index(),
                value,
            ),
            old(slot).pending() == 1 ==> (r matches Err(it)
                && it.remaining() == deposit(old(slot).cells(), self.index(), value)
                && it.total() == old(slot).cells().len() && final(slot).cells().len() == 0),
    {
        proof {
            lemma_member_of_finite(old(slot).live(), self.index() as int);
        }
        let idx = self.index;
        let elem = &mut slot.place[idx];
        elem.place(value);
        proof {
            assert(slot.cells() =~= deposit(old(slot).cells(), self.index(), value));
        }
        slot.count = slot.count - 1;
        slot.outstanding = Ghost(slot.outstanding@.remove(idx as int));
        if slot.count == 0 {
            proof {
                slot.outstanding@.lemma_len0_is_empty();
            }
            let total = slot.place.len();
            let mut items: Vec<Element<T>> = Vec::new();
            core::mem::swap(&mut slot.place, &mut items);
            proof {
                assert(slot.cells() =~= Seq::<Option<T>>::empty());
            }
            Err(SenderIter { items, total })
        } else {
            Ok(())
        }
    }

    /// Bow out without depositing anything; the handle is consumed and the
    /// slot's own cell stays empty. If this was the last outstanding handle,
    /// everything deposited so far is discarded and the slot is left spent.
    pub fn decline<T>(self, slot: &mut Slot<T>)
        requires
            old(slot).wf(),
            old(slot).live().contains(self.index()),
        ensures
            final(slot).wf(),
            final(slot).live() == old(slot).live().remove(self.index()),
            final(slot).pending() == old(slot).pending() - 1,
            old(slot).pending() > 1 ==> final(slot).cells() == old(slot).cells(),
            old(slot).pending() == 1 ==> final(slot).cells().len() == 0,
    {
        proof {
            lemma_member_of_finite(old(slot).live(), self.index() as int);
        }
        slot.count = slot.count - 1;
        slot.outstanding = Ghost(slot.outstanding@.remove(self.index as int));
        if slot.count == 0 {
            proof {
                slot.outstanding@.lemma_len0_is_empty();
            }
            slot.place.clear();
            proof {
                assert(slot.cells() =~= Seq::<Option<T>>::empty());
            }
        }
    }
}

/// A member of a finite set witnesses that the set is not empty.
proof fn lemma_member_of_finite<A>(s: Set<A>, a: A)
    requires
        s.finite(),
        s.contains(a),
    ensures
        s.len() >= 1,
{
    assert(s.remove(a).len() + 1 == s.len());
}

/// The iterator over a finalized slot's deposits: it walks the cells in
/// order, yields each deposited value, and skips the cells of handles that
/// declined. Only the unique finalizing send receives one.
#[derive(Debug)]
pub struct SenderIter<T> {
    items: Vec<Element<T>>,
    total: usize,
}

impl<T> SenderIter<T> {
    /// The cells not yet passed by the cursor, with what each holds.
    pub closed spec fn remaining(self) -> Seq<Option<T>> {
        cells_of(self.items@)
    }

    /// The slot's full cell count, which never changes as the iterator
    /// advances.
    pub closed spec fn total(self) -> nat {
        self.total as nat
    }

    /// The next deposited value at or after the cursor, if any, and every
    /// cell past the one that held it.
    pub fn next(&mut self) -> (r: Option<T>)
        ensures
            (final(self).remaining(), r) == scan(old(self).remaining()),
            final(self).total() == old(self).total(),
    {
        loop
            invariant
                scan(self.remaining()) == scan(old(self).remaining()),
                self.total() == old(self).total(),
            decreases self.remaining().len(),
        {
            if self.items.len() == 0 {
                return None;
            }
            let ghost before = self.remaining();
            let head = self.items.remove(0);
            proof {
                assert(self.remaining() =~= before.skip(1));
            }
            match head.take() {
                Some(v) => {
                    return Some(v);
                },
                None => {},
            }
        }
    }

    /// The slot's full cell count, as a lower and an upper bound: presence
    /// is only knowable by scanning, so the hint reports capacity.
    pub fn size_hint(&self) -> (r: (usize, Option<usize>))
        ensures
            r.0 == self.total(),
            r.1 == Some(r.0),
    {
        (self.total, Some(self.total))
    }

    /// Drain the iterator: every deposited value at or after the cursor, in
    /// cell order.
    pub fn into_vec(self) -> (r: Vec<T>)
        ensures
            r@ == gathered(self.remaining()),
    {
        let mut it = self;
        let ghost orig = it.remaining();
        let mut out: Vec<T> = Vec::new();
        loop
            invariant
                orig == self.remaining(),
                out@ + gathered(it.remaining()) == gathered(orig),
            decreases it.remaining().len(),
        {
            let ghost pre = it.remaining();
            proof {
                lemma_scan_gathered(pre);
            }
            match it.next() {
                Some(v) => {
                    out.push(v);
                    proof {
                        assert(out@ + gathered(it.remaining()) =~= gathered(orig));
                    }
                },
                None => {
                    proof {
                        assert(out@ + gathered(pre) =~= out@);
                    }
                    return out;
                },
            }
        }
    }
}

/// One step of the iterator's walk: the cells past the first deposit, and
/// that deposit itself, or nothing when no deposit is left.
pub open spec fn scan<T>(s: Seq<Option<T>>) -> (Seq<Option<T>>, Option<T>)
    decreases s.len(),
{
    if s.len() == 0 {
        (s, None)
    } else {
        match s[0] {
            Some(v) => (s.skip(1), Some(v)),
            None => scan(s.skip(1)),
        }
    }
}

/// Every deposited value of a cell row, in cell order.
pub open spec fn gathered<T>(s: Seq<Option<T>>) -> Seq<T>
    decreases s.len(),
{
    if s.len() == 0 {
        Seq::empty()
    } else {
        match s[0] {
            Some(v) => seq![v] + gathered(s.skip(1)),
            None => gathered(s.skip(1)),
        }
    }
}

/// One iterator step peels the first element of `gathered` off, and a step
/// that yields nothing means nothing was left.
proof fn lemma_scan_gathered<T>(s: Seq<Option<T>>)
    ensures
        match scan(s).1 {
            Some(v) => gathered(s) == seq![v] + gathered(scan(s).0) && scan(s).0.len() < s.len(),
            None => gathered(s).len() == 0 && scan(s).0.len() == 0,
        },
    decreases s.len(),
{
    if s.len() == 0 {
    } else {
        match s[0] {
            Some(_) => {},
            None => {
                lemma_scan_gathered(s.skip(1));
            },
        }
    }
}

/// What one handle does with its cell over a slot's lifetime: deposit a
/// value, or bow out.
pub enum Action<T> {
    /// The handle deposits this value.
    Send(T),
    /// The handle declines; its cell stays empty.
    Decline,
}

/// What a handle's action leaves in its own cell.
pub open spec fn outcome<T>(a: Action<T>) -> Option<T> {
    match a {
        Action::Send(v) => Some(v),
        Action::Decline => None,
    }
}

/// The cell row after the handle of index `i` performs `a` on it.
pub open spec fn step_cells<T>(cells: Seq<Option<T>>, i: int, a: Action<T>) -> Seq<Option<T>> {
    match a {
        Action::Send(v) => deposit(cells, i, v),
        Action::Decline => cells,
    }
}

/// The cell row of an `n`-handle slot after the handles named by `order`
/// have acted, each performing its own action from `acts`, in that order.
pub open spec fn run_cells<T>(n: nat, acts: Seq<Action<T>>, order: Seq<int>) -> Seq<Option<T>>
    decreases order.len(),
{
    if order.len() == 0 {
        fresh_cells(n)
    } else {
        step_cells(
            run_cells(n, acts, order.drop_last()),
            order.last(),
            acts[order.last()],
        )
    }
}

/// The cell row once every handle has acted: each cell holds exactly its own
/// handle's deposit, or nothing.
pub open spec fn planned_cells<T>(acts: Seq<Action<T>>) -> Seq<Option<T>> {
    Seq::new(acts.len(), |i: int| outcome(acts[i]))
}

/// The values that the sending handles contribute, in cell order.
pub open spec fn contributions<T>(acts: Seq<Action<T>>) -> Seq<T> {
    gathered(planned_cells(acts))
}

/// After part of the handles have acted, each cell already shows its own
/// handle's outcome if that handle has acted, and is still empty otherwise —
/// no matter in which order the handles ran.
proof fn lemma_run_cells<T>(n: nat, acts: Seq<Action<T>>, order: Seq<int>)
    requires
        acts.len() == n,
        order.no_duplicates(),
        forall|k: int| 0 <= k < order.len() ==> 0 <= #[trigger] order[k] < n,
    ensures
        run_cells(n, acts, order).len() == n,
        forall|i: int|
            0 <= i < n ==> #[trigger] run_cells(n, acts, order)[i] == (if order.contains(i) {
                outcome(acts[i])
            } else {
                None::<T>
            }),
    decreases order.len(),
{
    if order.len() == 0 {
    } else {
        let prefix = order.drop_last();
        let j = order.last();
        assert(prefix.no_duplicates()) by {
            assert forall|x: int, y: int| 0 <= x < y < prefix.len() implies prefix[x] != prefix[y]
            by {
                assert(prefix[x] == order[x] && prefix[y] == order[y]);
            }
        }
        lemma_run_cells(n, acts, prefix);
        assert(!prefix.contains(j)) by {
            if prefix.contains(j) {
                let k = choose|k: int| 0 <= k < prefix.len() && prefix[k] == j;
                assert(order[k] == order[order.len() - 1]);
            }
        }
        assert forall|i: int|
            0 <= i < n implies #[trigger] run_cells(n, acts, order)[i] == (if order.contains(i) {
            outcome(acts[i])
        } else {
            None::<T>
        }) by {
            if order.contains(i) {
                let k = choose|k: int| 0 <= k < order.len() && order[k] == i;
                if k < order.len() - 1 {
                    assert(prefix[k] == i);
                    assert(prefix.contains(i));
                }
            }
            if prefix.contains(i) {
                let k = choose|k: int| 0 <= k < prefix.len() && prefix[k] == i;
                assert(order[k] == i);
                assert(order.contains(i));
            }
        }
    }
}

/// Conservation: once every one of a slot's handles has acted, in any order,
/// the cells hold exactly each handle's own contribution, and gathering them
/// yields precisely the values that were sent, each exactly once, in cell
/// order. Declined handles contribute nothing.
pub proof fn conservation<T>(acts: Seq<Action<T>>, order: Seq<int>)
    requires
        order.no_duplicates(),
        forall|k: int| 0 <= k < order.len() ==> 0 <= #[trigger] order[k] < acts.len(),
        forall|i: int| 0 <= i < acts.len() ==> order.contains(i),
    ensures
        run_cells(acts.len(), acts, order) == planned_cells(acts),
        gathered(run_cells(acts.len(), acts, order)) == contributions(acts),
{
    lemma_run_cells(acts.len(), acts, order);
    assert(run_cells(acts.len(), acts, order) =~= planned_cells(acts));
}

/// The set of handles still outstanding after the handles named by `order`
/// have acted, out of `n` to begin with.
pub open spec fn live_after(n: nat, order: Seq<int>) -> Set<int>
    decreases order.len(),
{
    if order.len() == 0 {
        set_int_range(0, n as int)
    } else {
        live_after(n, order.drop_last()).remove(order.last())
    }
}

/// Whether the `k`-th action of a run over `order` is the finalizer: it
/// finds exactly one handle outstanding, its own, so it observes the count
/// reach zero.
pub open spec fn finalizes(n: nat, order: Seq<int>, k: int) -> bool {
    live_after(n, order.subrange(0, k)).len() == 1
}

/// After part of the handles have acted, exactly the handles that have not
/// yet acted are outstanding, and the count of outstanding handles has gone
/// down by one per action.
proof fn lemma_live_after(n: nat, order: Seq<int>)
    requires
        order.no_duplicates(),
        forall|k: int| 0 <= k < order.len() ==> 0 <= #[trigger] order[k] < n,
    ensures
        live_after(n, order).finite(),
        live_after(n, order).len() == n - order.len(),
        forall|i: int|
            #[trigger] live_after(n, order).contains(i) <==> (0 <= i < n && !order.contains(i)),
    decreases order.len(),
{
    if order.len() == 0 {
        vstd::set_lib::lemma_int_range(0, n as int);
    } else {
        let prefix = order.drop_last();
        let j = order.last();
        assert(prefix.no_duplicates()) by {
            assert forall|x: int, y: int| 0 <= x < y < prefix.len() implies prefix[x] != prefix[y]
            by {
                assert(prefix[x] == order[x] && prefix[y] == order[y]);
            }
        }
        lemma_live_after(n, prefix);
        assert(!prefix.contains(j)) by {
            if prefix.contains(j) {
                let k = choose|k: int| 0 <= k < prefix.len() && prefix[k] == j;
                assert(order[k] == order[order.len() - 1]);
            }
        }
        assert(live_after(n, prefix).contains(j));
        assert forall|i: int|
            #[trigger] live_after(n, order).contains(i) <==> (0 <= i < n && !order.contains(i))
        by {
            if order.contains(i) {
                let k = choose|k: int| 0 <= k < order.len() && order[k] == i;
                if k < order.len() - 1 {
                    assert(prefix[k] == i);
                    assert(prefix.contains(i));
                }
            }
            if prefix.contains(i) {
                let k = choose|k: int| 0 <= k < prefix.len() && prefix[k] == i;
                assert(order[k] == i);
                assert(order.contains(i));
            }
        }
    }
}

/// Exactly-once finalization: however the handles of an `n`-handle slot are
/// interleaved, each acting once, exactly one action — the last — finds
/// itself the sole outstanding handle and so performs the finalization; no
/// earlier action does.
pub proof fn exactly_once_finalization(n: nat, order: Seq<int>)
    requires
        order.len() == n,
        order.no_duplicates(),
        forall|k: int| 0 <= k < order.len() ==> 0 <= #[trigger] order[k] < n,
    ensures
        forall|k: int| 0 <= k < n ==> (#[trigger] finalizes(n, order, k) <==> k == n - 1),
{
    assert forall|k: int| 0 <= k < n implies (#[trigger] finalizes(n, order, k) <==> k == n - 1)
    by {
        let p = order.subrange(0, k);
        assert(p.no_duplicates()) by {
            assert forall|x: int, y: int| 0 <= x < y < p.len() implies p[x] != p[y] by {
                assert(p[x] == order[x] && p[y] == order[y]);
            }
        }
        assert forall|m: int| 0 <= m < p.len() implies 0 <= #[trigger] p[m] < n by {
            assert(p[m] == order[m]);
        }
        lemma_live_after(n, p);
    }
}

/// The iterator that hands out a slot's sender handles, one per cell, in
/// cell order.
#[derive(Debug)]
pub struct InitIter {
    index: usize,
    len: usize,
}

impl InitIter {
    /// The index of the next handle to be handed out.
    pub closed spec fn cursor(self) -> int {
        self.index as int
    }

    /// The slot's cell count.
    pub closed spec fn total(self) -> int {
        self.len as int
    }

    /// Hand out the handle of the next cell, if one is left.
    pub fn next(&mut self) -> (r: Option<Sender>)
        ensures
            final(self).total() == old(self).total(),
            old(self).cursor() < old(self).total() ==> (r matches Some(s) && s.index() == old(
                self,
            ).cursor() && final(self).cursor() == old(self).cursor() + 1),
            old(self).cursor() >= old(self).total() ==> r is None && final(self).cursor() == old(
                self,
            ).cursor(),
    {
        if self.index < self.len {
            let s = Sender::with_index(self.index);
            self.index = self.index + 1;
            Some(s)
        } else {
            None
        }
    }

    /// The slot's full cell count, as a lower and an upper bound.
    pub fn size_hint(&self) -> (r: (usize, Option<usize>))
        ensures
            r.0 == self.total(),
            r.1 == Some(r.0),
    {
        (self.len, Some(self.len))
    }

    /// Decline, on the slot's behalf, every handle not yet handed out, and
    /// consume the iterator. Discarding an iterator with handles still in it
    /// comes to this: the abandoned handles bow out one by one, and the last
    /// of them can finalize the slot like any other decline.
    pub fn dispose<T>(self, slot: &mut Slot<T>)
        requires
            old(slot).wf(),
            forall|k: int| self.cursor() <= k < self.total() ==> old(slot).live().contains(k),
        ensures
            final(slot).wf(),
            final(slot).live() == old(slot).live().difference(
                set_int_range(self.cursor(), self.total()),
            ),
            final(slot).pending() > 0 ==> final(slot).cells() == old(slot).cells(),
            final(slot).pending() == 0 && old(slot).pending() > 0 ==> final(slot).cells().len()
                == 0,
    {
        let mut it = self;
        let ghost start = it.cursor();
        proof {
            assert(slot.live() =~= old(slot).live().difference(
                set_int_range(start, it.cursor()),
            ));
        }
        loop
            invariant
                start == self.cursor(),
                it.total() == self.total(),
                start <= it.cursor(),
                it.cursor() <= it.total() || it.cursor() == start,
                slot.wf(),
                forall|k: int| it.cursor() <= k < it.total() ==> slot.live().contains(k),
                slot.live() == old(slot).live().difference(set_int_range(start, it.cursor())),
                slot.pending() > 0 ==> slot.cells() == old(slot).cells(),
                slot.pending() == 0 && old(slot).pending() > 0 ==> slot.cells().len() == 0,
            decreases it.total() - it.cursor() + 1,
        {
            match it.next() {
                Some(s) => {
                    s.decline(slot);
                    proof {
                        assert(slot.live() =~= old(slot).live().difference(
                            set_int_range(start, it.cursor()),
                        ));
                    }
                },
                None => {
                    return ;
                },
            }
        }
    }
}

/// Build an aggregation slot over a row of empty cells, handing back the
/// slot and the iterator of its sender handles. Rows longer than the
/// platform's maximum safely-indexable count are rejected at the outset.
pub fn from_place<T>(place: Vec<Element<T>>) -> (r: (Slot<T>, InitIter))
    requires
        place@.len() <= isize::MAX as usize,
        forall|i: int| 0 <= i < place@.len() ==> place@[i]@ is None,
    ensures
        r.0.wf(),
        r.0.cells() == fresh_cells::<T>(place@.len()),
        r.0.live() == set_int_range(0, place@.len() as int),
        r.0.pending() == place@.len(),
        r.1.cursor() == 0,
        r.1.total() == place@.len(),
{
    let n = place.len();
    proof {
        vstd::set_lib::lemma_int_range(0, n as int);
        assert(cells_of(place@) =~= fresh_cells::<T>(n as nat));
    }
    let slot = Slot {
        place,
        count: n,
        outstanding: Ghost(set_int_range(0, n as int)),
    };
    (slot, InitIter { index: 0, len: n })
}

/// An aggregation slot backed by a growable row of `count` cells.
pub fn vec<T>(count: usize) -> (r: (Slot<T>, InitIter))
    requires
        count <= isize::MAX as usize,
    ensures
        r.0.wf(),
        r.0.cells() == fresh_cells::<T>(count as nat),
        r.0.live() == set_int_range(0, count as int),
        r.0.pending() == count,
        r.1.cursor() == 0,
        r.1.total() == count,
{
    from_place(Element::vec(count))
}

/// The sender handles of an `N`-cell slot, one per cell, in cell order.
///
/// Relies on `core::array::from_fn`: it fills each position of the array
/// with the closure's result for that position's index; the closure here
/// builds the handle that owns the cell of that index.
#[verifier::external_body]
fn sender_array<const N: usize>() -> (r: [Sender; N])
    ensures
        forall|i: int| 0 <= i < N ==> r@[i].index() == i,
{
    core::array::from_fn(|i| Sender::with_index(i))
}

/// An aggregation slot backed by an array of `N` cells, with its senders
/// returned as an array so the caller can destructure them by position.
pub fn array<T, const N: usize>() -> (r: (Slot<T>, [Sender; N]))
    requires
        N <= isize::MAX as usize,
    ensures
        r.0.wf(),
        r.0.cells() == fresh_cells::<T>(N as nat),
        r.0.live() == set_int_range(0, N as int),
        r.0.pending() == N,
        forall|i: int| 0 <= i < N ==> r.1@[i].index() == i,
{
    let (slot, _) = from_place(Element::vec(N));
    (slot, sender_array::<N>())
}

} // verus!
