//! The eviction rule of the transcoding cache, over a listing of its files.

use vstd::prelude::*;

verus! {

/// One file of the cache directory. `modified` is its modification time in
/// nanoseconds since the epoch.
#[derive(Debug)]
pub struct CacheEntry {
    pub path: String,
    pub size: u64,
    pub modified: u128,
}

/// The budget of a sweep and the time at which it runs, in bytes and
/// nanoseconds.
#[derive(Debug, Clone, Copy, PartialEq, Eq, Structural)]
pub struct SweepLimits {
    pub max_size: u128,
    pub max_age: u128,
    pub now: u128,
}

/// `e` put into a sequence ordered by modification time, behind every entry
/// that is not younger.
pub open spec fn insert_by_age(sorted: Seq<CacheEntry>, e: CacheEntry) -> Seq<CacheEntry>
    decreases sorted.len(),
{
    if sorted.len() == 0 {
        seq![e]
    } else if sorted.last().modified <= e.modified {
        sorted.push(e)
    } else {
        insert_by_age(sorted.drop_last(), e).push(sorted.last())
    }
}

/// The entries oldest first; entries of the same age keep their order.
pub open spec fn sorted_by_age(entries: Seq<CacheEntry>) -> Seq<CacheEntry>
    decreases entries.len(),
{
    if entries.len() == 0 {
        Seq::empty()
    } else {
        insert_by_age(sorted_by_age(entries.drop_last()), entries.last())
    }
}

/// No entry stands before an older one.
pub open spec fn oldest_first(entries: Seq<CacheEntry>) -> bool {
    forall|i: int, j: int|
        0 <= i <= j < entries.len() ==> (#[trigger] entries[i]).modified <= (
        #[trigger] entries[j]).modified
}

/// The size of the first `k` entries together.
pub open spec fn size_sum(entries: Seq<CacheEntry>, k: int) -> int
    decreases k,
{
    if k <= 0 {
        0
    } else {
        size_sum(entries, k - 1) + entries[k - 1].size
    }
}

/// The size of all entries together.
pub open spec fn total_size(entries: Seq<CacheEntry>) -> int {
    size_sum(entries, entries.len() as int)
}

/// The entry is older than the age limit. An entry stamped later than now
/// has no age yet.
pub open spec fn overage(e: CacheEntry, limits: SweepLimits) -> bool {
    limits.now >= e.modified && limits.now - e.modified > limits.max_age
}

/// The rule for one entry, inspected while the cache holds `total` bytes:
/// the entry goes if the cache is over its size limit or the entry is
/// older than the age limit.
pub open spec fn evicts(e: CacheEntry, total: int, limits: SweepLimits) -> bool {
    total > limits.max_size || overage(e, limits)
}

/// The bytes the cache holds when entry `k` is inspected, the walk having
/// started at `start` bytes: every entry removed before has been taken off.
pub open spec fn total_before(
    entries: Seq<CacheEntry>,
    start: int,
    limits: SweepLimits,
    k: int,
) -> int
    decreases k,
{
    if k <= 0 {
        start
    } else {
        let before = total_before(entries, start, limits, k - 1);
        if evicts(entries[k - 1], before, limits) {
            before - entries[k - 1].size
        } else {
            before
        }
    }
}

/// Entry `k` is removed by the walk.
pub open spec fn removed_at(
    entries: Seq<CacheEntry>,
    start: int,
    limits: SweepLimits,
    k: int,
) -> bool {
    evicts(entries[k], total_before(entries, start, limits, k), limits)
}

/// The entries among the first `k` that the walk removes, in the order of
/// the walk.
pub open spec fn victims(
    entries: Seq<CacheEntry>,
    start: int,
    limits: SweepLimits,
    k: int,
) -> Seq<CacheEntry>
    decreases k,
{
    if k <= 0 {
        Seq::empty()
    } else {
        let earlier = victims(entries, start, limits, k - 1);
        if removed_at(entries, start, limits, k - 1) {
            earlier.push(entries[k - 1])
        } else {
            earlier
        }
    }
}

/// The entries among the first `k` that the walk keeps, in the order of the
/// walk.
pub open spec fn survivors(
    entries: Seq<CacheEntry>,
    start: int,
    limits: SweepLimits,
    k: int,
) -> Seq<CacheEntry>
    decreases k,
{
    if k <= 0 {
        Seq::empty()
    } else {
        let earlier = survivors(entries, start, limits, k - 1);
        if removed_at(entries, start, limits, k - 1) {
            earlier
        } else {
            earlier.push(entries[k - 1])
        }
    }
}

/// What a sweep of a cache listing removes: the walk goes oldest first and
/// starts with the size of all entries together.
pub open spec fn sweep_victims(entries: Seq<CacheEntry>, limits: SweepLimits) -> Seq<CacheEntry> {
    let ordered = sorted_by_age(entries);
    victims(ordered, total_size(ordered), limits, ordered.len() as int)
}

/// What a sweep of a cache listing leaves, oldest first.
pub open spec fn sweep_survivors(entries: Seq<CacheEntry>, limits: SweepLimits) -> Seq<
    CacheEntry,
> {
    let ordered = sorted_by_age(entries);
    survivors(ordered, total_size(ordered), limits, ordered.len() as int)
}

proof fn lemma_insert_at(sorted: Seq<CacheEntry>, e: CacheEntry, j: int)
    requires
        0 <= j <= sorted.len(),
        forall|k: int| j <= k < sorted.len() ==> (#[trigger] sorted[k]).modified > e.modified,
        j > 0 ==> sorted[j - 1].modified <= e.modified,
    ensures
        insert_by_age(sorted, e) == sorted.insert(j, e),
    decreases sorted.len(),
{
    if sorted.len() == 0 {
        assert(sorted.insert(j, e) =~= seq![e]);
    } else if j == sorted.len() {
        assert(sorted.insert(j, e) =~= sorted.push(e));
    } else {
        let front = sorted.drop_last();
        assert(sorted[sorted.len() - 1].modified > e.modified);
        assert forall|k: int| j <= k < front.len() implies (#[trigger] front[k]).modified
            > e.modified by {
            assert(front[k] == sorted[k]);
        }
        lemma_insert_at(front, e, j);
        assert(front.insert(j, e).push(sorted.last()) =~= sorted.insert(j, e));
    }
}

proof fn lemma_insert_keeps_order(sorted: Seq<CacheEntry>, e: CacheEntry)
    requires
        oldest_first(sorted),
    ensures
        oldest_first(insert_by_age(sorted, e)),
        insert_by_age(sorted, e).len() == sorted.len() + 1,
        insert_by_age(sorted, e).to_multiset() == sorted.to_multiset().insert(e),
        forall|i: int|
            0 <= i < insert_by_age(sorted, e).len() ==> (#[trigger] insert_by_age(
                sorted,
                e,
            )[i]) == e || sorted.contains(insert_by_age(sorted, e)[i]),
    decreases sorted.len(),
{
    broadcast use vstd::seq_lib::group_to_multiset_ensures;

    let out = insert_by_age(sorted, e);
    if sorted.len() == 0 {
        assert(sorted =~= Seq::empty());
        assert(out =~= Seq::<CacheEntry>::empty().push(e));
    } else if sorted.last().modified <= e.modified {
        assert forall|i: int| 0 <= i < out.len() implies (#[trigger] out[i]) == e
            || sorted.contains(out[i]) by {
            if i < sorted.len() {
                assert(sorted[i] == out[i]);
            }
        }
    } else {
        let front = sorted.drop_last();
        assert forall|i: int, j: int| 0 <= i <= j < front.len() implies (
        #[trigger] front[i]).modified <= (#[trigger] front[j]).modified by {
            assert(front[i] == sorted[i] && front[j] == sorted[j]);
        }
        lemma_insert_keeps_order(front, e);
        let inner = insert_by_age(front, e);
        assert(sorted =~= front.push(sorted.last()));
        assert(sorted.to_multiset() =~= front.to_multiset().insert(sorted.last()));
        assert(out.to_multiset() =~= sorted.to_multiset().insert(e));
        assert forall|i: int| 0 <= i < inner.len() implies (#[trigger] inner[i]).modified
            <= sorted.last().modified by {
            if inner[i] != e {
                let k = choose|k: int| 0 <= k < front.len() && front[k] == inner[i];
                assert(sorted[k] == front[k]);
            }
        }
        assert forall|i: int| 0 <= i < out.len() implies (#[trigger] out[i]) == e
            || sorted.contains(out[i]) by {
            if i < inner.len() {
                if inner[i] != e {
                    let k = choose|k: int| 0 <= k < front.len() && front[k] == inner[i];
                    assert(sorted[k] == out[i]);
                }
            } else {
                assert(sorted[sorted.len() - 1] == out[i]);
            }
        }
    }
}

/// The ordered listing holds the same entries, none before an older one.
pub proof fn lemma_sorted_by_age(entries: Seq<CacheEntry>)
    ensures
        oldest_first(sorted_by_age(entries)),
        sorted_by_age(entries).len() == entries.len(),
        sorted_by_age(entries).to_multiset() == entries.to_multiset(),
    decreases entries.len(),
{
    broadcast use vstd::seq_lib::group_to_multiset_ensures;

    if entries.len() == 0 {
        assert(entries =~= Seq::empty());
    } else {
        lemma_sorted_by_age(entries.drop_last());
        lemma_insert_keeps_order(sorted_by_age(entries.drop_last()), entries.last());
        assert(entries =~= entries.drop_last().push(entries.last()));
    }
}

proof fn lemma_total_shrinks(
    entries: Seq<CacheEntry>,
    start: int,
    limits: SweepLimits,
    j: int,
    k: int,
)
    requires
        0 <= j <= k,
    ensures
        total_before(entries, start, limits, k) <= total_before(entries, start, limits, j),
    decreases k,
{
    if j < k {
        lemma_total_shrinks(entries, start, limits, j, k - 1);
    }
}

proof fn lemma_size_sum_of_prefix(a: Seq<CacheEntry>, b: Seq<CacheEntry>, k: int)
    requires
        0 <= k <= a.len(),
        k <= b.len(),
        forall|i: int| 0 <= i < k ==> #[trigger] a[i] == b[i],
    ensures
        size_sum(a, k) == size_sum(b, k),
    decreases k,
{
    if k > 0 {
        lemma_size_sum_of_prefix(a, b, k - 1);
    }
}

proof fn lemma_survivor_size(entries: Seq<CacheEntry>, start: int, limits: SweepLimits, k: int)
    requires
        0 <= k <= entries.len(),
    ensures
        total_size(survivors(entries, start, limits, k)) == size_sum(entries, k) - start
            + total_before(entries, start, limits, k),
    decreases k,
{
    if k > 0 {
        lemma_survivor_size(entries, start, limits, k - 1);
        let earlier = survivors(entries, start, limits, k - 1);
        if !removed_at(entries, start, limits, k - 1) {
            let now = earlier.push(entries[k - 1]);
            lemma_size_sum_of_prefix(now, earlier, earlier.len() as int);
        }
    }
}

/// An entry that a walk leaves alone whenever the cache holds no more than
/// `total` bytes.
pub open spec fn settled(e: CacheEntry, total: int, limits: SweepLimits) -> bool {
    total <= limits.max_size && !overage(e, limits)
}

proof fn lemma_survivors_settled(
    entries: Seq<CacheEntry>,
    start: int,
    limits: SweepLimits,
    k: int,
    n: int,
)
    requires
        0 <= k <= n,
    ensures
        forall|i: int|
            0 <= i < survivors(entries, start, limits, k).len() ==> settled(
                #[trigger] survivors(entries, start, limits, k)[i],
                total_before(entries, start, limits, n),
                limits,
            ),
    decreases k,
{
    if k > 0 {
        lemma_survivors_settled(entries, start, limits, k - 1, n);
        lemma_total_shrinks(entries, start, limits, k - 1, n);
        let earlier = survivors(entries, start, limits, k - 1);
        let now = survivors(entries, start, limits, k);
        assert forall|i: int| 0 <= i < now.len() implies settled(
            #[trigger] now[i],
            total_before(entries, start, limits, n),
            limits,
        ) by {
            if i < earlier.len() {
                assert(now[i] == earlier[i]);
            } else {
                assert(now[i] == entries[k - 1]);
                assert(!removed_at(entries, start, limits, k - 1));
            }
        }
    }
}

proof fn lemma_survivors_in_order(
    entries: Seq<CacheEntry>,
    start: int,
    limits: SweepLimits,
    k: int,
)
    requires
        0 <= k <= entries.len(),
        oldest_first(entries),
    ensures
        oldest_first(survivors(entries, start, limits, k)),
        forall|i: int, m: int|
            0 <= i < survivors(entries, start, limits, k).len() && k - 1 <= m < entries.len() && 0
                <= m ==> (#[trigger] survivors(entries, start, limits, k)[i]).modified <= (
            #[trigger] entries[m]).modified,
    decreases k,
{
    if k > 0 {
        lemma_survivors_in_order(entries, start, limits, k - 1);
        let earlier = survivors(entries, start, limits, k - 1);
        let now = survivors(entries, start, limits, k);
        assert forall|i: int, m: int|
            0 <= i < now.len() && k - 1 <= m < entries.len() && 0 <= m implies (
        #[trigger] now[i]).modified <= (#[trigger] entries[m]).modified by {
            if i < earlier.len() {
                assert(now[i] == earlier[i]);
            } else {
                assert(now[i] == entries[k - 1]);
            }
        }
        assert forall|i: int, j: int| 0 <= i <= j < now.len() implies (
        #[trigger] now[i]).modified <= (#[trigger] now[j]).modified by {
            if j < earlier.len() {
                assert(now[i] == earlier[i] && now[j] == earlier[j]);
            } else {
                assert(now[j] == entries[k - 1]);
            }
        }
    }
}

proof fn lemma_ordered_stays(entries: Seq<CacheEntry>)
    requires
        oldest_first(entries),
    ensures
        sorted_by_age(entries) == entries,
    decreases entries.len(),
{
    if entries.len() == 0 {
        assert(entries =~= Seq::empty());
    } else {
        let front = entries.drop_last();
        assert forall|i: int, j: int| 0 <= i <= j < front.len() implies (
        #[trigger] front[i]).modified <= (#[trigger] front[j]).modified by {
            assert(front[i] == entries[i] && front[j] == entries[j]);
        }
        lemma_ordered_stays(front);
        if front.len() > 0 {
            assert(front.last() == entries[front.len() - 1]);
            assert(entries[front.len() - 1].modified <= entries[entries.len() - 1].modified);
        }
        assert(front.push(entries.last()) =~= entries);
    }
}

proof fn lemma_settled_walk(entries: Seq<CacheEntry>, start: int, limits: SweepLimits, k: int)
    requires
        0 <= k <= entries.len(),
        forall|i: int| 0 <= i < entries.len() ==> settled(#[trigger] entries[i], start, limits),
    ensures
        total_before(entries, start, limits, k) == start,
        victims(entries, start, limits, k) == Seq::<CacheEntry>::empty(),
    decreases k,
{
    if k > 0 {
        lemma_settled_walk(entries, start, limits, k - 1);
        assert(settled(entries[k - 1], start, limits));
    }
}

/// What a sweep leaves is no older than the age limit at the time of the
/// sweep.
pub proof fn lemma_survivors_within_age(entries: Seq<CacheEntry>, limits: SweepLimits)
    ensures
        forall|i: int|
            0 <= i < sweep_survivors(entries, limits).len() ==> !overage(
                #[trigger] sweep_survivors(entries, limits)[i],
                limits,
            ),
{
    let ordered = sorted_by_age(entries);
    let n = ordered.len() as int;
    lemma_survivors_settled(ordered, total_size(ordered), limits, n, n);
}

/// Two sweeps in a row: what one sweep leaves, a second sweep with the same
/// budget leaves as well, at any time at which no survivor has grown older
/// than the age limit. No file having been added, the second sweep removes
/// nothing.
pub proof fn lemma_sweep_idempotent(
    entries: Seq<CacheEntry>,
    limits: SweepLimits,
    second: SweepLimits,
)
    requires
        second.max_size == limits.max_size,
        second.max_age == limits.max_age,
        forall|i: int|
            0 <= i < sweep_survivors(entries, limits).len() ==> !overage(
                #[trigger] sweep_survivors(entries, limits)[i],
                second,
            ),
    ensures
        sweep_victims(sweep_survivors(entries, limits), second) == Seq::<CacheEntry>::empty(),
        sorted_by_age(sweep_survivors(entries, limits)) == sweep_survivors(entries, limits),
{
    let ordered = sorted_by_age(entries);
    let n = ordered.len() as int;
    let start = total_size(ordered);
    let left = survivors(ordered, start, limits, n);
    lemma_sorted_by_age(entries);
    lemma_survivors_in_order(ordered, start, limits, n);
    lemma_ordered_stays(left);
    lemma_survivor_size(ordered, start, limits, n);
    lemma_survivors_settled(ordered, start, limits, n, n);
    assert forall|i: int| 0 <= i < left.len() implies settled(
        #[trigger] left[i],
        total_size(left),
        second,
    ) by {
        assert(settled(left[i], total_before(ordered, start, limits, n), limits));
        assert(!overage(sweep_survivors(entries, limits)[i], second));
    }
    lemma_settled_walk(left, total_size(left), second, left.len() as int);
}

/// A sweep spares what is within budget: an entry that is inspected while
/// the cache holds no more than the size limit, and that is no older than
/// the age limit, is not removed.
pub proof fn lemma_sweep_spares_within_budget(
    entries: Seq<CacheEntry>,
    start: int,
    limits: SweepLimits,
    k: int,
)
    requires
        0 <= k < entries.len(),
        total_before(entries, start, limits, k) <= limits.max_size,
        !overage(entries[k], limits),
    ensures
        !removed_at(entries, start, limits, k),
        total_before(entries, start, limits, k + 1) == total_before(entries, start, limits, k),
{
}

/// Size-driven eviction stops once the cache is within its size limit: from
/// then on the running total stays within the limit.
pub proof fn lemma_total_stays_within(
    entries: Seq<CacheEntry>,
    start: int,
    limits: SweepLimits,
    j: int,
    k: int,
)
    requires
        0 <= j <= k,
        total_before(entries, start, limits, j) <= limits.max_size,
    ensures
        total_before(entries, start, limits, k) <= limits.max_size,
{
    lemma_total_shrinks(entries, start, limits, j, k);
}

fn copy_entry(e: &CacheEntry) -> (copy: CacheEntry)
    ensures
        copy == *e,
{
    CacheEntry { path: e.path.clone(), size: e.size, modified: e.modified }
}

/// Orders a listing oldest first; entries of the same age keep their
/// order.
pub fn sort_by_age(entries: &Vec<CacheEntry>) -> (sorted: Vec<CacheEntry>)
    ensures
        sorted@ == sorted_by_age(entries@),
        sorted@.len() == entries@.len(),
        oldest_first(sorted@),
{
    let mut out: Vec<CacheEntry> = Vec::new();
    let mut i: usize = 0;
    assert(entries@.take(0) =~= Seq::<CacheEntry>::empty());
    while i < entries.len()
        invariant
            i <= entries.len(),
            out@ == sorted_by_age(entries@.take(i as int)),
            out@.len() == i,
        decreases entries.len() - i,
    {
        let e = copy_entry(&entries[i]);
        let mut j: usize = out.len();
        while j > 0 && out[j - 1].modified > e.modified
            invariant
                j <= out.len(),
                forall|k: int| j <= k < out@.len() ==> (#[trigger] out@[k]).modified > e.modified,
            decreases j,
        {
            j -= 1;
        }
        proof {
            lemma_insert_at(out@, e, j as int);
            let next = entries@.take(i as int + 1);
            assert(next.drop_last() =~= entries@.take(i as int));
            assert(next.last() == e);
        }
        out.insert(j, e);
        i += 1;
    }
    proof {
        assert(entries@.take(entries@.len() as int) =~= entries@);
        lemma_sorted_by_age(entries@);
    }
    out
}

proof fn lemma_size_sum_grows(entries: Seq<CacheEntry>, j: int, k: int)
    requires
        0 <= j <= k <= entries.len(),
    ensures
        0 <= size_sum(entries, j) <= size_sum(entries, k),
        size_sum(entries, k) <= k * 0xffff_ffff_ffff_ffff,
    decreases k,
{
    if k > 0 {
        if j < k {
            lemma_size_sum_grows(entries, j, k - 1);
        } else {
            lemma_size_sum_grows(entries, j - 1, k - 1);
        }
    }
}

/// The first entry from `from` on that goes while the cache holds `total`
/// bytes, or the number of entries where there is none.
pub open spec fn next_evicted(
    entries: Seq<CacheEntry>,
    total: int,
    limits: SweepLimits,
    from: int,
) -> int
    decreases entries.len() - from,
{
    if from < 0 || from >= entries.len() {
        entries.len() as int
    } else if evicts(entries[from], total, limits) {
        from
    } else {
        next_evicted(entries, total, limits, from + 1)
    }
}

proof fn lemma_next_evicted(entries: Seq<CacheEntry>, total: int, limits: SweepLimits, from: int)
    requires
        0 <= from <= entries.len(),
    ensures
        from <= next_evicted(entries, total, limits, from) <= entries.len(),
        forall|i: int|
            from <= i < next_evicted(entries, total, limits, from) ==> !evicts(
                #[trigger] entries[i],
                total,
                limits,
            ),
        next_evicted(entries, total, limits, from) < entries.len() ==> evicts(
            entries[next_evicted(entries, total, limits, from)],
            total,
            limits,
        ),
    decreases entries.len() - from,
{
    if from < entries.len() && !evicts(entries[from], total, limits) {
        lemma_next_evicted(entries, total, limits, from + 1);
    }
}

proof fn lemma_spared_run(
    entries: Seq<CacheEntry>,
    start: int,
    limits: SweepLimits,
    from: int,
    to: int,
)
    requires
        0 <= from <= to <= entries.len(),
        forall|i: int|
            from <= i < to ==> !evicts(
                #[trigger] entries[i],
                total_before(entries, start, limits, from),
                limits,
            ),
    ensures
        total_before(entries, start, limits, to) == total_before(entries, start, limits, from),
        victims(entries, start, limits, to) == victims(entries, start, limits, from),
    decreases to - from,
{
    if from < to {
        lemma_spared_run(entries, start, limits, from, to - 1);
        assert(!evicts(entries[to - 1], total_before(entries, start, limits, from), limits));
    }
}

/// A sweep in progress. The walk hands out one entry to delete at a time
/// and is told whether the deletion succeeded; only a deletion that
/// succeeded takes the entry's size off the running total.
pub struct SweepWalk {
    ordered: Vec<CacheEntry>,
    position: usize,
    awaiting: bool,
    total: u128,
    limits: SweepLimits,
}

impl SweepWalk {
    /// The listing, oldest first.
    pub closed spec fn entries(&self) -> Seq<CacheEntry> {
        self.ordered@
    }

    /// The number of entries looked at so far.
    pub closed spec fn position(&self) -> int {
        self.position as int
    }

    /// The last entry looked at was handed out and its deletion has not
    /// been reported yet.
    pub closed spec fn awaiting(&self) -> bool {
        self.awaiting
    }

    /// The bytes the cache holds, as far as deletions have been reported.
    pub closed spec fn running_total(&self) -> int {
        self.total as int
    }

    /// The budget of the sweep.
    pub closed spec fn limits(&self) -> SweepLimits {
        self.limits
    }

    /// The walk's invariant: it is inside the listing, and the running
    /// total covers every entry whose fate is still open.
    pub closed spec fn wf(&self) -> bool {
        &&& self.position <= self.ordered@.len()
        &&& self.awaiting ==> self.position > 0
        &&& self.total <= total_size(self.ordered@)
        &&& self.total >= total_size(self.ordered@) - size_sum(
            self.ordered@,
            if self.awaiting {
                self.position - 1
            } else {
                self.position as int
            },
        )
    }

    /// The running total once the pending deletion has been reported.
    pub open spec fn total_after_report(&self, deleted: bool) -> int {
        if self.awaiting() && deleted {
            self.running_total() - self.entries()[self.position() - 1].size
        } else {
            self.running_total()
        }
    }

    /// Starts a sweep over a listing of the cache directory: the listing is
    /// put in order, oldest first, and the running total is the size of all
    /// entries together.
    pub fn begin(entries: &Vec<CacheEntry>, limits: SweepLimits) -> (walk: SweepWalk)
        ensures
            walk.wf(),
            walk.entries() == sorted_by_age(entries@),
            walk.limits() == limits,
            walk.position() == 0,
            !walk.awaiting(),
            walk.running_total() == total_size(walk.entries()),
    {
        let ordered = sort_by_age(entries);
        let n: usize = ordered.len();
        let mut total: u128 = 0;
        let mut i: usize = 0;
        while i < n
            invariant
                i <= n == ordered@.len(),
                total == size_sum(ordered@, i as int),
                total <= i * 0xffff_ffff_ffff_ffff,
            decreases n - i,
        {
            total = total + (ordered[i].size as u128);
            i += 1;
        }
        SweepWalk { ordered, position: 0, awaiting: false, total, limits }
    }

    /// Reports whether the entry handed out last was deleted, and hands out
    /// the next entry to delete. Entries that stay are passed over: an
    /// entry goes if the running total is over the size limit or the entry
    /// is older than the age limit. `None` ends the sweep. On the first
    /// call `deleted` says nothing.
    pub fn step(&mut self, deleted: bool) -> (victim: Option<CacheEntry>)
        requires
            old(self).wf(),
        ensures
            final(self).wf(),
            final(self).entries() == old(self).entries(),
            final(self).limits() == old(self).limits(),
            final(self).running_total() == old(self).total_after_report(deleted),
            ({
                let next = next_evicted(
                    old(self).entries(),
                    old(self).total_after_report(deleted),
                    old(self).limits(),
                    old(self).position(),
                );
                if next < old(self).entries().len() {
                    &&& victim == Some(old(self).entries()[next])
                    &&& final(self).position() == next + 1
                    &&& final(self).awaiting()
                } else {
                    &&& victim is None
                    &&& final(self).position() == old(self).entries().len()
                    &&& !final(self).awaiting()
                }
            }),
    {
        let ghost from = self.position as int;
        proof {
            lemma_size_sum_grows(self.ordered@, from, self.ordered@.len() as int);
            if self.awaiting {
                lemma_size_sum_grows(self.ordered@, from - 1, self.ordered@.len() as int);
            }
        }
        if self.awaiting && deleted {
            self.total = self.total - (self.ordered[self.position - 1].size as u128);
        }
        self.awaiting = false;
        proof {
            lemma_next_evicted(self.ordered@, self.total as int, self.limits, from);
        }
        let ghost next = next_evicted(self.ordered@, self.total as int, self.limits, from);
        while self.position < self.ordered.len()
            invariant
                from == old(self).position,
                from <= self.position <= next <= self.ordered@.len(),
                self.ordered@ == old(self).ordered@,
                self.limits == old(self).limits,
                self.total == old(self).total_after_report(deleted),
                !self.awaiting,
                next == next_evicted(self.ordered@, self.total as int, self.limits, from),
                forall|i: int|
                    from <= i < next ==> !evicts(
                        #[trigger] self.ordered@[i],
                        self.total as int,
                        self.limits,
                    ),
                next < self.ordered@.len() ==> evicts(
                    self.ordered@[next],
                    self.total as int,
                    self.limits,
                ),
                self.total <= total_size(self.ordered@),
                self.total >= total_size(self.ordered@) - size_sum(self.ordered@, from),
            decreases self.ordered.len() - self.position,
        {
            let e = &self.ordered[self.position];
            let goes = self.total > self.limits.max_size || (self.limits.now >= e.modified
                && self.limits.now - e.modified > self.limits.max_age);
            if goes {
                let victim = copy_entry(e);
                proof {
                    assert(self.position == next);
                    lemma_size_sum_grows(
                        self.ordered@,
                        from,
                        self.position as int,
                    );
                }
                self.position += 1;
                self.awaiting = true;
                return Some(victim);
            }
            self.position += 1;
        }
        proof {
            lemma_size_sum_grows(self.ordered@, from, self.position as int);
        }
        None
    }
}

/// The victims collected so far, with the one in hand.
pub open spec fn with_pending(removed: Seq<CacheEntry>, pending: Option<CacheEntry>) -> Seq<
    CacheEntry,
> {
    match pending {
        Some(e) => removed.push(e),
        None => removed,
    }
}

/// Plans a sweep over a listing of the cache directory: orders it oldest
/// first, walks it with the size of all entries as the running total, and
/// returns the entries to delete in the order of deletion, every deletion
/// taken to succeed. An entry goes if at its turn the running total is over
/// the size limit or the entry is older than the age limit; each removal
/// takes the entry's size off the running total before the next entry is
/// looked at.
pub fn plan_sweep(entries: &Vec<CacheEntry>, limits: SweepLimits) -> (removed: Vec<CacheEntry>)
    ensures
        removed@ == sweep_victims(entries@, limits),
{
    let mut walk = SweepWalk::begin(entries, limits);
    let ghost ordered = walk.entries();
    let ghost start = total_size(ordered);
    let mut removed: Vec<CacheEntry> = Vec::new();
    proof {
        lemma_next_evicted(ordered, start, limits, 0);
        lemma_spared_run(ordered, start, limits, 0, next_evicted(ordered, start, limits, 0));
    }
    let mut pending = walk.step(true);
    while pending.is_some()
        invariant
            walk.wf(),
            walk.entries() == ordered,
            walk.limits() == limits,
            start == total_size(ordered),
            0 <= walk.position() <= ordered.len(),
            pending is Some <==> walk.awaiting(),
            pending is Some ==> walk.position() > 0 && pending == Some(
                ordered[walk.position() - 1],
            ),
            pending is None ==> walk.position() == ordered.len(),
            walk.total_after_report(true) == total_before(
                ordered,
                start,
                limits,
                walk.position(),
            ),
            with_pending(removed@, pending) == victims(ordered, start, limits, walk.position()),
        decreases
                ordered.len() - walk.position() + if pending is Some {
                    1int
                } else {
                    0int
                },
    {
        let ghost at = walk.position();
        let ghost total = walk.total_after_report(true);
        proof {
            lemma_next_evicted(ordered, total, limits, at);
            lemma_spared_run(ordered, start, limits, at, next_evicted(ordered, total, limits, at));
        }
        removed.push(pending.unwrap());
        pending = walk.step(true);
    }
    removed
}

} // verus!
