use crate::eligibility::{
    automatic_track_eligible, available_mask, eligible_mask, fill_queue_context, filled_context,
    first_automatic_wrapping, lemma_first_in_is_first, track_eligible,
    first_available_from, first_available_wrapping, first_in, min_int, moved_index, ExclusionStore,
};
use crate::model::{RepeatMode, TrackRef, TrackRefView};
use crate::track_uri::{check_track_uris, playable_track_uri, row_uri_fault, uris_valid_before};
use librespot_core::SpotifyUri;
use vstd::prelude::*;

verus! {

/// Pressing Previous this many milliseconds or less into a track goes back a
/// track; later than that it restarts the current one.
pub const PREVIOUS_RESTART_THRESHOLD_MS: u32 = 3_000;

/// One step of the xorshift generator that draws shuffle orders.
pub open spec fn xorshift(value: u64) -> u64 {
    let a = value ^ (value << 13u64);
    let b = a ^ (a >> 7u64);
    b ^ (b << 17u64)
}

/// The revision that follows `revision`, wrapping at the top.
pub open spec fn next_revision(revision: u64) -> u64 {
    if revision == u64::MAX {
        0
    } else {
        (revision + 1) as u64
    }
}

/// Whether row `i` is one a shuffle draw holds: `mask` allows it and it is
/// not the current row.
pub open spec fn candidate_in(mask: Seq<bool>, current: Option<usize>, i: int) -> bool {
    0 <= i < mask.len() && mask[i] && !(current matches Some(c) && c == i)
}

/// The rows below `n` that a shuffle draw holds, in queue order.
pub open spec fn candidates_upto(mask: Seq<bool>, current: Option<usize>, n: int) -> Seq<usize>
    decreases n,
{
    if n <= 0 {
        Seq::empty()
    } else if candidate_in(mask, current, n - 1) {
        candidates_upto(mask, current, n - 1).push((n - 1) as usize)
    } else {
        candidates_upto(mask, current, n - 1)
    }
}

/// `pool` with the entries at `i` and `j` exchanged.
pub open spec fn swapped(pool: Seq<usize>, i: int, j: int) -> Seq<usize> {
    pool.update(i, pool[j]).update(j, pool[i])
}

/// The Fisher-Yates draw over the first `position` entries of `pool`, from
/// the generator state `seed`: for each position from the back down to the
/// second, the generator steps once and the entry there is exchanged with
/// the one at the drawn value modulo (position + 1). Gives the drawn bag
/// and the generator's final state.
pub open spec fn drawn(pool: Seq<usize>, position: int, seed: u64) -> (Seq<usize>, u64)
    decreases position,
{
    if position <= 1 {
        (pool, seed)
    } else {
        let p = position - 1;
        let value = xorshift(seed);
        let other = (value % ((p + 1) as u64)) as int;
        drawn(swapped(pool, p, other), p, value)
    }
}

/// The bag and generator state a fresh shuffle lap of `plan` draws: its
/// candidates in queue order, shuffled from its generator state.
pub open spec fn fresh_lap(plan: QueuePlan) -> (Seq<usize>, u64) {
    let pool = candidates_upto(plan.mask(), plan.current_index, plan.queue@.len() as int);
    drawn(pool, pool.len() as int, plan.random_state)
}

/// How a change to the queue's shape carries each shuffle-bag entry: kept
/// as it is, shifted past a removed row, or moved with a dragged row.
#[derive(Clone, Copy, Debug, PartialEq, Eq, Structural)]
pub enum PoolRemap {
    Keep,
    Removed(usize),
    Moved(usize, usize),
}

/// Where a bag entry `x` goes under `change`; `None` when its row is gone.
pub open spec fn remap(change: PoolRemap, x: int) -> Option<int> {
    match change {
        PoolRemap::Keep => Some(x),
        PoolRemap::Removed(index) => if x == index {
            None
        } else if x > index {
            Some(x - 1)
        } else {
            Some(x)
        },
        PoolRemap::Moved(from, to) => Some(moved_index(x, from as int, to as int)),
    }
}

/// Two entries never land on one row: every remap is one-to-one.
pub proof fn lemma_remap_injective(change: PoolRemap, a: int, b: int)
    requires
        remap(change, a) is Some,
        remap(change, a) == remap(change, b),
    ensures
        a == b,
{
}

/// The bag after `change`: each entry carried through [`remap`], in the same
/// order, keeping only rows of a queue of `len` rows other than `current`.
pub open spec fn repaired(pool: Seq<usize>, change: PoolRemap, len: int, current: Option<
    usize,
>) -> Seq<usize>
    decreases pool.len(),
{
    if pool.len() == 0 {
        Seq::empty()
    } else {
        let rest = repaired(pool.drop_last(), change, len, current);
        match remap(change, pool.last() as int) {
            Some(y) => if 0 <= y < len && !(current matches Some(c) && c == y) {
                rest.push(y as usize)
            } else {
                rest
            },
            None => rest,
        }
    }
}

/// The entries of `s` that `keep` accepts, in their order.
pub open spec fn keep_where(s: Seq<usize>, keep: spec_fn(usize) -> bool) -> Seq<usize>
    decreases s.len(),
{
    if s.len() == 0 {
        s
    } else {
        let rest = keep_where(s.drop_last(), keep);
        if keep(s.last()) {
            rest.push(s.last())
        } else {
            rest
        }
    }
}

/// Every entry [`repaired`] keeps came from some entry of the old bag, and
/// is a row of the queue other than the current one.
pub proof fn lemma_repaired_entries(pool: Seq<usize>, change: PoolRemap, len: int, current: Option<
    usize,
>)
    ensures
        forall|k: int|
            0 <= k < repaired(pool, change, len, current).len() ==> {
                let y = #[trigger] repaired(pool, change, len, current)[k];
                &&& 0 <= y < len
                &&& !(current matches Some(c) && c == y)
                &&& exists|j: int|
                    0 <= j < pool.len() && remap(change, #[trigger] pool[j] as int) == Some(
                        y as int,
                    )
            },
    decreases pool.len(),
{
    if pool.len() > 0 {
        lemma_repaired_entries(pool.drop_last(), change, len, current);
        let rest = repaired(pool.drop_last(), change, len, current);
        let whole = repaired(pool, change, len, current);
        assert forall|k: int| #![trigger whole[k]] 0 <= k < whole.len() implies exists|j: int|
            0 <= j < pool.len() && remap(change, #[trigger] pool[j] as int) == Some(
                whole[k] as int,
            ) by {
            if k < rest.len() {
                let j = choose|j: int|
                    0 <= j < pool.drop_last().len() && remap(
                        change,
                        #[trigger] pool.drop_last()[j] as int,
                    ) == Some(rest[k] as int);
                assert(pool[j] == pool.drop_last()[j]);
            } else {
                assert(pool[pool.len() - 1] == pool.last());
            }
        }
    }
}

/// A bag without repeats stays without repeats through a repair.
pub proof fn lemma_repaired_no_duplicates(
    pool: Seq<usize>,
    change: PoolRemap,
    len: int,
    current: Option<usize>,
)
    requires
        pool.no_duplicates(),
    ensures
        repaired(pool, change, len, current).no_duplicates(),
    decreases pool.len(),
{
    if pool.len() > 0 {
        let front = pool.drop_last();
        assert(front.no_duplicates());
        lemma_repaired_no_duplicates(front, change, len, current);
        lemma_repaired_entries(front, change, len, current);
        let rest = repaired(front, change, len, current);
        let whole = repaired(pool, change, len, current);
        if whole.len() > rest.len() {
            let y = whole.last();
            assert forall|a: int, b: int| 0 <= a < b < whole.len() implies whole[a] != whole[b] by {
                if b == whole.len() - 1 {
                    assert(whole[a] == rest[a]);
                    let j = choose|j: int|
                        0 <= j < front.len() && remap(change, #[trigger] front[j] as int) == Some(
                            rest[a] as int,
                        );
                    if whole[a] == whole[b] {
                        lemma_remap_injective(change, front[j] as int, pool.last() as int);
                        assert(pool[j] == front[j]);
                        assert(pool[j] == pool[pool.len() - 1]);
                    }
                } else {
                    assert(whole[a] == rest[a]);
                    assert(whole[b] == rest[b]);
                }
            }
        }
    }
}

/// Putting an entry `keep` rejects into a bag leaves what `keep` accepts,
/// and its order, untouched.
pub proof fn lemma_keep_where_insert(s: Seq<usize>, p: int, v: usize, keep: spec_fn(usize) -> bool)
    requires
        0 <= p <= s.len(),
        !keep(v),
    ensures
        keep_where(s.insert(p, v), keep) == keep_where(s, keep),
    decreases s.len(),
{
    if p == s.len() {
        assert(s.insert(p, v) =~= s.push(v));
        assert(s.push(v).drop_last() =~= s);
    } else {
        let front = s.drop_last();
        lemma_keep_where_insert(front, p, v, keep);
        assert(s.insert(p, v) =~= front.insert(p, v).push(s.last()));
        assert(front.insert(p, v).push(s.last()).drop_last() =~= front.insert(p, v));
    }
}

/// What [`keep_where`] keeps: entries of `s` that `keep` accepts, each
/// entry `keep` accepts, and no repeats if `s` has none.
pub proof fn lemma_keep_where_entries(s: Seq<usize>, keep: spec_fn(usize) -> bool)
    ensures
        forall|x: usize|
            #[trigger] keep_where(s, keep).contains(x) <==> (s.contains(x) && keep(x)),
        s.no_duplicates() ==> keep_where(s, keep).no_duplicates(),
    decreases s.len(),
{
    if s.len() > 0 {
        let front = s.drop_last();
        lemma_keep_where_entries(front, keep);
        let rest = keep_where(front, keep);
        let whole = keep_where(s, keep);
        assert forall|x: usize| #[trigger] whole.contains(x) <==> (s.contains(x) && keep(x)) by {
            if whole.contains(x) {
                let k = choose|k: int| 0 <= k < whole.len() && whole[k] == x;
                if k < rest.len() {
                    assert(rest[k] == x);
                    assert(rest.contains(x));
                    let j = choose|j: int| 0 <= j < front.len() && front[j] == x;
                    assert(s[j] == x);
                } else {
                    assert(s[s.len() - 1] == x);
                }
            }
            if s.contains(x) && keep(x) {
                let j = choose|j: int| 0 <= j < s.len() && s[j] == x;
                if j < front.len() {
                    assert(front[j] == x);
                    assert(front.contains(x));
                    assert(rest.contains(x));
                    let k = choose|k: int| 0 <= k < rest.len() && rest[k] == x;
                    assert(whole[k] == x);
                } else {
                    assert(whole[whole.len() - 1] == x);
                }
            }
        }
        if s.no_duplicates() {
            assert(front.no_duplicates());
            if keep(s.last()) {
                assert(!front.contains(s.last()));
                assert forall|a: int, b: int| 0 <= a < b < whole.len() implies whole[a] != whole[b] by {
                    if b == whole.len() - 1 {
                        assert(rest.contains(whole[a]));
                    }
                }
            }
        }
    }
}

/// When `keep` accepts every entry, [`keep_where`] is the whole sequence.
pub proof fn lemma_keep_where_all(s: Seq<usize>, keep: spec_fn(usize) -> bool)
    requires
        forall|k: int| 0 <= k < s.len() ==> keep(#[trigger] s[k]),
    ensures
        keep_where(s, keep) == s,
    decreases s.len(),
{
    if s.len() > 0 {
        lemma_keep_where_all(s.drop_last(), keep);
        assert(s.drop_last().push(s.last()) =~= s);
    }
}

/// What an insertion adds to a sequence: exactly the inserted value.
pub proof fn lemma_insert_contains(s: Seq<usize>, p: int, v: usize)
    requires
        0 <= p <= s.len(),
    ensures
        forall|x: usize| #[trigger] s.insert(p, v).contains(x) <==> (s.contains(x) || x == v),
        s.no_duplicates() && !s.contains(v) ==> s.insert(p, v).no_duplicates(),
        s.insert(p, v).len() == s.len() + 1,
{
    let t = s.insert(p, v);
    assert forall|x: usize| #[trigger] t.contains(x) <==> (s.contains(x) || x == v) by {
        if t.contains(x) {
            let k = choose|k: int| 0 <= k < t.len() && t[k] == x;
            if k < p {
                assert(s[k] == x);
            } else if k > p {
                assert(s[k - 1] == x);
            }
        }
        if s.contains(x) {
            let k = choose|k: int| 0 <= k < s.len() && s[k] == x;
            if k < p {
                assert(t[k] == x);
            } else {
                assert(t[k + 1] == x);
            }
        }
        if x == v {
            assert(t[p] == v);
        }
    }
    if s.no_duplicates() && !s.contains(v) {
        assert forall|a: int, b: int| 0 <= a < b < t.len() implies t[a] != t[b] by {
            let sa = if a < p { a } else { a - 1 };
            let sb = if b < p { b } else { b - 1 };
            if a == p {
                assert(t[b] == s[sb]);
            } else if b == p {
                assert(t[a] == s[sa]);
            } else {
                assert(t[a] == s[sa]);
                assert(t[b] == s[sb]);
            }
        }
    }
}

/// Whether `x` names a row `mask` allows.
pub open spec fn allowed(mask: Seq<bool>, x: usize) -> bool {
    (x as int) < mask.len() && mask[x as int]
}

/// Popping `stack` from the back until an allowed row comes off: that row
/// (if any) and what is left of the stack.
pub open spec fn popped(stack: Seq<usize>, mask: Seq<bool>) -> (Option<usize>, Seq<usize>)
    decreases stack.len(),
{
    if stack.len() == 0 {
        (None, stack)
    } else if allowed(mask, stack.last()) {
        (Some(stack.last()), stack.drop_last())
    } else {
        popped(stack.drop_last(), mask)
    }
}

/// The allowed rows of `start..end`, in ascending order.
pub open spec fn indices_where(mask: Seq<bool>, start: int, end: int) -> Seq<usize>
    decreases end - start,
{
    if end <= start {
        Seq::empty()
    } else {
        let rest = indices_where(mask, start, end - 1);
        if 0 <= end - 1 < mask.len() && mask[end - 1] {
            rest.push((end - 1) as usize)
        } else {
            rest
        }
    }
}

/// The last allowed row below `end`.
pub open spec fn last_before(mask: Seq<bool>, end: int) -> Option<int>
    decreases end,
{
    if end <= 0 {
        None
    } else if end - 1 < mask.len() && mask[end - 1] {
        Some(end - 1)
    } else {
        last_before(mask, end - 1)
    }
}

/// Where Previous goes within the restart window: the newest entry of the
/// navigation history that automatic playback may choose; with none, in an
/// ordered queue, the nearest such row before the current one; otherwise a
/// restart (`None`).
pub open spec fn previous_choice(plan: QueuePlan) -> Option<usize> {
    match popped(plan.history@, plan.mask()).0 {
        Some(i) => Some(i),
        None => match plan.current_index {
            None => None::<usize>,
            Some(c) => if plan.shuffle {
                None::<usize>
            } else {
                match last_before(plan.mask(), c as int) {
                    Some(i) => Some(i as usize),
                    None => None::<usize>,
                }
            },
        },
    }
}

/// The entries of `stack` from back to front that `mask` allows.
pub open spec fn allowed_from_back(stack: Seq<usize>, mask: Seq<bool>) -> Seq<usize>
    decreases stack.len(),
{
    if stack.len() == 0 {
        Seq::empty()
    } else {
        let rest = allowed_from_back(stack.drop_last(), mask);
        if allowed(mask, stack.last()) {
            seq![stack.last()] + rest
        } else {
            rest
        }
    }
}

/// The row automatic playback moves to next from `plan`, without taking it:
/// repeat-one stays on an available current row; shuffle names the row the
/// bag would give; otherwise the queue is walked in order.
pub open spec fn next_row(plan: QueuePlan) -> Option<usize> {
    match plan.current_index {
        None => None::<usize>,
        Some(c) => if plan.repeat == RepeatMode::Track && c < plan.queue@.len()
            && !plan.queue@[c as int].unavailable {
            Some(c)
        } else if plan.shuffle {
            popped(plan.shuffle_pool@, plan.mask()).0
        } else {
            match crate::eligibility::sequential_target(
                eligible_mask(plan.queue@, plan.exclusions@),
                c as int,
                plan.repeat,
            ) {
                Some(i) => Some(i as usize),
                None => None::<usize>,
            }
        },
    }
}

/// Whether `value` occurs in `values`.
pub fn contains_index(values: &Vec<usize>, value: usize) -> (found: bool)
    ensures
        found == values@.contains(value),
{
    let mut k: usize = 0;
    while k < values.len()
        invariant
            k <= values@.len(),
            forall|j: int| 0 <= j < k ==> values@[j] != value,
        decreases values.len() - k,
    {
        if values[k] == value {
            assert(values@[k as int] == value);
            return true;
        }
        k = k + 1;
    }
    false
}

/// Why a queue command was refused.
#[derive(Clone, Copy, Debug, PartialEq, Eq, Structural)]
pub enum QueueError {
    /// The index names no row of the queue.
    IndexOutOfRange { index: usize },
    /// A move names a row outside the queue at one end or the other.
    MoveOutOfRange { from: usize, to: usize },
    /// The command needs a current row and there is none.
    NoCurrentTrack,
    /// The row asked for is permanently unavailable.
    Unavailable,
    /// An empty queue can only start at index zero.
    NonzeroIndexForEmptyQueue { index: usize },
}

/// What the transport has to do after a row was removed.
#[derive(Clone, Copy, Debug, PartialEq, Eq, Structural)]
pub enum RemoveEffect {
    /// The current row is untouched: re-point the preload at what follows.
    Preload,
    /// The queue is now empty: stop playback.
    StopEmpty,
    /// The current row was removed and a replacement is current: load it.
    Reload,
    /// The current row was removed and nothing eligible can replace it.
    StopNoEligible,
}

/// One, two or three revision bumps never come back to where they started.
pub proof fn lemma_revisions_differ(r: u64)
    ensures
        next_revision(r) != r,
        next_revision(next_revision(r)) != r,
        next_revision(next_revision(next_revision(r))) != r,
{
}

/// The queue, its current row, and the plan automatic playback follows: the
/// modes, the drawn shuffle order (popped from the back), and the rows
/// Previous walks back through.
pub struct QueuePlan {
    pub queue: Vec<TrackRef>,
    pub current_index: Option<usize>,
    pub shuffle: bool,
    pub repeat: RepeatMode,
    pub shuffle_pool: Vec<usize>,
    pub history: Vec<usize>,
    pub random_state: u64,
    pub preview_mode: bool,
    pub exclusions: ExclusionStore,
    pub queue_revision: u64,
}

impl QueuePlan {
    /// Which rows automatic playback may choose. An editor preview ignores
    /// playlist exclusions and skips only unavailable rows.
    pub open spec fn mask(&self) -> Seq<bool> {
        if self.preview_mode {
            available_mask(self.queue@)
        } else {
            eligible_mask(self.queue@, self.exclusions@)
        }
    }

    /// Whether row `i` exists and automatic playback may choose it.
    pub open spec fn eligible(&self, i: int) -> bool {
        0 <= i < self.queue@.len() && self.mask()[i]
    }

    /// Whether `i` is the current row.
    pub open spec fn is_current(&self, i: int) -> bool {
        self.current_index matches Some(c) && c == i
    }

    /// The rows a fresh shuffle draw holds: every eligible row but the
    /// current one.
    pub open spec fn candidate(&self, i: int) -> bool {
        candidate_in(self.mask(), self.current_index, i)
    }

    /// What every shuffle bag holds to: empty while shuffle is off, and
    /// otherwise distinct rows of the queue none of which is the current row.
    pub open spec fn pool_valid(&self) -> bool {
        &&& !self.shuffle ==> self.shuffle_pool@.len() == 0
        &&& forall|k: int|
            0 <= k < self.shuffle_pool@.len() ==> (#[trigger] self.shuffle_pool@[k])
                < self.queue@.len() && !self.is_current(self.shuffle_pool@[k] as int)
        &&& self.shuffle_pool@.no_duplicates()
    }

    /// Everything but the shuffle bag, the generator and the revision is as
    /// it was in `other`.
    pub open spec fn same_rows(&self, other: &QueuePlan) -> bool {
        &&& self.queue@ == other.queue@
        &&& self.current_index == other.current_index
        &&& self.shuffle == other.shuffle
        &&& self.repeat == other.repeat
        &&& self.history@ == other.history@
        &&& self.preview_mode == other.preview_mode
        &&& self.exclusions@ == other.exclusions@
    }

    /// Whether automatic playback may choose row `index` now.
    pub fn automatic_track_eligible(&self, index: usize) -> (eligible: bool)
        ensures
            eligible == self.eligible(index as int),
    {
        if index >= self.queue.len() {
            return false;
        }
        let track = &self.queue[index];
        if self.preview_mode {
            !track.unavailable
        } else {
            automatic_track_eligible(&self.exclusions, track)
        }
    }

    /// Advances the generator one step and returns its new state.
    pub fn next_random(&mut self) -> (value: u64)
        ensures
            value == xorshift(old(self).random_state),
            final(self).random_state == value,
            final(self).same_rows(old(self)),
            final(self).shuffle_pool@ == old(self).shuffle_pool@,
            final(self).queue_revision == old(self).queue_revision,
    {
        let mut value = self.random_state;
        value = value ^ (value << 13u64);
        value = value ^ (value >> 7u64);
        value = value ^ (value << 17u64);
        self.random_state = value;
        value
    }

    /// Marks the queue rows, or the plan derived from them, as moved.
    pub fn queue_changed(&mut self)
        ensures
            *final(self) == revised(*old(self)),
            final(self).queue_revision == next_revision(old(self).queue_revision),
            final(self).same_rows(old(self)),
            final(self).shuffle_pool@ == old(self).shuffle_pool@,
            final(self).random_state == old(self).random_state,
    {
        self.queue_revision = self.queue_revision.wrapping_add(1);
    }

    /// Draws a brand-new random play order of every eligible row but the
    /// current one; empties the bag when shuffle is off.
    pub fn rebuild_shuffle_pool(&mut self)
        ensures
            final(self).same_rows(old(self)),
            final(self).shuffle ==> (final(self).shuffle_pool@, final(self).random_state)
                == fresh_lap(*old(self)),
            !final(self).shuffle ==> final(self).shuffle_pool@.len() == 0
                && final(self).random_state == old(self).random_state,
            final(self).queue_revision == next_revision(old(self).queue_revision),
            final(self).pool_valid(),
            final(self).shuffle ==> forall|i: usize|
                #![trigger final(self).shuffle_pool@.contains(i)]
                final(self).candidate(i as int) <==> final(self).shuffle_pool@.contains(i),
    {
        self.queue_changed();
        self.shuffle_pool.clear();
        if !self.shuffle {
            return;
        }
        let ghost mask = self.mask();
        let ghost current = self.current_index;
        let mut index: usize = 0;
        while index < self.queue.len()
            invariant
                mask == self.mask(),
                mask.len() == self.queue@.len(),
                current == self.current_index,
                self.same_rows(old(self)),
                self.shuffle,
                self.queue_revision == next_revision(old(self).queue_revision),
                index <= self.queue@.len(),
                forall|k: int|
                    0 <= k < self.shuffle_pool@.len() ==> (#[trigger] self.shuffle_pool@[k])
                        < index && candidate_in(mask, current, self.shuffle_pool@[k] as int),
                forall|i: int|
                    #![trigger candidate_in(mask, current, i)]
                    0 <= i < index && candidate_in(mask, current, i)
                        ==> self.shuffle_pool@.contains(i as usize),
                self.shuffle_pool@.no_duplicates(),
                self.shuffle_pool@ == candidates_upto(mask, current, index as int),
                self.random_state == old(self).random_state,
            decreases self.queue.len() - index,
        {
            let skip = match self.current_index {
                Some(current) => current == index,
                None => false,
            };
            if !skip && self.automatic_track_eligible(index) {
                let ghost before = self.shuffle_pool@;
                self.shuffle_pool.push(index);
                proof {
                    assert(self.shuffle_pool@.last() == index);
                    assert forall|i: int|
                        #![trigger candidate_in(mask, current, i)]
                        0 <= i < index + 1 && candidate_in(mask, current, i)
                            implies self.shuffle_pool@.contains(i as usize) by {
                        if i < index {
                            let k = choose|k: int| 0 <= k < before.len() && before[k] == i as usize;
                            assert(self.shuffle_pool@[k] == i as usize);
                        } else {
                            assert(self.shuffle_pool@[before.len() as int] == i as usize);
                        }
                    }
                    assert forall|a: int, b: int|
                        0 <= a < b < self.shuffle_pool@.len() implies self.shuffle_pool@[a]
                        != self.shuffle_pool@[b] by {
                        if b == before.len() {
                            assert(before[a] < index);
                        }
                    }
                }
            }
            index = index + 1;
        }
        let count = self.shuffle_pool.len();
        let ghost initial = self.shuffle_pool@;
        assert(initial == candidates_upto(mask, current, self.queue@.len() as int));
        let mut position: usize = count;
        while position > 1
            invariant
                drawn(self.shuffle_pool@, position as int, self.random_state) == drawn(
                    initial,
                    count as int,
                    old(self).random_state,
                ),
                mask == self.mask(),
                current == self.current_index,
                self.same_rows(old(self)),
                self.shuffle,
                self.queue_revision == next_revision(old(self).queue_revision),
                self.shuffle_pool@.len() == count,
                position <= count,
                forall|k: int|
                    0 <= k < self.shuffle_pool@.len() ==> candidate_in(
                        mask,
                        current,
                        #[trigger] self.shuffle_pool@[k] as int,
                    ),
                forall|i: int|
                    #![trigger candidate_in(mask, current, i)]
                    candidate_in(mask, current, i) ==> self.shuffle_pool@.contains(i as usize),
                self.shuffle_pool@.no_duplicates(),
            decreases position,
        {
            position = position - 1;
            let drawn = self.next_random();
            let other = ((drawn % ((position + 1) as u64)) as usize);
            let ghost before = self.shuffle_pool@;
            let a = self.shuffle_pool[position];
            let b = self.shuffle_pool[other];
            self.shuffle_pool.set(position, b);
            self.shuffle_pool.set(other, a);
            proof {
                let after = self.shuffle_pool@;
                assert(after =~= before.update(position as int, b).update(other as int, a));
                assert(after =~= swapped(before, position as int, other as int));
                assert forall|k: int| 0 <= k < after.len() implies candidate_in(
                    mask,
                    current,
                    #[trigger] after[k] as int,
                ) by {
                    if k == other as int {
                        assert(after[k] == before[position as int]);
                    } else if k == position as int {
                        assert(after[k] == before[other as int]);
                    } else {
                        assert(after[k] == before[k]);
                    }
                }
                assert forall|i: int|
                    #![trigger candidate_in(mask, current, i)]
                    candidate_in(mask, current, i) implies after.contains(i as usize) by {
                    let k = choose|k: int| 0 <= k < before.len() && before[k] == i as usize;
                    if k == position as int {
                        assert(after[other as int] == i as usize);
                    } else if k == other as int {
                        assert(after[position as int] == i as usize);
                    } else {
                        assert(after[k] == i as usize);
                    }
                }
                assert forall|x: int, y: int|
                    0 <= x < y < after.len() implies after[x] != after[y] by {
                    let sx = if x == other as int {
                        position as int
                    } else if x == position as int {
                        other as int
                    } else {
                        x
                    };
                    let sy = if y == other as int {
                        position as int
                    } else if y == position as int {
                        other as int
                    } else {
                        y
                    };
                    assert(after[x] == before[sx]);
                    assert(after[y] == before[sy]);
                }
            }
        }
    }

    /// Carries the drawn order across a change in the queue's shape: every
    /// entry goes through `change`, survivors keep their relative order, and
    /// entries that no longer name a row other than the current one leave.
    /// With shuffle off the bag is simply emptied.
    pub fn repair_shuffle_pool(&mut self, change: PoolRemap)
        ensures
            final(self).same_rows(old(self)),
            final(self).queue_revision == next_revision(old(self).queue_revision),
            final(self).random_state == old(self).random_state,
            !final(self).shuffle ==> final(self).shuffle_pool@.len() == 0,
            final(self).shuffle ==> final(self).shuffle_pool@ == repaired(
                old(self).shuffle_pool@,
                change,
                old(self).queue@.len() as int,
                old(self).current_index,
            ),
            old(self).shuffle_pool@.no_duplicates() ==> final(self).pool_valid(),
    {
        self.queue_changed();
        if !self.shuffle {
            self.shuffle_pool.clear();
            return;
        }
        let length = self.queue.len();
        let current = self.current_index;
        let ghost pool = self.shuffle_pool@;
        let mut out: Vec<usize> = Vec::new();
        let mut i: usize = 0;
        while i < self.shuffle_pool.len()
            invariant
                i <= self.shuffle_pool@.len(),
                pool == self.shuffle_pool@,
                length == self.queue@.len(),
                current == self.current_index,
                out@ == repaired(pool.subrange(0, i as int), change, length as int, current),
            decreases self.shuffle_pool.len() - i,
        {
            let x = self.shuffle_pool[i];
            let mapped: Option<usize> = match change {
                PoolRemap::Keep => Some(x),
                PoolRemap::Removed(index) => if x == index {
                    None
                } else if x > index {
                    Some(x - 1)
                } else {
                    Some(x)
                },
                PoolRemap::Moved(from, to) => Some(
                    crate::eligibility::remap_current_index_after_move(x, from, to),
                ),
            };
            proof {
                let next = pool.subrange(0, i + 1);
                assert(next.drop_last() =~= pool.subrange(0, i as int));
                assert(next.last() == x);
            }
            match mapped {
                Some(y) => {
                    let is_current = match current {
                        Some(c) => c == y,
                        None => false,
                    };
                    if y < length && !is_current {
                        out.push(y);
                    }
                },
                None => {},
            }
            i = i + 1;
        }
        proof {
            assert(pool.subrange(0, pool.len() as int) =~= pool);
            lemma_repaired_entries(pool, change, length as int, current);
            if pool.no_duplicates() {
                lemma_repaired_no_duplicates(pool, change, length as int, current);
            }
        }
        self.shuffle_pool = out;
    }

    /// Puts `index` into the drawn order at a position drawn from the same
    /// generator that shuffled the bag.
    pub fn splice_into_shuffle_pool(&mut self, index: usize)
        ensures
            final(self).same_rows(old(self)),
            final(self).queue_revision == old(self).queue_revision,
            final(self).random_state == xorshift(old(self).random_state),
            final(self).shuffle_pool@ == old(self).shuffle_pool@.insert(
                xorshift(old(self).random_state) as int % (old(self).shuffle_pool@.len() + 1) as int,
                index,
            ),
    {
        let drawn = self.next_random();
        let count = self.shuffle_pool.len();
        let position = ((drawn as u128) % ((count as u128) + 1)) as usize;
        self.shuffle_pool.insert(position, index);
    }

    /// Folds the rows appended at `first_new` and beyond into the drawn
    /// order, each at a drawn position; the rows already in the bag keep
    /// their order.
    pub fn splice_new_rows_into_shuffle_pool(&mut self, first_new: usize)
        requires
            old(self).pool_valid(),
            first_new <= old(self).queue@.len(),
            forall|k: int|
                0 <= k < old(self).shuffle_pool@.len() ==> #[trigger] old(self).shuffle_pool@[k]
                    < first_new,
        ensures
            final(self).same_rows(old(self)),
            final(self).queue_revision == next_revision(old(self).queue_revision),
            final(self).pool_valid(),
            keep_where(final(self).shuffle_pool@, |x: usize| x < first_new) == old(self).shuffle_pool@,
            final(self).shuffle ==> forall|i: usize|
                #![trigger final(self).shuffle_pool@.contains(i)]
                first_new <= i ==> (final(self).shuffle_pool@.contains(i) <==> final(self).candidate(i as int)),
    {
        self.queue_changed();
        if !self.shuffle {
            self.shuffle_pool.clear();
            proof {
                assert(keep_where(self.shuffle_pool@, |x: usize| x < first_new) =~= Seq::empty());
            }
            return;
        }
        proof {
            lemma_keep_where_all(self.shuffle_pool@, |x: usize| x < first_new);
        }
        let ghost mask = self.mask();
        let ghost current = self.current_index;
        let ghost below = |x: usize| x < first_new;
        let mut index = first_new;
        while index < self.queue.len()
            invariant
                mask == self.mask(),
                mask.len() == self.queue@.len(),
                current == self.current_index,
                self.same_rows(old(self)),
                self.shuffle,
                self.queue_revision == next_revision(old(self).queue_revision),
                first_new <= index <= self.queue@.len(),
                below == (|x: usize| x < first_new),
                keep_where(self.shuffle_pool@, below) == old(self).shuffle_pool@,
                self.shuffle_pool@.no_duplicates(),
                forall|k: int|
                    0 <= k < self.shuffle_pool@.len() ==> (#[trigger] self.shuffle_pool@[k]) < index
                        && !(current matches Some(c) && c == self.shuffle_pool@[k]),
                forall|i: usize|
                    #![trigger self.shuffle_pool@.contains(i)]
                    first_new <= i < index ==> (self.shuffle_pool@.contains(i) <==> candidate_in(
                        mask,
                        current,
                        i as int,
                    )),
            decreases self.queue.len() - index,
        {
            let is_current = match self.current_index {
                Some(c) => c == index,
                None => false,
            };
            if self.automatic_track_eligible(index) && !is_current {
                let ghost before = self.shuffle_pool@;
                proof {
                    if before.contains(index) {
                        let k = choose|k: int| 0 <= k < before.len() && before[k] == index;
                        assert(before[k] < index);
                    }
                }
                self.splice_into_shuffle_pool(index);
                proof {
                    let p = xorshift(old(self).random_state) as int;
                    let pos = self.shuffle_pool@.len() - 1;
                    let q = choose|q: int|
                        0 <= q <= before.len() && self.shuffle_pool@ == before.insert(q, index);
                    lemma_insert_contains(before, q, index);
                    lemma_keep_where_insert(before, q, index, below);
                    assert forall|k: int|
                        0 <= k < self.shuffle_pool@.len() implies (#[trigger] self.shuffle_pool@[k])
                        < index + 1 && !(current matches Some(c) && c == self.shuffle_pool@[k]) by {
                        let x = self.shuffle_pool@[k];
                        assert(self.shuffle_pool@.contains(x));
                        if x != index {
                            assert(before.contains(x));
                            let j = choose|j: int| 0 <= j < before.len() && before[j] == x;
                            assert(before[j] < index);
                        }
                    }
                }
            } else {
                proof {
                    let before = self.shuffle_pool@;
                    if before.contains(index) {
                        let k = choose|k: int| 0 <= k < before.len() && before[k] == index;
                        assert(before[k] < index);
                    }
                }
            }
            index = index + 1;
        }
        proof {
            assert forall|k: int|
                0 <= k < self.shuffle_pool@.len() implies (#[trigger] self.shuffle_pool@[k])
                < self.queue@.len() && !self.is_current(self.shuffle_pool@[k] as int) by {}
        }
    }

    /// Repairs the bag after a change to what counts as eligible: rows that
    /// became ineligible leave, rows that became eligible are spliced in, and
    /// every survivor keeps its drawn position relative to the others.
    pub fn repair_shuffle_pool_for_eligibility(&mut self)
        requires
            old(self).pool_valid(),
        ensures
            final(self).same_rows(old(self)),
            final(self).queue_revision == next_revision(old(self).queue_revision),
            final(self).pool_valid(),
            keep_where(
                final(self).shuffle_pool@,
                |x: usize| old(self).shuffle_pool@.contains(x),
            ) == keep_where(old(self).shuffle_pool@, |x: usize| final(self).eligible(x as int)),
            final(self).shuffle ==> forall|i: usize|
                #![trigger final(self).shuffle_pool@.contains(i)]
                final(self).shuffle_pool@.contains(i) <==> final(self).candidate(i as int),
    {
        self.queue_changed();
        let ghost pool = self.shuffle_pool@;
        let ghost in_old = |x: usize| pool.contains(x);
        if !self.shuffle {
            self.shuffle_pool.clear();
            proof {
                assert(keep_where(self.shuffle_pool@, in_old) =~= Seq::empty());
                assert(pool.len() == 0);
            }
            return;
        }
        let length = self.queue.len();
        let ghost mask = self.mask();
        let ghost current = self.current_index;
        let ghost keep = |x: usize| self.eligible(x as int);
        // Which rows the bag held before the repair.
        let mut pooled: Vec<bool> = Vec::new();
        let mut i: usize = 0;
        while i < length
            invariant
                i <= length,
                pooled@.len() == i,
                forall|k: int| 0 <= k < i ==> !(#[trigger] pooled@[k]),
            decreases length - i,
        {
            pooled.push(false);
            i = i + 1;
        }
        let mut k: usize = 0;
        while k < self.shuffle_pool.len()
            invariant
                pool == self.shuffle_pool@,
                length == self.queue@.len(),
                k <= pool.len(),
                pooled@.len() == length,
                forall|x: int|
                    0 <= x < length ==> (#[trigger] pooled@[x] <==> pool.subrange(
                        0,
                        k as int,
                    ).contains(x as usize)),
            decreases self.shuffle_pool.len() - k,
        {
            let x = self.shuffle_pool[k];
            if x < length {
                pooled.set(x, true);
            }
            proof {
                assert forall|y: int| 0 <= y < length implies (#[trigger] pooled@[y] <==> pool.subrange(
                    0,
                    k + 1,
                ).contains(y as usize)) by {
                    let before = pool.subrange(0, k as int);
                    let after = pool.subrange(0, k + 1);
                    assert(after =~= before.push(x));
                    if before.contains(y as usize) {
                        let j = choose|j: int| 0 <= j < before.len() && before[j] == y as usize;
                        assert(after[j] == y as usize);
                    }
                    if after.contains(y as usize) {
                        let j = choose|j: int| 0 <= j < after.len() && after[j] == y as usize;
                        if j < k {
                            assert(before[j] == y as usize);
                        }
                    }
                    if x == y as usize {
                        assert(after[k as int] == x);
                    }
                }
            }
            k = k + 1;
        }
        proof {
            assert(pool.subrange(0, pool.len() as int) =~= pool);
        }
        // Rows that stopped being eligible leave; the rest keep their order.
        let mut kept: Vec<usize> = Vec::new();
        let mut k: usize = 0;
        while k < self.shuffle_pool.len()
            invariant
                pool == self.shuffle_pool@,
                mask == self.mask(),
                current == self.current_index,
                length == self.queue@.len(),
                keep == (|x: usize| self.eligible(x as int)),
                k <= pool.len(),
                kept@ == keep_where(pool.subrange(0, k as int), keep),
            decreases self.shuffle_pool.len() - k,
        {
            let x = self.shuffle_pool[k];
            proof {
                let next = pool.subrange(0, k + 1);
                assert(next.drop_last() =~= pool.subrange(0, k as int));
                assert(next.last() == x);
            }
            if self.automatic_track_eligible(x) {
                kept.push(x);
            }
            k = k + 1;
        }
        proof {
            assert(pool.subrange(0, pool.len() as int) =~= pool);
            lemma_keep_where_entries(pool, keep);
            assert forall|k: int| 0 <= k < kept@.len() implies in_old(#[trigger] kept@[k]) && kept@[k]
                < length && !(current matches Some(c) && c == kept@[k]) by {
                assert(kept@.contains(kept@[k]));
                let j = choose|j: int| 0 <= j < pool.len() && pool[j] == kept@[k];
                assert(!old(self).is_current(pool[j] as int));
            }
            lemma_keep_where_all(kept@, in_old);
        }
        self.shuffle_pool = kept;
        let mut index: usize = 0;
        while index < length
            invariant
                mask == self.mask(),
                current == self.current_index,
                length == self.queue@.len(),
                mask.len() == length,
                self.same_rows(old(self)),
                self.shuffle,
                self.queue_revision == next_revision(old(self).queue_revision),
                pool == old(self).shuffle_pool@,
                in_old == (|x: usize| pool.contains(x)),
                keep == (|x: usize| self.eligible(x as int)),
                pooled@.len() == length,
                forall|x: int| 0 <= x < length ==> (#[trigger] pooled@[x] <==> pool.contains(x as usize)),
                index <= length,
                keep_where(self.shuffle_pool@, in_old) == keep_where(pool, keep),
                self.shuffle_pool@.no_duplicates(),
                forall|k: int|
                    0 <= k < self.shuffle_pool@.len() ==> (#[trigger] self.shuffle_pool@[k]) < length
                        && !(current matches Some(c) && c == self.shuffle_pool@[k]),
                forall|i: usize|
                    #![trigger self.shuffle_pool@.contains(i)]
                    self.shuffle_pool@.contains(i) ==> (candidate_in(mask, current, i as int) && (
                    pool.contains(i) || i < index)),
                forall|i: usize|
                    #![trigger self.shuffle_pool@.contains(i)]
                    candidate_in(mask, current, i as int) && (pool.contains(i) || i < index)
                        ==> self.shuffle_pool@.contains(i),
            decreases length - index,
        {
            let is_current = match self.current_index {
                Some(c) => c == index,
                None => false,
            };
            if self.automatic_track_eligible(index) && !is_current && !pooled[index] {
                let ghost before = self.shuffle_pool@;
                proof {
                    if before.contains(index) {
                        assert(pool.contains(index));
                    }
                }
                self.splice_into_shuffle_pool(index);
                proof {
                    let q = choose|q: int|
                        0 <= q <= before.len() && self.shuffle_pool@ == before.insert(q, index);
                    lemma_insert_contains(before, q, index);
                    lemma_keep_where_insert(before, q, index, in_old);
                    assert forall|k: int|
                        0 <= k < self.shuffle_pool@.len() implies (#[trigger] self.shuffle_pool@[k])
                        < length && !(current matches Some(c) && c == self.shuffle_pool@[k]) by {
                        let x = self.shuffle_pool@[k];
                        assert(self.shuffle_pool@.contains(x));
                        if x != index {
                            assert(before.contains(x));
                            let j = choose|j: int| 0 <= j < before.len() && before[j] == x;
                            assert(before[j] < length);
                        }
                    }
                }
            } else {
                proof {
                    let before = self.shuffle_pool@;
                    assert forall|i: usize|
                        #![trigger before.contains(i)]
                        candidate_in(mask, current, i as int) && (pool.contains(i) || i < index + 1)
                            implies before.contains(i) by {
                        if i == index && !pool.contains(i) {
                            assert(!candidate_in(mask, current, i as int));
                        }
                    }
                }
            }
            index = index + 1;
        }
        proof {
            assert forall|i: usize|
                #![trigger self.shuffle_pool@.contains(i)]
                self.shuffle_pool@.contains(i) <==> self.candidate(i as int) by {
                if candidate_in(mask, current, i as int) {
                    assert(i < length);
                }
            }
            assert forall|k: int|
                0 <= k < self.shuffle_pool@.len() implies (#[trigger] self.shuffle_pool@[k])
                < self.queue@.len() && !self.is_current(self.shuffle_pool@[k] as int) by {}
        }
    }

    /// Pops the shuffle bag from the back until an eligible row comes off.
    fn pop_eligible_from_pool(&mut self) -> (next: Option<usize>)
        ensures
            final(self).same_rows(old(self)),
            final(self).queue_revision == old(self).queue_revision,
            final(self).random_state == old(self).random_state,
            next == popped(old(self).shuffle_pool@, old(self).mask()).0,
            final(self).shuffle_pool@ == popped(old(self).shuffle_pool@, old(self).mask()).1,
    {
        let ghost mask = self.mask();
        loop
            invariant
                mask == self.mask(),
                mask.len() == self.queue@.len(),
                self.same_rows(old(self)),
                self.queue_revision == old(self).queue_revision,
                self.random_state == old(self).random_state,
                popped(self.shuffle_pool@, mask) == popped(old(self).shuffle_pool@, mask),
            decreases self.shuffle_pool@.len(),
        {
            match self.shuffle_pool.pop() {
                None => {
                    return None;
                },
                Some(index) => {
                    if self.automatic_track_eligible(index) {
                        return Some(index);
                    }
                },
            }
        }
    }

    /// Chooses the row automatic playback moves to from the current one, and
    /// takes it out of the shuffle bag. Repeat-one at a natural end stays on
    /// an available current row (unless `skip_current_for_repeat`); shuffle
    /// pops the bag, refilling it with a fresh lap first when it is empty
    /// under repeat-context; otherwise the queue is walked in order.
    pub fn take_next_index_with_skip(&mut self, at_end: bool, skip_current_for_repeat: bool) -> (next:
        Option<usize>)
        requires
            old(self).current_index matches Some(c) ==> c < usize::MAX,
            old(self).current_index is Some && !old(self).shuffle && old(self).repeat
                == RepeatMode::Context ==> old(self).queue@.len() > 0,
        ensures
            took_next(*old(self), *final(self), at_end, skip_current_for_repeat, next),
    {
        let current = match self.current_index {
            Some(c) => c,
            None => {
                return None;
            },
        };
        if at_end && !skip_current_for_repeat && self.repeat == RepeatMode::Track
            && current < self.queue.len() && !self.queue[current].unavailable {
            return Some(current);
        }
        if self.shuffle {
            if self.shuffle_pool.len() == 0 && self.repeat == RepeatMode::Context {
                self.rebuild_shuffle_pool();
                let ghost lap = self.shuffle_pool@;
                let next = self.pop_eligible_from_pool();
                return next;
            }
            return self.pop_eligible_from_pool();
        }
        crate::eligibility::sequential_automatic_index(
            self.queue.as_slice(),
            current,
            self.repeat,
            &self.exclusions,
        )
    }

    /// The row automatic playback would move to next, without taking it:
    /// what a preload asks for.
    pub fn peek_next_index(&self) -> (next: Option<usize>)
        requires
            self.current_index matches Some(c) ==> c < usize::MAX,
            self.current_index is Some && !self.shuffle && self.repeat == RepeatMode::Context
                ==> self.queue@.len() > 0,
        ensures
            next == next_row(*self),
    {
        let current = match self.current_index {
            Some(c) => c,
            None => {
                return None;
            },
        };
        if self.repeat == RepeatMode::Track && current < self.queue.len()
            && !self.queue[current].unavailable {
            return Some(current);
        }
        if self.shuffle {
            let ghost mask = self.mask();
            let mut k = self.shuffle_pool.len();
            assert(self.shuffle_pool@.subrange(0, k as int) =~= self.shuffle_pool@);
            while k > 0
                invariant
                    self.shuffle,
                    self.current_index == Some(current),
                    !(self.repeat == RepeatMode::Track && current < self.queue@.len()
                        && !self.queue@[current as int].unavailable),
                    mask == self.mask(),
                    mask.len() == self.queue@.len(),
                    k <= self.shuffle_pool@.len(),
                    popped(self.shuffle_pool@, mask).0 == popped(
                        self.shuffle_pool@.subrange(0, k as int),
                        mask,
                    ).0,
                decreases k,
            {
                let index = self.shuffle_pool[k - 1];
                proof {
                    let part = self.shuffle_pool@.subrange(0, k as int);
                    assert(part.drop_last() =~= self.shuffle_pool@.subrange(0, k - 1));
                    assert(part.last() == index);
                }
                if self.automatic_track_eligible(index) {
                    return Some(index);
                }
                k = k - 1;
            }
            return None;
        }
        crate::eligibility::sequential_automatic_index(
            self.queue.as_slice(),
            current,
            self.repeat,
            &self.exclusions,
        )
    }

    /// The allowed rows of `start..end` of this queue, in order.
    fn eligible_indices(&self, start: usize, end: usize) -> (rows: Vec<usize>)
        requires
            start <= end,
        ensures
            rows@ == indices_where(self.mask(), start as int, end as int),
    {
        let mut rows: Vec<usize> = Vec::new();
        let mut i = start;
        while i < end
            invariant
                start <= i <= end,
                rows@ == indices_where(self.mask(), start as int, i as int),
            decreases end - i,
        {
            if self.automatic_track_eligible(i) {
                rows.push(i);
            }
            i = i + 1;
        }
        rows
    }

    /// The order the queue will actually play from here, current row
    /// excluded: the shuffle bag in pop order when shuffle is on, the
    /// sequential walk (wrapping through the current row under
    /// repeat-context) when it is off, ineligible rows dropped either way.
    /// Repeat-one is ignored. With no current row, every eligible row.
    pub fn upcoming_indices(&self) -> (upcoming: Vec<usize>)
        ensures
            upcoming@ == match self.current_index {
                None => indices_where(self.mask(), 0, self.queue@.len() as int),
                Some(c) => if self.shuffle {
                    allowed_from_back(self.shuffle_pool@, self.mask())
                } else {
                    let after = if c < usize::MAX {
                        indices_where(self.mask(), c + 1, self.queue@.len() as int)
                    } else {
                        Seq::empty()
                    };
                    if self.repeat == RepeatMode::Context {
                        after + indices_where(
                            self.mask(),
                            0,
                            crate::eligibility::min_int(
                                c as int,
                                if self.queue@.len() == 0 {
                                    0
                                } else {
                                    self.queue@.len() - 1
                                },
                            ) + 1,
                        )
                    } else {
                        after
                    }
                },
            },
    {
        let length = self.queue.len();
        let current = match self.current_index {
            None => {
                return self.eligible_indices(0, length);
            },
            Some(c) => c,
        };
        if self.shuffle {
            let ghost mask = self.mask();
            let mut rows: Vec<usize> = Vec::new();
            let mut k = self.shuffle_pool.len();
            assert(self.shuffle_pool@.subrange(0, k as int) =~= self.shuffle_pool@);
            assert(rows@ + allowed_from_back(self.shuffle_pool@, mask) =~= allowed_from_back(
                self.shuffle_pool@,
                mask,
            ));
            while k > 0
                invariant
                    mask == self.mask(),
                    mask.len() == self.queue@.len(),
                    k <= self.shuffle_pool@.len(),
                    allowed_from_back(self.shuffle_pool@, mask) == rows@ + allowed_from_back(
                        self.shuffle_pool@.subrange(0, k as int),
                        mask,
                    ),
                decreases k,
            {
                let index = self.shuffle_pool[k - 1];
                proof {
                    let part = self.shuffle_pool@.subrange(0, k as int);
                    assert(part.drop_last() =~= self.shuffle_pool@.subrange(0, k - 1));
                    assert(part.last() == index);
                }
                if self.automatic_track_eligible(index) {
                    let ghost before = rows@;
                    rows.push(index);
                    proof {
                        let rest = allowed_from_back(self.shuffle_pool@.subrange(0, k - 1), mask);
                        assert(before + (seq![index] + rest) =~= rows@ + rest);
                    }
                }
                k = k - 1;
            }
            proof {
                assert(self.shuffle_pool@.subrange(0, 0) =~= Seq::<usize>::empty());
                assert(rows@ + Seq::<usize>::empty() =~= rows@);
            }
            return rows;
        }
        let mut upcoming = if current < usize::MAX && current + 1 <= length {
            self.eligible_indices(current + 1, length)
        } else {
            Vec::new()
        };
        proof {
            if current < usize::MAX && current + 1 > length {
                assert(indices_where(self.mask(), current + 1, length as int) =~= Seq::<usize>::empty());
            }
        }
        if self.repeat == RepeatMode::Context {
            let last = if length == 0 {
                0
            } else {
                length - 1
            };
            let end = if current < last {
                current
            } else {
                last
            };
            let mut wrapped = self.eligible_indices(0, end + 1);
            upcoming.append(&mut wrapped);
        }
        upcoming
    }

    /// Which row Previous switches to, or `None` to restart the current row
    /// instead. `played_ms` is how far into the current row the listener is;
    /// past the restart window the answer is always a restart. Otherwise the
    /// navigation history is popped back to its newest eligible entry, and
    /// with none left an ordered queue falls back to the nearest eligible row
    /// before the current one.
    pub fn previous_index(&mut self, played_ms: u32) -> (previous: Option<usize>)
        ensures
            final(self).queue@ == old(self).queue@,
            final(self).current_index == old(self).current_index,
            final(self).shuffle == old(self).shuffle,
            final(self).repeat == old(self).repeat,
            final(self).preview_mode == old(self).preview_mode,
            final(self).exclusions@ == old(self).exclusions@,
            final(self).shuffle_pool@ == old(self).shuffle_pool@,
            final(self).queue_revision == old(self).queue_revision,
            played_ms > PREVIOUS_RESTART_THRESHOLD_MS ==> {
                &&& previous is None
                &&& final(self).history@ == old(self).history@
            },
            played_ms <= PREVIOUS_RESTART_THRESHOLD_MS ==> {
                &&& final(self).history@ == popped(old(self).history@, old(self).mask()).1
                &&& previous == previous_choice(*old(self))
            },
    {
        if played_ms > PREVIOUS_RESTART_THRESHOLD_MS {
            return None;
        }
        let ghost mask = self.mask();
        loop
            invariant
                played_ms <= PREVIOUS_RESTART_THRESHOLD_MS,
                mask == self.mask(),
                mask == old(self).mask(),
                mask.len() == self.queue@.len(),
                self.queue@ == old(self).queue@,
                self.current_index == old(self).current_index,
                self.shuffle == old(self).shuffle,
                self.repeat == old(self).repeat,
                self.preview_mode == old(self).preview_mode,
                self.exclusions@ == old(self).exclusions@,
                self.shuffle_pool@ == old(self).shuffle_pool@,
                self.queue_revision == old(self).queue_revision,
                popped(self.history@, mask) == popped(old(self).history@, mask),
            ensures
                mask == self.mask(),
                mask.len() == self.queue@.len(),
                self.queue@ == old(self).queue@,
                self.current_index == old(self).current_index,
                self.shuffle == old(self).shuffle,
                self.repeat == old(self).repeat,
                self.preview_mode == old(self).preview_mode,
                self.exclusions@ == old(self).exclusions@,
                self.shuffle_pool@ == old(self).shuffle_pool@,
                self.queue_revision == old(self).queue_revision,
                self.history@ == popped(old(self).history@, mask).1,
                popped(old(self).history@, mask).0 is None,
            decreases self.history@.len(),
        {
            match self.history.pop() {
                None => {
                    break;
                },
                Some(index) => {
                    if self.automatic_track_eligible(index) {
                        return Some(index);
                    }
                },
            }
        }
        let current = match self.current_index {
            None => {
                return None;
            },
            Some(c) => c,
        };
        if self.shuffle {
            return None;
        }
        let mut k = current;
        while k > 0
            invariant
                played_ms <= PREVIOUS_RESTART_THRESHOLD_MS,
                k <= current,
                Some(current) == self.current_index,
                !self.shuffle,
                mask == self.mask(),
                mask == old(self).mask(),
                mask.len() == self.queue@.len(),
                self.queue@ == old(self).queue@,
                self.current_index == old(self).current_index,
                self.shuffle == old(self).shuffle,
                self.repeat == old(self).repeat,
                self.preview_mode == old(self).preview_mode,
                self.exclusions@ == old(self).exclusions@,
                self.shuffle_pool@ == old(self).shuffle_pool@,
                self.queue_revision == old(self).queue_revision,
                self.history@ == popped(old(self).history@, mask).1,
                popped(old(self).history@, mask).0 is None,
                last_before(mask, current as int) == last_before(mask, k as int),
            decreases k,
        {
            if self.automatic_track_eligible(k - 1) {
                return Some(k - 1);
            }
            k = k - 1;
        }
        None
    }

    /// Switches shuffle on or off. A change clears the navigation history
    /// and draws a fresh bag (or empties it); the same value changes nothing.
    pub fn set_shuffle(&mut self, enabled: bool) -> (changed: bool)
        ensures
            changed == (old(self).shuffle != enabled),
            !changed ==> *final(self) == *old(self),
            changed ==> {
                &&& final(self).shuffle == enabled
                &&& final(self).history@.len() == 0
                &&& final(self).queue@ == old(self).queue@
                &&& final(self).current_index == old(self).current_index
                &&& final(self).repeat == old(self).repeat
                &&& final(self).queue_revision != old(self).queue_revision
                &&& final(self).pool_valid()
                &&& enabled ==> forall|i: usize|
                    #![trigger final(self).shuffle_pool@.contains(i)]
                    final(self).candidate(i as int) <==> final(self).shuffle_pool@.contains(i)
            },
    {
        if self.shuffle == enabled {
            return false;
        }
        self.shuffle = enabled;
        self.queue_changed();
        self.history.clear();
        self.rebuild_shuffle_pool();
        true
    }

    /// Sets the repeat mode; the same value changes nothing.
    pub fn set_repeat(&mut self, mode: RepeatMode) -> (changed: bool)
        ensures
            changed == (old(self).repeat != mode),
            !changed ==> *final(self) == *old(self),
            changed ==> {
                &&& final(self).repeat == mode
                &&& final(self).queue@ == old(self).queue@
                &&& final(self).current_index == old(self).current_index
                &&& final(self).shuffle == old(self).shuffle
                &&& final(self).shuffle_pool@ == old(self).shuffle_pool@
                &&& final(self).history@ == old(self).history@
                &&& final(self).queue_revision == next_revision(old(self).queue_revision)
            },
    {
        if self.repeat == mode {
            return false;
        }
        self.repeat = mode;
        self.queue_changed();
        true
    }

    /// Moves the row at `from` to `to`. The current row, and every row in the
    /// shuffle bag, follows its track; the navigation history is cleared.
    pub fn move_queue(&mut self, from: usize, to: usize) -> (result: Result<(), QueueError>)
        ensures
            (from >= old(self).queue@.len() || to >= old(self).queue@.len()) ==> {
                &&& result == Err::<(), QueueError>(QueueError::MoveOutOfRange { from, to })
                &&& *final(self) == *old(self)
            },
            (from < old(self).queue@.len() && to < old(self).queue@.len()) ==> result is Ok,
            (from < old(self).queue@.len() && to < old(self).queue@.len() && from == to) ==> *final(self) == *old(self),
            (from < old(self).queue@.len() && to < old(self).queue@.len() && from != to) ==> {
                &&& final(self).queue@ == crate::eligibility::moved(
                    old(self).queue@,
                    from as int,
                    to as int,
                )
                &&& final(self).current_index == match old(self).current_index {
                    Some(c) => Some(moved_index(c as int, from as int, to as int) as usize),
                    None => None::<usize>,
                }
                &&& final(self).history@.len() == 0
                &&& final(self).shuffle == old(self).shuffle
                &&& final(self).repeat == old(self).repeat
                &&& final(self).queue_revision != old(self).queue_revision
                &&& !final(self).shuffle ==> final(self).shuffle_pool@.len() == 0
                &&& final(self).shuffle ==> final(self).shuffle_pool@ == repaired(
                    old(self).shuffle_pool@,
                    PoolRemap::Moved(from, to),
                    old(self).queue@.len() as int,
                    final(self).current_index,
                )
                &&& old(self).shuffle_pool@.no_duplicates() ==> final(self).pool_valid()
            },
    {
        let length = self.queue.len();
        if from >= length || to >= length {
            return Err(QueueError::MoveOutOfRange { from, to });
        }
        if from == to {
            return Ok(());
        }
        let track = self.queue.remove(from);
        self.queue.insert(to, track);
        self.queue_changed();
        match self.current_index {
            Some(current) => {
                self.current_index = Some(
                    crate::eligibility::remap_current_index_after_move(current, from, to),
                );
            },
            None => {},
        }
        self.history.clear();
        self.repair_shuffle_pool(PoolRemap::Moved(from, to));
        Ok(())
    }

    /// Removes the row at `index`. Rows after it slide down one; when it was
    /// the current row, the first eligible row from its place (wrapping) is
    /// promoted. The bag loses the row, keeps its order, and never holds the
    /// new current row.
    pub fn remove_queue(&mut self, index: usize) -> (result: Result<RemoveEffect, QueueError>)
        ensures
            index >= old(self).queue@.len() ==> {
                &&& result == Err::<RemoveEffect, QueueError>(
                    QueueError::IndexOutOfRange { index },
                )
                &&& *final(self) == *old(self)
            },
            index < old(self).queue@.len() ==> {
                &&& result is Ok
                &&& final(self).queue@ == old(self).queue@.remove(index as int)
                &&& final(self).history@.len() == 0
                &&& final(self).queue_revision != old(self).queue_revision
                &&& final(self).preview_mode == (old(self).preview_mode && old(self).current_index != Some(index))
                &&& match old(self).current_index {
                    None => {
                        &&& final(self).current_index is None
                        &&& result == Ok::<RemoveEffect, QueueError>(RemoveEffect::Preload)
                    },
                    Some(c) => if final(self).queue@.len() == 0 {
                        &&& final(self).current_index is None
                        &&& result == Ok::<RemoveEffect, QueueError>(RemoveEffect::StopEmpty)
                    } else if c == index {
                        let start = crate::eligibility::min_int(
                            c as int,
                            final(self).queue@.len() - 1,
                        );
                        let mask = eligible_mask(final(self).queue@, final(self).exclusions@);
                        let replacement = match crate::eligibility::first_in(
                            mask,
                            start,
                            final(self).queue@.len() as int,
                        ) {
                            Some(i) => Some(i as usize),
                            None => match crate::eligibility::first_in(mask, 0, start) {
                                Some(i) => Some(i as usize),
                                None => None::<usize>,
                            },
                        };
                        &&& final(self).current_index == replacement
                        &&& result == Ok::<RemoveEffect, QueueError>(
                            if replacement is Some {
                                RemoveEffect::Reload
                            } else {
                                RemoveEffect::StopNoEligible
                            },
                        )
                    } else if index < c {
                        &&& final(self).current_index == Some((c - 1) as usize)
                        &&& result == Ok::<RemoveEffect, QueueError>(RemoveEffect::Preload)
                    } else {
                        &&& final(self).current_index == Some(c)
                        &&& result == Ok::<RemoveEffect, QueueError>(RemoveEffect::Preload)
                    },
                }
                &&& !final(self).shuffle ==> final(self).shuffle_pool@.len() == 0
                &&& final(self).shuffle ==> final(self).shuffle_pool@ == repaired(
                    old(self).shuffle_pool@,
                    PoolRemap::Removed(index),
                    final(self).queue@.len() as int,
                    final(self).current_index,
                )
                &&& old(self).shuffle_pool@.no_duplicates() ==> final(self).pool_valid()
            },
            final(self).shuffle == old(self).shuffle,
            final(self).repeat == old(self).repeat,
            final(self).exclusions@ == old(self).exclusions@,
            final(self).random_state == old(self).random_state,
    {
        if index >= self.queue.len() {
            return Err(QueueError::IndexOutOfRange { index });
        }
        let current = self.current_index;
        if current == Some(index) {
            self.preview_mode = false;
        }
        self.queue.remove(index);
        self.queue_changed();
        self.history.clear();
        let effect = match current {
            None => RemoveEffect::Preload,
            Some(c) => {
                if self.queue.len() == 0 {
                    self.current_index = None;
                    RemoveEffect::StopEmpty
                } else if c == index {
                    let last = self.queue.len() - 1;
                    let start = if c < last {
                        c
                    } else {
                        last
                    };
                    let replacement = crate::eligibility::first_automatic_wrapping(
                        self.queue.as_slice(),
                        start,
                        &self.exclusions,
                    );
                    self.current_index = replacement;
                    if replacement.is_some() {
                        RemoveEffect::Reload
                    } else {
                        RemoveEffect::StopNoEligible
                    }
                } else if index < c {
                    self.current_index = Some(c - 1);
                    RemoveEffect::Preload
                } else {
                    RemoveEffect::Preload
                }
            },
        };
        self.repair_shuffle_pool(PoolRemap::Removed(index));
        Ok(effect)
    }

    /// Appends `tracks` to the queue and splices each eligible new row into
    /// the shuffle bag at a drawn position, leaving the drawn order of the
    /// rows already there alone. The navigation history is cleared.
    pub fn append_rows(&mut self, tracks: Vec<TrackRef>)
        requires
            old(self).pool_valid(),
        ensures
            final(self).queue@ == old(self).queue@ + tracks@,
            final(self).current_index == old(self).current_index,
            final(self).shuffle == old(self).shuffle,
            final(self).repeat == old(self).repeat,
            final(self).preview_mode == old(self).preview_mode,
            tracks@.len() > 0 ==> {
                &&& final(self).history@.len() == 0
                &&& final(self).queue_revision != old(self).queue_revision
                &&& final(self).pool_valid()
                &&& keep_where(
                    final(self).shuffle_pool@,
                    |x: usize| x < old(self).queue@.len(),
                ) == old(self).shuffle_pool@
                &&& final(self).shuffle ==> forall|i: usize|
                    #![trigger final(self).shuffle_pool@.contains(i)]
                    old(self).queue@.len() <= i ==> (final(self).shuffle_pool@.contains(i)
                        <==> final(self).candidate(i as int))
            },
            tracks@.len() == 0 ==> *final(self) == *old(self),
    {
        if tracks.len() == 0 {
            return;
        }
        let first_new = self.queue.len();
        let mut tracks = tracks;
        let ghost added = tracks@;
        self.queue.append(&mut tracks);
        self.queue_changed();
        self.history.clear();
        proof {
            assert forall|k: int| 0 <= k < self.shuffle_pool@.len() implies #[trigger] self.shuffle_pool@[k]
                < first_new by {}
            assert forall|k: int| 0 <= k < self.shuffle_pool@.len() implies (
                #[trigger] self.shuffle_pool@[k]) < self.queue@.len() && !self.is_current(
                self.shuffle_pool@[k] as int,
            ) by {}
        }
        self.splice_new_rows_into_shuffle_pool(first_new);
    }

    /// Makes row `index` current at a user's request: an unavailable row is
    /// refused, the row being left joins the navigation history, and the
    /// row jumped to leaves the shuffle bag (which otherwise keeps its
    /// order).
    pub fn play_queue_index(&mut self, index: usize) -> (result: Result<(), QueueError>)
        ensures
            index >= old(self).queue@.len() ==> {
                &&& result == Err::<(), QueueError>(QueueError::IndexOutOfRange { index })
                &&& *final(self) == *old(self)
            },
            index < old(self).queue@.len() && old(self).queue@[index as int].unavailable ==> {
                &&& result == Err::<(), QueueError>(QueueError::Unavailable)
                &&& *final(self) == *old(self)
            },
            index < old(self).queue@.len() && !old(self).queue@[index as int].unavailable ==> {
                &&& result is Ok
                &&& final(self).current_index == Some(index)
                &&& !final(self).preview_mode
                &&& final(self).queue@ == old(self).queue@
                &&& final(self).history@ == (match old(self).current_index {
                    Some(c) => if c != index {
                        old(self).history@.push(c)
                    } else {
                        old(self).history@
                    },
                    None => old(self).history@,
                })
                &&& final(self).queue_revision != old(self).queue_revision
                &&& !final(self).shuffle ==> final(self).shuffle_pool@.len() == 0
                &&& final(self).shuffle ==> final(self).shuffle_pool@ == repaired(
                    old(self).shuffle_pool@,
                    PoolRemap::Keep,
                    old(self).queue@.len() as int,
                    Some(index),
                )
                &&& old(self).shuffle_pool@.no_duplicates() ==> final(self).pool_valid()
            },
            final(self).shuffle == old(self).shuffle,
            final(self).repeat == old(self).repeat,
            final(self).exclusions@ == old(self).exclusions@,
            final(self).random_state == old(self).random_state,
    {
        if index >= self.queue.len() {
            return Err(QueueError::IndexOutOfRange { index });
        }
        if self.queue[index].unavailable {
            return Err(QueueError::Unavailable);
        }
        self.preview_mode = false;
        match self.current_index {
            Some(current) => {
                if current != index {
                    self.history.push(current);
                }
            },
            None => {},
        }
        self.current_index = Some(index);
        self.queue_changed();
        self.repair_shuffle_pool(PoolRemap::Keep);
        Ok(())
    }

    /// Moves to the row automatic playback chooses next (see
    /// [`QueuePlan::take_next_index_with_skip`]). The row left behind joins
    /// the navigation history when the current row changes, and an editor
    /// preview ends when playback moves to a different row. `Ok(None)` means
    /// nothing follows: the current row stays and playback stops there.
    pub fn advance_with_current_skip(&mut self, at_end: bool, skip_current_for_repeat: bool) -> (result:
        Result<Option<usize>, QueueError>)
        requires
            old(self).current_index matches Some(c) ==> c < usize::MAX,
            old(self).current_index is Some && !old(self).shuffle && old(self).repeat
                == RepeatMode::Context ==> old(self).queue@.len() > 0,
        ensures
            advanced(*old(self), *final(self), at_end, skip_current_for_repeat, result),
    {
        let ghost start = self.queue_revision;
        proof {
            lemma_revisions_differ(start);
        }
        self.queue_changed();
        let current = match self.current_index {
            Some(c) => c,
            None => {
                return Err(QueueError::NoCurrentTrack);
            },
        };
        let ghost before_take = *self;
        let next = self.take_next_index_with_skip(at_end, skip_current_for_repeat);
        let ghost taken = *self;
        proof {
            assert(before_take == revised(*old(self)));
            assert(took_next(before_take, taken, at_end, skip_current_for_repeat, next));
        }
        match next {
            Some(index) => {
                if self.preview_mode && index != current {
                    self.preview_mode = false;
                }
                if index != current {
                    self.history.push(current);
                }
                self.current_index = Some(index);
                self.queue_changed();
            },
            None => {},
        }
        Ok(next)
    }

    /// What Previous does to the queue: `Ok(Some(i))` when it switches to
    /// row `i` (see [`QueuePlan::previous_index`]), `Ok(None)` when the
    /// current row restarts instead. A switch ends an editor preview, and
    /// under shuffle puts the row being left back into the bag when it is
    /// eligible and not already there.
    pub fn previous(&mut self, played_ms: u32) -> (result: Result<Option<usize>, QueueError>)
        ensures
            final(self).queue@ == old(self).queue@,
            final(self).shuffle == old(self).shuffle,
            final(self).repeat == old(self).repeat,
            old(self).current_index is None ==> {
                &&& result == Err::<Option<usize>, QueueError>(QueueError::NoCurrentTrack)
                &&& *final(self) == *old(self)
            },
            old(self).current_index matches Some(c) ==> {
                &&& result matches Ok(step)
                &&& match result {
                    Ok(Some(i)) => {
                        &&& final(self).current_index == Some(i)
                        &&& !final(self).preview_mode
                        &&& final(self).queue_revision != old(self).queue_revision
                        &&& final(self).shuffle_pool@ == if old(self).shuffle && c < old(self).queue@.len() && eligible_mask(old(self).queue@, old(self).exclusions@)[c as int]
                            && !old(self).shuffle_pool@.contains(c) {
                            old(self).shuffle_pool@.push(c)
                        } else {
                            old(self).shuffle_pool@
                        }
                    },
                    _ => {
                        &&& final(self).current_index == Some(c)
                        &&& final(self).shuffle_pool@ == old(self).shuffle_pool@
                        &&& final(self).preview_mode == old(self).preview_mode
                    },
                }
            },
    {
        let current = match self.current_index {
            Some(c) => c,
            None => {
                return Err(QueueError::NoCurrentTrack);
            },
        };
        match self.previous_index(played_ms) {
            Some(index) => {
                self.preview_mode = false;
                if self.shuffle && self.automatic_track_eligible(current) {
                    let pooled = contains_index(&self.shuffle_pool, current);
                    if !pooled {
                        let ghost before = self.shuffle_pool@;
                        self.shuffle_pool.push(current);
                        proof {
                            if old(self).pool_valid() {
                                assert forall|a: int, b: int|
                                    0 <= a < b < self.shuffle_pool@.len() implies self.shuffle_pool@[a]
                                    != self.shuffle_pool@[b] by {
                                    if b == before.len() {
                                        assert(before.contains(before[a]));
                                    } else {
                                        assert(self.shuffle_pool@[a] == before[a]);
                                        assert(self.shuffle_pool@[b] == before[b]);
                                    }
                                }
                            }
                        }
                    }
                }
                self.current_index = Some(index);
                self.queue_changed();
                Ok(Some(index))
            },
            None => Ok(None),
        }
    }

    /// Installs a different queue with `current` as its current row: the
    /// navigation history is cleared and a fresh shuffle lap is drawn.
    pub fn install_queue(&mut self, queue: Vec<TrackRef>, current: Option<usize>)
        ensures
            final(self).queue@ == queue@,
            final(self).exclusions@ == old(self).exclusions@,
            final(self).current_index == current,
            final(self).history@.len() == 0,
            final(self).shuffle == old(self).shuffle,
            final(self).repeat == old(self).repeat,
            final(self).preview_mode == old(self).preview_mode,
            final(self).queue_revision != old(self).queue_revision,
            final(self).pool_valid(),
            final(self).shuffle ==> forall|i: usize|
                #![trigger final(self).shuffle_pool@.contains(i)]
                final(self).candidate(i as int) <==> final(self).shuffle_pool@.contains(i),
    {
        self.queue = queue;
        self.current_index = current;
        self.history.clear();
        self.rebuild_shuffle_pool();
    }
}

/// `plan` with its queue revision moved on.
pub open spec fn revised(plan: QueuePlan) -> QueuePlan {
    QueuePlan { queue_revision: next_revision(plan.queue_revision), ..plan }
}

/// Whether `after` and `next` are what taking the next row from `before`
/// gives: repeat-one at a natural end stays on an available current row
/// (unless `skip`); shuffle pops the bag, first refilling it with a fresh
/// lap (the draw [`fresh_lap`] gives) when it is empty under
/// repeat-context; otherwise the queue is walked
/// in order. The rows themselves never change.
pub open spec fn took_next(before: QueuePlan, after: QueuePlan, at_end: bool, skip: bool, next: Option<usize>) -> bool {
    &&& after.same_rows(&before)
    &&& before.current_index is None ==> {
        &&& next is None
        &&& after.shuffle_pool@ == before.shuffle_pool@
        &&& after.queue_revision == before.queue_revision
    }
    &&& before.current_index is Some ==> ({
        let c = before.current_index.unwrap();
        if at_end && !skip && before.repeat == RepeatMode::Track
            && c < before.queue@.len() && !before.queue@[c as int].unavailable {
            &&& next == Some(c)
            &&& after.shuffle_pool@ == before.shuffle_pool@
            &&& after.queue_revision == before.queue_revision
        } else if before.shuffle {
            if before.shuffle_pool@.len() == 0 && before.repeat
                == RepeatMode::Context {
                let lap = fresh_lap(before).0;
                &&& lap.no_duplicates()
                &&& forall|i: usize|
                    #![trigger lap.contains(i)]
                    lap.contains(i) <==> before.candidate(i as int)
                &&& next == popped(lap, before.mask()).0
                &&& after.shuffle_pool@ == popped(lap, before.mask()).1
                &&& after.random_state == fresh_lap(before).1
                &&& after.queue_revision == next_revision(before.queue_revision)
            } else {
                &&& next == popped(before.shuffle_pool@, before.mask()).0
                &&& after.shuffle_pool@ == popped(
                    before.shuffle_pool@,
                    before.mask(),
                ).1
                &&& after.queue_revision == before.queue_revision
            }
        } else {
            &&& next == match crate::eligibility::sequential_target(
                eligible_mask(before.queue@, before.exclusions@),
                c as int,
                before.repeat,
            ) {
                Some(i) => Some(i as usize),
                None => None::<usize>,
            }
            &&& after.shuffle_pool@ == before.shuffle_pool@
            &&& after.queue_revision == before.queue_revision
        }
    })
}

/// Whether `after` and `result` are what moving `before` to the row
/// automatic playback chooses next gives (see [`took_next`]): the rows,
/// shuffle and repeat stay, the revision moves, the row left behind joins
/// the history when the current row changes, and a preview ends when
/// playback moves to another row. `Ok(None)` keeps the current row.
pub open spec fn advanced(before: QueuePlan, after: QueuePlan, at_end: bool, skip: bool, result: Result<Option<usize>, QueueError>) -> bool {
    &&& after.queue@ == before.queue@
    &&& after.shuffle == before.shuffle
    &&& after.repeat == before.repeat
    &&& after.queue_revision != before.queue_revision
    &&& before.current_index is None ==> {
        &&& result == Err::<Option<usize>, QueueError>(QueueError::NoCurrentTrack)
        &&& after.current_index is None
        &&& after.history@ == before.history@
        &&& after.shuffle_pool@ == before.shuffle_pool@
    }
    &&& before.current_index matches Some(c) ==> {
        &&& result matches Ok(next)
        &&& exists|taken: QueuePlan|
            #[trigger] took_next(
                revised(before),
                taken,
                at_end,
                skip,
                result->Ok_0,
            ) && after.shuffle_pool@ == taken.shuffle_pool@
        &&& match result {
            Ok(Some(i)) => {
                &&& after.current_index == Some(i)
                &&& after.history@ == if i != c {
                    before.history@.push(c)
                } else {
                    before.history@
                }
                &&& after.preview_mode == (before.preview_mode && i == c)
            },
            _ => {
                &&& after.current_index == Some(c)
                &&& after.history@ == before.history@
                &&& after.preview_mode == before.preview_mode
            },
        }
    }
}

/// The row a restored snapshot makes current: the first available row from
/// `index`, wrapping round to the front; none for an empty queue.
pub open spec fn restored_current(queue: Seq<TrackRef>, index: int) -> Option<usize> {
    if queue.len() == 0 {
        None
    } else {
        match first_in(available_mask(queue), index, queue.len() as int) {
            Some(i) => Some(i as usize),
            None => match first_in(available_mask(queue), 0, min_int(index, queue.len() as int)) {
                Some(i) => Some(i as usize),
                None => None,
            },
        }
    }
}

/// A restore meant only to replace a preview is stale once a real queue
/// has won: no preview is installed, or it belongs to another lease.
pub fn restore_is_stale(only_if_preview: bool, preview_mode: bool, installed_lease: u64, requested_lease: u64) -> (stale: bool)
    ensures
        stale == (only_if_preview && (!preview_mode || requested_lease == 0 || installed_lease
            != requested_lease)),
{
    only_if_preview && (!preview_mode || requested_lease == 0 || installed_lease != requested_lease)
}

/// Why a queue handed over whole is refused before anything changes: its
/// start index, or the first row that names no track.
#[derive(Debug, PartialEq, Eq)]
pub enum QueueRejection {
    Index(QueueError),
    Track(String),
}

/// What is wrong with starting a queue of `length` rows at `index`, if
/// anything: an empty queue starts only at zero, any other at one of its
/// rows.
pub open spec fn index_fault(length: nat, index: usize) -> Option<QueueError> {
    if length == 0 {
        if index == 0 {
            None
        } else {
            Some(QueueError::NonzeroIndexForEmptyQueue { index })
        }
    } else if index < length {
        None
    } else {
        Some(QueueError::IndexOutOfRange { index })
    }
}

/// Whether `queue` may be installed starting at `index`.
pub open spec fn queue_acceptable(queue: Seq<TrackRef>, index: usize) -> bool {
    index_fault(queue.len(), index) is None && uris_valid_before(queue, queue.len() as int)
}

/// Whether `rejection` is why `queue` may not be installed at `index`: the
/// index first, then the first row that names no track.
pub open spec fn rejects(queue: Seq<TrackRef>, index: usize, rejection: QueueRejection) -> bool {
    match rejection {
        QueueRejection::Index(error) => index_fault(queue.len(), index) == Some(error),
        QueueRejection::Track(message) => index_fault(queue.len(), index) is None && exists|k: int|
            0 <= k < queue.len() && uris_valid_before(queue, k) && #[trigger] row_uri_fault(queue[k])
                == Some(message@),
    }
}

/// Checks a queue handed over whole before anything is changed: the start
/// index, then every row's URI.
pub fn validate_queue(queue: &Vec<TrackRef>, index: usize) -> (checked: Result<(), QueueRejection>)
    ensures
        match checked {
            Ok(()) => queue_acceptable(queue@, index),
            Err(rejection) => rejects(queue@, index, rejection),
        },
{
    match queue_index_valid(queue.len(), index) {
        Err(error) => {
            return Err(QueueRejection::Index(error));
        },
        Ok(()) => {},
    }
    match check_track_uris(queue) {
        Err(message) => Err(QueueRejection::Track(message)),
        Ok(()) => Ok(()),
    }
}

/// Rows whose URIs are the same have the same URI fault, and so the same
/// verdict of [`rejects`] and [`queue_acceptable`].
proof fn lemma_same_uris_same_verdict(a: Seq<TrackRef>, b: Seq<TrackRef>, index: usize)
    requires
        a.len() == b.len(),
        forall|k: int| 0 <= k < a.len() ==> (#[trigger] a[k]).uri@ == b[k].uri@,
    ensures
        queue_acceptable(a, index) == queue_acceptable(b, index),
        forall|r: QueueRejection| rejects(a, index, r) == rejects(b, index, r),
        forall|k: int| 0 <= k <= a.len() ==> uris_valid_before(a, k) == uris_valid_before(b, k),
{
    assert forall|k: int| 0 <= k < a.len() implies #[trigger] row_uri_fault(a[k]) == row_uri_fault(b[k]) by {
        assert(a[k].uri@ == b[k].uri@);
    }
    assert forall|k: int| 0 <= k <= a.len() implies uris_valid_before(a, k) == uris_valid_before(b, k) by {
        if uris_valid_before(a, k) {
            assert forall|j: int| 0 <= j < k implies #[trigger] row_uri_fault(b[j]) is None by {
                assert(row_uri_fault(a[j]) == row_uri_fault(b[j]));
            }
        }
        if uris_valid_before(b, k) {
            assert forall|j: int| 0 <= j < k implies #[trigger] row_uri_fault(a[j]) is None by {
                assert(row_uri_fault(a[j]) == row_uri_fault(b[j]));
            }
        }
    }
    assert forall|r: QueueRejection| rejects(a, index, r) == rejects(b, index, r) by {
        match r {
            QueueRejection::Index(_) => {},
            QueueRejection::Track(message) => {
                if rejects(a, index, r) {
                    let k = choose|k: int|
                        0 <= k < a.len() && uris_valid_before(a, k) && #[trigger] row_uri_fault(a[k])
                            == Some(message@);
                    assert(row_uri_fault(b[k]) == Some(message@));
                }
                if rejects(b, index, r) {
                    let k = choose|k: int|
                        0 <= k < b.len() && uris_valid_before(b, k) && #[trigger] row_uri_fault(b[k])
                            == Some(message@);
                    assert(row_uri_fault(a[k]) == Some(message@));
                }
            },
        }
    }
}

impl QueuePlan {
    /// Installs a restored snapshot without touching playback, each blank
    /// context filled from `context`. The snapshot is validated first: a bad
    /// start index or a row that names no track is refused and nothing
    /// changes. Otherwise preview mode ends, the first available row from
    /// `index` (wrapping) becomes current, the navigation history is cleared
    /// and a fresh shuffle lap is drawn; the answer is the current row.
    pub fn restore_queue(&mut self, queue: Vec<TrackRef>, index: usize, context: &str) -> (restored: Result<Option<usize>, QueueRejection>)
        ensures
            match restored {
                Err(rejection) => rejects(queue@, index, rejection) && *final(self) == *old(self),
                Ok(current) => {
                    &&& queue_acceptable(queue@, index)
                    &&& final(self).queue@.len() == queue@.len()
                    &&& forall|i: int|
                        0 <= i < queue@.len() ==> #[trigger] final(self).queue@[i]@ == added_rows(
                            queue@,
                            context@,
                            i,
                        )
                    &&& current == restored_current(final(self).queue@, index as int)
                    &&& final(self).current_index == current
                    &&& !final(self).preview_mode
                    &&& final(self).history@.len() == 0
                    &&& final(self).exclusions@ == old(self).exclusions@
                    &&& final(self).shuffle == old(self).shuffle
                    &&& final(self).repeat == old(self).repeat
                    &&& final(self).queue_revision != old(self).queue_revision
                    &&& final(self).pool_valid()
                    &&& final(self).shuffle ==> forall|i: usize|
                        #![trigger final(self).shuffle_pool@.contains(i)]
                        final(self).candidate(i as int) <==> final(self).shuffle_pool@.contains(i)
                },
            },
    {
        let ghost given = queue@;
        let mut queue = queue;
        fill_queue_context(&mut queue, context);
        proof {
            assert forall|k: int| 0 <= k < given.len() implies (#[trigger] given[k]).uri@ == queue@[k].uri@ by {
                assert(queue@[k]@.uri == given[k]@.uri);
            }
            lemma_same_uris_same_verdict(given, queue@, index);
        }
        match validate_queue(&queue, index) {
            Err(rejection) => {
                return Err(rejection);
            },
            Ok(()) => {},
        }
        let ghost filled = queue@;
        self.preview_mode = false;
        let current = if queue.len() == 0 {
            None
        } else {
            first_available_wrapping(queue.as_slice(), index)
        };
        self.install_queue(queue, current);
        assert(self.queue@ == filled);
        Ok(current)
    }
}

/// Whether a queue of `length` rows may start at `index`: an empty queue
/// only at zero, any other at one of its rows.
pub fn queue_index_valid(length: usize, index: usize) -> (result: Result<(), QueueError>)
    ensures
        length == 0 ==> result == (if index == 0 {
            Ok::<(), QueueError>(())
        } else {
            Err(QueueError::NonzeroIndexForEmptyQueue { index })
        }),
        length > 0 ==> result == (if index < length {
            Ok::<(), QueueError>(())
        } else {
            Err(QueueError::IndexOutOfRange { index })
        }),
{
    if length == 0 {
        if index == 0 {
            Ok(())
        } else {
            Err(QueueError::NonzeroIndexForEmptyQueue { index })
        }
    } else if index < length {
        Ok(())
    } else {
        Err(QueueError::IndexOutOfRange { index })
    }
}

/// The row a played queue starts from: an automatic start takes the first
/// eligible row from `index`, wrapping; a direct one the first available
/// row at or after it.
pub open spec fn start_row(queue: Seq<TrackRef>, exclusions: Set<(Seq<char>, Seq<char>)>, index: int, automatic_start: bool) -> Option<usize> {
    if automatic_start {
        match first_in(eligible_mask(queue, exclusions), index, queue.len() as int) {
            Some(i) => Some(i as usize),
            None => match first_in(eligible_mask(queue, exclusions), 0, min_int(index, queue.len() as int)) {
                Some(i) => Some(i as usize),
                None => None,
            },
        }
    } else {
        match first_in(available_mask(queue), index, queue.len() as int) {
            Some(i) => Some(i as usize),
            None => None,
        }
    }
}

impl QueuePlan {
    /// Installs a queue the listener asked to play from `index`, in or out
    /// of preview mode. The queue is validated first: a bad start index or a
    /// row that names no track is refused and nothing changes. With a row to
    /// start from, it becomes current and a fresh plan is drawn; with none,
    /// the queue is installed with nothing current and no plan. Answers the
    /// row to load.
    pub fn play_queue(&mut self, queue: Vec<TrackRef>, index: usize, automatic_start: bool, preview: bool) -> (played: Result<Option<usize>, QueueRejection>)
        ensures
            match played {
                Err(rejection) => rejects(queue@, index, rejection) && *final(self) == *old(self),
                Ok(current) => {
                    &&& queue_acceptable(queue@, index)
                    &&& current == start_row(queue@, old(self).exclusions@, index as int, automatic_start)
                    &&& final(self).queue@ == queue@
                    &&& final(self).current_index == current
                    &&& final(self).preview_mode == preview
                    &&& final(self).history@.len() == 0
                    &&& final(self).exclusions@ == old(self).exclusions@
                    &&& final(self).shuffle == old(self).shuffle
                    &&& final(self).repeat == old(self).repeat
                    &&& final(self).queue_revision != old(self).queue_revision
                    &&& final(self).pool_valid()
                    &&& current is None ==> final(self).shuffle_pool@.len() == 0
                    &&& current is Some && final(self).shuffle ==> forall|i: usize|
                        #![trigger final(self).shuffle_pool@.contains(i)]
                        final(self).candidate(i as int) <==> final(self).shuffle_pool@.contains(i)
                },
            },
    {
        match validate_queue(&queue, index) {
            Err(rejection) => {
                return Err(rejection);
            },
            Ok(()) => {},
        }
        let current = if automatic_start {
            first_automatic_wrapping(queue.as_slice(), index, &self.exclusions)
        } else {
            first_available_from(queue.as_slice(), index)
        };
        self.preview_mode = preview;
        match current {
            Some(_) => {
                self.install_queue(queue, current);
            },
            None => {
                self.queue = queue;
                self.current_index = None;
                self.history.clear();
                self.shuffle_pool.clear();
                self.queue_changed();
            },
        }
        Ok(current)
    }
}


/// The id of row `i` while that row exists and is not yet marked cached.
pub open spec fn uncached_id_at(rows: Seq<TrackRef>, i: int) -> Seq<Seq<char>> {
    if 0 <= i < rows.len() && !rows[i].cached {
        seq![rows[i].id@]
    } else {
        Seq::empty()
    }
}

/// The ids whose audio may have reached the cache since the last look: the
/// current row and the one behind it, each only while not yet marked.
pub open spec fn cache_candidates(rows: Seq<TrackRef>, current: Option<usize>) -> Seq<Seq<char>> {
    match current {
        None => Seq::empty(),
        Some(c) => uncached_id_at(rows, c as int) + uncached_id_at(rows, c + 1),
    }
}

/// Whether `row` is not yet marked cached and `cached_ids` names it.
pub open spec fn newly_cached(row: TrackRef, cached_ids: Seq<Seq<char>>) -> bool {
    !row.cached && cached_ids.contains(row.id@)
}

/// `row` with its cached mark set where `cached_ids` names it.
pub open spec fn with_cache_mark(row: TrackRef, cached_ids: Seq<Seq<char>>) -> TrackRefView {
    if newly_cached(row, cached_ids) {
        TrackRefView { cached: true, ..row@ }
    } else {
        row@
    }
}

/// Whether `ids` holds the text of `id`.
fn holds_id(ids: &Vec<String>, id: &String) -> (found: bool)
    ensures
        found == ids.deep_view().contains(id@),
{
    let ghost texts = ids.deep_view();
    let mut k: usize = 0;
    while k < ids.len()
        invariant
            k <= ids@.len(),
            texts == ids.deep_view(),
            forall|j: int| 0 <= j < k ==> texts[j] != id@,
        decreases ids.len() - k,
    {
        if ids[k] == *id {
            assert(texts[k as int] == id@);
            return true;
        }
        k = k + 1;
    }
    assert forall|j: int| 0 <= j < texts.len() implies texts[j] != id@ by {}
    false
}

impl QueuePlan {
    /// The ids worth asking the audio cache about: the current row and the
    /// next one, skipping any already marked.
    pub fn cached_mark_candidates(&self) -> (ids: Vec<String>)
        ensures
            ids.deep_view() == cache_candidates(self.queue@, self.current_index),
    {
        let mut ids: Vec<String> = Vec::new();
        if let Some(current) = self.current_index {
            if current < self.queue.len() {
                if !self.queue[current].cached {
                    ids.push(self.queue[current].id.clone());
                }
                let next = current + 1;
                if next < self.queue.len() && !self.queue[next].cached {
                    ids.push(self.queue[next].id.clone());
                }
            }
            assert(ids.deep_view() =~= cache_candidates(self.queue@, self.current_index));
        } else {
            assert(ids.deep_view() =~= Seq::<Seq<char>>::empty());
        }
        ids
    }

    /// Marks cached every unmarked row whose id the audio cache now holds,
    /// and reports whether any mark changed; a change moves the revision.
    pub fn refresh_cached_marks(&mut self, now_cached: &Vec<String>) -> (changed: bool)
        ensures
            final(self).queue@.len() == old(self).queue@.len(),
            forall|i: int|
                0 <= i < old(self).queue@.len() ==> #[trigger] final(self).queue@[i]@
                    == with_cache_mark(old(self).queue@[i], now_cached.deep_view()),
            changed == exists|i: int|
                0 <= i < old(self).queue@.len() && #[trigger] newly_cached(
                    old(self).queue@[i],
                    now_cached.deep_view(),
                ),
            final(self).queue_revision == if changed {
                next_revision(old(self).queue_revision)
            } else {
                old(self).queue_revision
            },
            final(self).current_index == old(self).current_index,
            final(self).shuffle == old(self).shuffle,
            final(self).repeat == old(self).repeat,
            final(self).history@ == old(self).history@,
            final(self).preview_mode == old(self).preview_mode,
            final(self).exclusions@ == old(self).exclusions@,
            final(self).shuffle_pool@ == old(self).shuffle_pool@,
            final(self).random_state == old(self).random_state,
    {
        let ghost before = self.queue@;
        let ghost ids = now_cached.deep_view();
        let mut changed = false;
        if now_cached.len() == 0 {
            assert forall|i: int| 0 <= i < before.len() implies !#[trigger] newly_cached(
                before[i],
                ids,
            ) by {}
            return false;
        }
        let mut i: usize = 0;
        while i < self.queue.len()
            invariant
                i <= self.queue@.len(),
                self.queue@.len() == before.len(),
                ids == now_cached.deep_view(),
                before == old(self).queue@,
                forall|k: int|
                    0 <= k < i ==> #[trigger] self.queue@[k]@ == with_cache_mark(before[k], ids),
                forall|k: int| i <= k < before.len() ==> #[trigger] self.queue@[k] == before[k],
                changed == exists|k: int| 0 <= k < i && #[trigger] newly_cached(before[k], ids),
                self.queue_revision == old(self).queue_revision,
                self.current_index == old(self).current_index,
                self.shuffle == old(self).shuffle,
                self.repeat == old(self).repeat,
                self.history@ == old(self).history@,
                self.preview_mode == old(self).preview_mode,
                self.exclusions@ == old(self).exclusions@,
                self.shuffle_pool@ == old(self).shuffle_pool@,
                self.random_state == old(self).random_state,
            decreases before.len() - i,
        {
            let mark = !self.queue[i].cached && holds_id(now_cached, &self.queue[i].id);
            if mark {
                let mut row = self.queue[i].clone();
                row.cached = true;
                self.queue.set(i, row);
                assert(newly_cached(before[i as int], ids));
                changed = true;
            } else {
                assert(!newly_cached(before[i as int], ids));
            }
            i = i + 1;
        }
        if changed {
            self.queue_changed();
        }
        changed
    }
}


impl QueuePlan {
    /// Excludes `track_id` from automatic playback of `playlist_id`, or lifts
    /// that exclusion. The current row keeps playing; the shuffle bag is
    /// repaired at once so every later choice respects the change.
    pub fn set_playlist_track_excluded(&mut self, playlist_id: &str, track_id: &str, excluded: bool)
        requires
            old(self).pool_valid(),
        ensures
            excluded ==> final(self).exclusions@ == old(self).exclusions@.insert(
                (playlist_id@, track_id@),
            ),
            !excluded ==> final(self).exclusions@ == old(self).exclusions@.remove(
                (playlist_id@, track_id@),
            ),
            final(self).queue@ == old(self).queue@,
            final(self).current_index == old(self).current_index,
            final(self).shuffle == old(self).shuffle,
            final(self).repeat == old(self).repeat,
            final(self).history@ == old(self).history@,
            final(self).preview_mode == old(self).preview_mode,
            final(self).queue_revision == next_revision(old(self).queue_revision),
            final(self).pool_valid(),
            keep_where(
                final(self).shuffle_pool@,
                |x: usize| old(self).shuffle_pool@.contains(x),
            ) == keep_where(old(self).shuffle_pool@, |x: usize| final(self).eligible(x as int)),
            final(self).shuffle ==> forall|i: usize|
                #![trigger final(self).shuffle_pool@.contains(i)]
                final(self).shuffle_pool@.contains(i) <==> final(self).candidate(i as int),
    {
        self.exclusions.set_excluded(playlist_id, track_id, excluded);
        self.repair_shuffle_pool_for_eligibility();
    }
}




/// Why a row cannot be loaded: the reason it is permanently unavailable, or
/// a plain statement of that.
pub open spec fn unavailable_message(track: TrackRef) -> Seq<char> {
    match track.unavailable_reason {
        Some(reason) => reason@,
        None => "this track is permanently unavailable"@,
    }
}

/// Refuses a row known to be permanently unavailable, with its reason; the
/// URI is checked by the caller that hands it to the player.
pub fn playable_track(track: &TrackRef) -> (checked: Result<(), String>)
    ensures
        match checked {
            Ok(()) => !track.unavailable,
            Err(message) => track.unavailable && message@ == unavailable_message(*track),
        },
{
    if track.unavailable {
        match &track.unavailable_reason {
            Some(reason) => Err(reason.clone()),
            None => {
                let message = "this track is permanently unavailable".to_owned();
                proof {
                    reveal_strlit("this track is permanently unavailable");
                }
                Err(message)
            },
        }
    } else {
        Ok(())
    }
}

/// Why the current row cannot be loaded, if it cannot.
pub open spec fn load_fault(plan: QueuePlan) -> Option<Seq<char>> {
    match plan.current_index {
        None => Some("the queue has no current track"@),
        Some(c) => if c >= plan.queue@.len() {
            Some("the queue has no current track (index out of range)"@)
        } else {
            crate::track_uri::play_fault(plan.queue@[c as int])
        },
    }
}

impl QueuePlan {
    /// The row a load of the current track plays and the URI the player
    /// loads, or why there is none to play.
    pub fn current_for_load(&self) -> (row: Result<(usize, SpotifyUri), String>)
        ensures
            match row {
                Ok((index, uri)) => load_fault(*self) is None && self.current_index == Some(index)
                    && uri == crate::track_uri::parsed_uri(self.queue@[index as int].uri@),
                Err(message) => load_fault(*self) == Some(message@),
            },
    {
        let index = match self.current_index {
            Some(index) => index,
            None => {
                let message = "the queue has no current track".to_owned();
                proof {
                    reveal_strlit("the queue has no current track");
                }
                return Err(message);
            },
        };
        if index >= self.queue.len() {
            let message = "the queue has no current track (index out of range)".to_owned();
            proof {
                reveal_strlit("the queue has no current track (index out of range)");
            }
            return Err(message);
        }
        match playable_track_uri(&self.queue[index]) {
            Ok(uri) => Ok((index, uri)),
            Err(message) => Err(message),
        }
    }
}


impl QueuePlan {
    /// An empty plan: no rows, no current row, shuffle and repeat off, an
    /// empty bag and history, drawing shuffle orders from `random_state` and
    /// numbering revisions from `queue_revision`.
    pub fn new(exclusions: ExclusionStore, random_state: u64, queue_revision: u64) -> (plan: QueuePlan)
        ensures
            plan.queue@.len() == 0,
            plan.current_index is None,
            !plan.shuffle,
            plan.repeat == RepeatMode::Off,
            plan.shuffle_pool@.len() == 0,
            plan.history@.len() == 0,
            plan.random_state == random_state,
            !plan.preview_mode,
            plan.exclusions@ == exclusions@,
            plan.queue_revision == queue_revision,
            plan.pool_valid(),
    {
        QueuePlan {
            queue: Vec::new(),
            current_index: None,
            shuffle: false,
            repeat: RepeatMode::Off,
            shuffle_pool: Vec::new(),
            history: Vec::new(),
            random_state,
            preview_mode: false,
            exclusions,
            queue_revision,
        }
    }
}


/// The rows a batch adds: `tracks`, each blank context filled from
/// `context`.
pub open spec fn added_rows(tracks: Seq<TrackRef>, context: Seq<char>, i: int) -> TrackRefView {
    TrackRefView { context: filled_context(tracks[i]@.context, context), ..tracks[i]@ }
}

impl QueuePlan {
    /// Adds `tracks` to the end of the queue, each blank context filled from
    /// `context`. Every row must name a track; otherwise nothing changes and
    /// the first refused row says why. Added rows join the shuffle bag at
    /// drawn positions, leaving the drawn order of the others alone, and the
    /// navigation history is cleared; an empty batch changes nothing.
    pub fn add_queue_batch(&mut self, tracks: Vec<TrackRef>, context: &str) -> (added: Result<(), String>)
        requires
            old(self).pool_valid(),
        ensures
            match added {
                Ok(()) => uris_valid_before(tracks@, tracks@.len() as int),
                Err(message) => exists|k: int|
                    0 <= k < tracks@.len() && uris_valid_before(tracks@, k)
                        && #[trigger] row_uri_fault(tracks@[k]) == Some(message@),
            },
            added is Err || tracks@.len() == 0 ==> *final(self) == *old(self),
            added is Ok ==> {
                &&& final(self).queue@.len() == old(self).queue@.len() + tracks@.len()
                &&& forall|i: int|
                    0 <= i < old(self).queue@.len() ==> #[trigger] final(self).queue@[i]
                        == old(self).queue@[i]
                &&& forall|j: int|
                    0 <= j < tracks@.len() ==> #[trigger] final(self).queue@[old(self).queue@.len()
                        + j]@ == added_rows(tracks@, context@, j)
            },
            final(self).current_index == old(self).current_index,
            final(self).shuffle == old(self).shuffle,
            final(self).repeat == old(self).repeat,
            final(self).preview_mode == old(self).preview_mode,
            final(self).pool_valid(),
            added is Ok && tracks@.len() > 0 ==> {
                &&& final(self).history@.len() == 0
                &&& final(self).queue_revision != old(self).queue_revision
                &&& keep_where(
                    final(self).shuffle_pool@,
                    |x: usize| x < old(self).queue@.len(),
                ) == old(self).shuffle_pool@
                &&& final(self).shuffle ==> forall|i: usize|
                    #![trigger final(self).shuffle_pool@.contains(i)]
                    old(self).queue@.len() <= i ==> (final(self).shuffle_pool@.contains(i)
                        <==> final(self).candidate(i as int))
            },
    {
        let ghost given = tracks@;
        let mut tracks = tracks;
        fill_queue_context(&mut tracks, context);
        let ghost filled = tracks@;
        assert forall|k: int| 0 <= k < filled.len() implies #[trigger] row_uri_fault(filled[k])
            == row_uri_fault(given[k]) by {
            assert(filled[k]@.uri == given[k]@.uri);
        }
        match check_track_uris(&tracks) {
            Err(message) => {
                proof {
                    let k = choose|k: int|
                        0 <= k < filled.len() && uris_valid_before(filled, k)
                            && #[trigger] row_uri_fault(filled[k]) == Some(message@);
                    assert(row_uri_fault(given[k]) == Some(message@));
                    assert forall|j: int| 0 <= j < k implies #[trigger] row_uri_fault(given[j]) is None by {
                        assert(row_uri_fault(filled[j]) is None);
                    }
                }
                return Err(message);
            },
            Ok(()) => {},
        }
        proof {
            assert forall|j: int| 0 <= j < given.len() implies #[trigger] row_uri_fault(given[j]) is None by {
                assert(row_uri_fault(filled[j]) is None);
            }
        }
        let ghost before = self.queue@;
        self.append_rows(tracks);
        proof {
            assert forall|j: int| 0 <= j < given.len() implies #[trigger] self.queue@[before.len()
                + j]@ == added_rows(given, context@, j) by {
                assert(self.queue@[before.len() + j] == filled[j]);
            }
        }
        Ok(())
    }

    /// Adds one row to the end of the queue, its blank context filled from
    /// `context`; a row that names no track is refused and nothing changes.
    pub fn add_queue(&mut self, track: TrackRef, context: &str) -> (added: Result<(), String>)
        requires
            old(self).pool_valid(),
        ensures
            match added {
                Ok(()) => row_uri_fault(track) is None,
                Err(message) => row_uri_fault(track) == Some(message@),
            },
            added is Err ==> *final(self) == *old(self),
            added is Ok ==> {
                &&& final(self).queue@.len() == old(self).queue@.len() + 1
                &&& forall|i: int|
                    0 <= i < old(self).queue@.len() ==> #[trigger] final(self).queue@[i]
                        == old(self).queue@[i]
                &&& final(self).queue@[old(self).queue@.len() as int]@ == (TrackRefView {
                    context: filled_context(track@.context, context@),
                    ..track@
                })
                &&& final(self).history@.len() == 0
                &&& final(self).queue_revision != old(self).queue_revision
                &&& keep_where(final(self).shuffle_pool@, |x: usize| x < old(self).queue@.len())
                    == old(self).shuffle_pool@
                &&& final(self).shuffle ==> (final(self).shuffle_pool@.contains(
                    old(self).queue@.len() as usize,
                ) <==> final(self).candidate(old(self).queue@.len() as int))
            },
            final(self).current_index == old(self).current_index,
            final(self).shuffle == old(self).shuffle,
            final(self).repeat == old(self).repeat,
            final(self).preview_mode == old(self).preview_mode,
            final(self).pool_valid(),
    {
        let first_new = self.queue.len();
        let mut tracks: Vec<TrackRef> = Vec::new();
        tracks.push(track);
        let added = self.add_queue_batch(tracks, context);
        proof {
            if added is Err {
                let k = choose|k: int|
                    0 <= k < 1 && #[trigger] row_uri_fault(seq![track][k]) == Some(added->Err_0@);
                assert(k == 0);
            } else {
                assert(row_uri_fault(seq![track][0]) is None);
                assert(self.queue@[first_new + 0]@ == added_rows(seq![track], context@, 0));
            }
        }
        assert(added is Ok ==> (self.shuffle ==> (self.shuffle_pool@.contains(first_new)
            <==> self.candidate(first_new as int))));
        added
    }
}


impl QueuePlan {
    /// The queue's side of being signed out: no rows, nothing current, no
    /// preview, an empty bag and history; the revision moves.
    pub fn enter_needs_login(&mut self)
        ensures
            final(self).queue@.len() == 0,
            final(self).current_index is None,
            !final(self).preview_mode,
            final(self).shuffle_pool@.len() == 0,
            final(self).history@.len() == 0,
            final(self).queue_revision == next_revision(old(self).queue_revision),
            final(self).shuffle == old(self).shuffle,
            final(self).repeat == old(self).repeat,
            final(self).exclusions@ == old(self).exclusions@,
            final(self).random_state == old(self).random_state,
            final(self).pool_valid(),
    {
        self.current_index = None;
        self.queue.clear();
        self.queue_changed();
        self.preview_mode = false;
        self.shuffle_pool.clear();
        self.history.clear();
    }
}


/// Playing a queue starts where the listener asked. A direct start plays
/// the chosen row when it is available, and otherwise the first available
/// row after it; it never starts before the chosen row, and starts nowhere
/// only when no row from the chosen one on is available. An automatic start
/// plays the chosen row when automatic playback may choose it, and
/// otherwise the first such row after it, wrapping round to the front; it
/// starts nowhere only when automatic playback may choose no row at all.
pub proof fn lemma_a_queue_starts_at_the_chosen_row(
    queue: Seq<TrackRef>,
    exclusions: Set<(Seq<char>, Seq<char>)>,
    index: int,
)
    requires
        0 <= index,
        queue.len() <= usize::MAX,
    ensures
        index < queue.len() && !queue[index].unavailable ==> start_row(queue, exclusions, index, false)
            == Some(index as usize),
        match start_row(queue, exclusions, index, false) {
            Some(i) => index <= i < queue.len() && !queue[i as int].unavailable && forall|j: int|
                index <= j < i ==> #[trigger] queue[j].unavailable,
            None => forall|j: int| index <= j < queue.len() ==> #[trigger] queue[j].unavailable,
        },
        index < queue.len() && track_eligible(exclusions, queue[index]@) ==> start_row(
            queue,
            exclusions,
            index,
            true,
        ) == Some(index as usize),
        match start_row(queue, exclusions, index, true) {
            Some(i) => i < queue.len() && track_eligible(exclusions, queue[i as int]@) && (index <= i
                ==> forall|j: int| index <= j < i ==> !track_eligible(exclusions, #[trigger] queue[j]@)),
            None => forall|j: int| 0 <= j < queue.len() ==> !track_eligible(exclusions, #[trigger] queue[j]@),
        },
{
    let available = available_mask(queue);
    let eligible = eligible_mask(queue, exclusions);
    lemma_first_in_is_first(available, index, queue.len() as int);
    lemma_first_in_is_first(eligible, index, queue.len() as int);
    lemma_first_in_is_first(eligible, 0, min_int(index, queue.len() as int));
    assert forall|j: int| index <= j < queue.len() implies #[trigger] queue[j].unavailable == !available[j] by {}
    assert forall|j: int| 0 <= j < queue.len() implies track_eligible(exclusions, #[trigger] queue[j]@)
        == eligible[j] by {}
}

/// A restored queue comes back on the row it was saved at when that row is
/// available; otherwise on the first available row after it, wrapping round
/// to the front; and with no current row only when no row is available.
pub proof fn lemma_a_restored_queue_keeps_its_row(queue: Seq<TrackRef>, index: int)
    requires
        0 <= index,
        queue.len() <= usize::MAX,
    ensures
        index < queue.len() && !queue[index].unavailable ==> restored_current(queue, index) == Some(
            index as usize,
        ),
        match restored_current(queue, index) {
            Some(i) => i < queue.len() && !queue[i as int].unavailable && (index <= i ==> forall|j: int|
                index <= j < i ==> #[trigger] queue[j].unavailable),
            None => forall|j: int| 0 <= j < queue.len() ==> #[trigger] queue[j].unavailable,
        },
{
    let available = available_mask(queue);
    lemma_first_in_is_first(available, index, queue.len() as int);
    lemma_first_in_is_first(available, 0, min_int(index, queue.len() as int));
    assert forall|j: int| 0 <= j < queue.len() implies #[trigger] queue[j].unavailable == !available[j] by {}
}

/// `last_before` finds the nearest row before `end` that `mask` allows,
/// and none exactly when no row before `end` is allowed.
pub proof fn lemma_last_before_is_nearest(mask: Seq<bool>, end: int)
    ensures
        match last_before(mask, end) {
            Some(i) => 0 <= i < end && i < mask.len() && mask[i] && forall|j: int|
                i < j < end && j < mask.len() ==> !#[trigger] mask[j],
            None => forall|j: int| 0 <= j < end && j < mask.len() ==> !#[trigger] mask[j],
        },
    decreases end,
{
    if end > 0 {
        lemma_last_before_is_nearest(mask, end - 1);
    }
}

/// Previous in an ordered queue, with nothing left in the navigation
/// history that automatic playback may choose, steps to the nearest row
/// before the current one that it may choose: that row is before the
/// current one, eligible, and no eligible row lies between them. It
/// restarts the current row only when no row before it is eligible.
pub proof fn lemma_previous_steps_to_the_nearest_row_before(plan: QueuePlan)
    requires
        plan.current_index is Some,
        !plan.shuffle,
        popped(plan.history@, plan.mask()).0 is None,
    ensures
        match previous_choice(plan) {
            Some(i) => {
                &&& i < plan.current_index->0
                &&& plan.eligible(i as int)
                &&& forall|j: int| i < j < plan.current_index->0 ==> !#[trigger] plan.eligible(j)
            },
            None => forall|j: int| 0 <= j < plan.current_index->0 ==> !#[trigger] plan.eligible(j),
        },
{
    let c = plan.current_index->0;
    lemma_last_before_is_nearest(plan.mask(), c as int);
    assert(plan.mask().len() == plan.queue@.len());
}


/// Popping a stack for an allowed row takes its newest allowed entry and
/// leaves everything below it: the entries above it, all disallowed, are
/// discarded. With no allowed entry, the stack is emptied.
pub proof fn lemma_pop_takes_the_newest_allowed_entry(stack: Seq<usize>, mask: Seq<bool>)
    ensures
        match popped(stack, mask).0 {
            Some(x) => exists|k: int|
                0 <= k < stack.len() && stack[k] == x && allowed(mask, x) && popped(stack, mask).1
                    == stack.subrange(0, k) && forall|j: int| k < j < stack.len() ==> !allowed(
                    mask,
                    #[trigger] stack[j],
                ),
            None => popped(stack, mask).1.len() == 0 && forall|j: int|
                0 <= j < stack.len() ==> !allowed(mask, #[trigger] stack[j]),
        },
    decreases stack.len(),
{
    if stack.len() > 0 {
        let rest = stack.drop_last();
        if allowed(mask, stack.last()) {
            assert(stack.drop_last() =~= stack.subrange(0, stack.len() - 1));
        } else {
            lemma_pop_takes_the_newest_allowed_entry(rest, mask);
            match popped(rest, mask).0 {
                Some(x) => {
                    let k = choose|k: int|
                        0 <= k < rest.len() && rest[k] == x && allowed(mask, x) && popped(rest, mask).1
                            == rest.subrange(0, k) && forall|j: int|
                            k < j < rest.len() ==> !allowed(mask, #[trigger] rest[j]);
                    assert(stack[k] == x);
                    assert(rest.subrange(0, k) =~= stack.subrange(0, k));
                    assert forall|j: int| k < j < stack.len() implies !allowed(mask, #[trigger] stack[j]) by {
                        if j < rest.len() {
                            assert(stack[j] == rest[j]);
                        }
                    }
                },
                None => {
                    assert forall|j: int| 0 <= j < stack.len() implies !allowed(mask, #[trigger] stack[j]) by {
                        if j < rest.len() {
                            assert(stack[j] == rest[j]);
                        }
                    }
                },
            }
        }
    }
}

} // verus!
