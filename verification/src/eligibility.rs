use crate::model::{RepeatMode, TrackRef, TrackRefView};
use crate::text::{starts_with, trim, trimmed};
use vstd::prelude::*;
use vstd::string::*;

verus! {

/// The first index in `start..end` whose mask entry is set.
pub open spec fn first_in(mask: Seq<bool>, start: int, end: int) -> Option<int>
    decreases end - start,
{
    if start >= end {
        None
    } else if mask[start] {
        Some(start)
    } else {
        first_in(mask, start + 1, end)
    }
}

/// The smaller of two integers.
pub open spec fn min_int(a: int, b: int) -> int {
    if a <= b {
        a
    } else {
        b
    }
}

/// Which rows of `queue` are not permanently unavailable.
pub open spec fn available_mask(queue: Seq<TrackRef>) -> Seq<bool> {
    Seq::new(queue.len(), |i: int| !queue[i].unavailable)
}

/// Which rows of `queue` automatic playback may choose, under `store`.
pub open spec fn eligible_mask(queue: Seq<TrackRef>, store: Set<(Seq<char>, Seq<char>)>) -> Seq<
    bool,
> {
    Seq::new(queue.len(), |i: int| track_eligible(store, queue[i]@))
}

/// The characters `playlist:`.
pub open spec fn playlist_prefix() -> Seq<char> {
    seq!['p', 'l', 'a', 'y', 'l', 'i', 's', 't', ':']
}

/// The playlist a row's context names: what follows `playlist:`, provided it
/// is not blank.
pub open spec fn playlist_id_of(context: Seq<char>) -> Option<Seq<char>> {
    if starts_with(context, playlist_prefix()) && trimmed(
        context.subrange(9, context.len() as int),
    ).len() > 0 {
        Some(context.subrange(9, context.len() as int))
    } else {
        None
    }
}

/// Whether automatic playback may choose `track`: it is available, and the
/// playlist its context names (if any) does not exclude it.
pub open spec fn track_eligible(store: Set<(Seq<char>, Seq<char>)>, track: TrackRefView) -> bool {
    !track.unavailable && match playlist_id_of(track.context) {
        None => true,
        Some(playlist) => !store.contains((playlist, track.id)),
    }
}

/// The characters of one exclusion pair.
pub open spec fn pair_view(pair: (String, String)) -> (Seq<char>, Seq<char>) {
    (pair.0@, pair.1@)
}

/// The characters of every exclusion pair, in order.
pub open spec fn pairs_view(pairs: Seq<(String, String)>) -> Seq<(Seq<char>, Seq<char>)> {
    pairs.map_values(|pair: (String, String)| pair_view(pair))
}

/// The playlist exclusions automatic playback respects: pairs of a playlist
/// id and a track id.
pub struct ExclusionStore {
    pairs: Vec<(String, String)>,
}

impl View for ExclusionStore {
    type V = Set<(Seq<char>, Seq<char>)>;

    closed spec fn view(&self) -> Set<(Seq<char>, Seq<char>)> {
        pairs_view(self.pairs@).to_set()
    }
}

impl ExclusionStore {
    /// A store that excludes nothing.
    pub fn new() -> (store: Self)
        ensures
            store@ == Set::<(Seq<char>, Seq<char>)>::empty(),
    {
        let store = ExclusionStore { pairs: Vec::new() };
        assert(pairs_view(store.pairs@) =~= Seq::empty());
        assert(store@ =~= Set::<(Seq<char>, Seq<char>)>::empty());
        store
    }

    /// Whether `track_id` is excluded from automatic playback of `playlist_id`.
    pub fn is_excluded(&self, playlist_id: &str, track_id: &str) -> (excluded: bool)
        ensures
            excluded == self@.contains((playlist_id@, track_id@)),
    {
        let playlist = playlist_id.to_owned();
        let track = track_id.to_owned();
        let ghost target = (playlist_id@, track_id@);
        let ghost view = pairs_view(self.pairs@);
        let mut i: usize = 0;
        while i < self.pairs.len()
            invariant
                i <= self.pairs@.len(),
                playlist@ == playlist_id@,
                track@ == track_id@,
                view == pairs_view(self.pairs@),
                target == (playlist_id@, track_id@),
                forall|k: int| 0 <= k < i ==> #[trigger] view[k] != target,
            decreases self.pairs.len() - i,
        {
            if self.pairs[i].0 == playlist && self.pairs[i].1 == track {
                assert(view[i as int] == target);
                assert(view.to_set().contains(target));
                return true;
            }
            i = i + 1;
        }
        assert(!view.contains(target));
        false
    }

    /// Excludes `track_id` from automatic playback of `playlist_id`, or lifts
    /// that exclusion.
    pub fn set_excluded(&mut self, playlist_id: &str, track_id: &str, excluded: bool)
        ensures
            excluded ==> final(self)@ == old(self)@.insert((playlist_id@, track_id@)),
            !excluded ==> final(self)@ == old(self)@.remove((playlist_id@, track_id@)),
    {
        let playlist = playlist_id.to_owned();
        let track = track_id.to_owned();
        let ghost target = (playlist_id@, track_id@);
        let ghost before = pairs_view(self.pairs@);
        let mut kept: Vec<(String, String)> = Vec::new();
        let mut i: usize = 0;
        while i < self.pairs.len()
            invariant
                i <= self.pairs@.len(),
                playlist@ == playlist_id@,
                track@ == track_id@,
                target == (playlist_id@, track_id@),
                before == pairs_view(self.pairs@),
                forall|k: int| 0 <= k < kept@.len() ==> #[trigger] pairs_view(kept@)[k] != target,
                forall|k: int|
                    0 <= k < kept@.len() ==> before.subrange(0, i as int).contains(
                        #[trigger] pairs_view(kept@)[k],
                    ),
                forall|m: int|
                    0 <= m < i && #[trigger] before[m] != target ==> pairs_view(kept@).contains(
                        before[m],
                    ),
            decreases self.pairs.len() - i,
        {
            let same = self.pairs[i].0 == playlist && self.pairs[i].1 == track;
            let ghost old_kept = pairs_view(kept@);
            if !same {
                let pair = (self.pairs[i].0.clone(), self.pairs[i].1.clone());
                kept.push(pair);
                proof {
                    assert(pairs_view(kept@) =~= old_kept.push(before[i as int]));
                }
            }
            proof {
                let now = pairs_view(kept@);
                assert forall|k: int| 0 <= k < kept@.len() implies before.subrange(
                    0,
                    i + 1,
                ).contains(#[trigger] pairs_view(kept@)[k]) by {
                    if k < old_kept.len() {
                        assert(now[k] == old_kept[k]);
                        let m = choose|m: int|
                            0 <= m < i && before.subrange(0, i as int)[m] == old_kept[k];
                        assert(before.subrange(0, i + 1)[m] == now[k]);
                    } else {
                        assert(before.subrange(0, i + 1)[i as int] == now[k]);
                    }
                }
                assert forall|m: int|
                    0 <= m < i + 1 && #[trigger] before[m] != target implies now.contains(
                        before[m],
                    ) by {
                    if m < i {
                        let k = choose|k: int| 0 <= k < old_kept.len() && old_kept[k] == before[m];
                        assert(now[k] == before[m]);
                    } else {
                        assert(now[now.len() - 1] == before[m]);
                    }
                }
            }
            i = i + 1;
        }
        let ghost filtered = pairs_view(kept@);
        if excluded {
            kept.push((playlist, track));
        }
        self.pairs = kept;
        proof {
            let result = if excluded {
                before.to_set().insert(target)
            } else {
                before.to_set().remove(target)
            };
            let now = pairs_view(self.pairs@);
            if excluded {
                assert(now =~= filtered.push(target));
            } else {
                assert(now =~= filtered);
            }
            assert forall|pair: (Seq<char>, Seq<char>)| #[trigger]
                now.to_set().contains(pair) <==> result.contains(pair) by {
                if now.contains(pair) {
                    let k = choose|k: int| 0 <= k < now.len() && now[k] == pair;
                    if k < filtered.len() {
                        assert(filtered[k] == pair);
                        assert(before.subrange(0, before.len() as int).contains(pair));
                        let m = choose|m: int|
                            0 <= m < before.len() && before.subrange(0, before.len() as int)[m]
                                == pair;
                        assert(before[m] == pair);
                    }
                }
                if result.contains(pair) {
                    if pair != target {
                        let m = choose|m: int| 0 <= m < before.len() && before[m] == pair;
                        assert(filtered.contains(before[m]));
                        let k = choose|k: int| 0 <= k < filtered.len() && filtered[k] == pair;
                        assert(now[k] == pair);
                    } else {
                        assert(now[now.len() - 1] == pair);
                    }
                }
            }
            assert(self@ =~= result);
        }
    }
}

/// The playlist a queue row's context names, for playlist exclusions: the
/// text after `playlist:`, provided it is not blank.
pub fn automatic_playlist_id(context: &str) -> (playlist: Option<&str>)
    ensures
        match playlist {
            Some(id) => playlist_id_of(context@) == Some(id@),
            None => playlist_id_of(context@) is None,
        },
{
    let n = context.unicode_len();
    if n < 9 {
        return None;
    }
    let prefix = "playlist:";
    proof {
        reveal_strlit("playlist:");
    }
    let mut i: usize = 0;
    while i < 9
        invariant
            n == context@.len(),
            9 <= n,
            i <= 9,
            prefix@ == playlist_prefix(),
            forall|k: int| 0 <= k < i ==> context@[k] == playlist_prefix()[k],
        decreases 9 - i,
    {
        if context.get_char(i) != prefix.get_char(i) {
            proof {
                assert(context@.subrange(0, 9)[i as int] != playlist_prefix()[i as int]);
            }
            return None;
        }
        i = i + 1;
    }
    assert(context@.subrange(0, 9) =~= playlist_prefix());
    let rest = context.substring_char(9, n);
    if trim(rest).is_empty() {
        None
    } else {
        Some(rest)
    }
}

/// Whether automatic playback may choose `track`.
pub fn automatic_track_eligible(store: &ExclusionStore, track: &TrackRef) -> (eligible: bool)
    ensures
        eligible == track_eligible(store@, track@),
{
    if track.unavailable {
        return false;
    }
    match automatic_playlist_id(track.context.as_str()) {
        None => true,
        Some(playlist) => !store.is_excluded(playlist, track.id.as_str()),
    }
}

/// The first row at or after `start` that is not permanently unavailable.
pub fn first_available_from(queue: &[TrackRef], start: usize) -> (found: Option<usize>)
    ensures
        found == (match first_in(available_mask(queue@), start as int, queue@.len() as int) {
            Some(i) => Some(i as usize),
            None => None::<usize>,
        }),
{
    let ghost mask = available_mask(queue@);
    let mut i = start;
    while i < queue.len()
        invariant
            start <= i,
            mask == available_mask(queue@),
            first_in(mask, start as int, queue@.len() as int) == first_in(
                mask,
                i as int,
                queue@.len() as int,
            ),
        decreases queue.len() - i,
    {
        if !queue[i].unavailable {
            return Some(i);
        }
        i = i + 1;
    }
    None
}

/// The first available row at or after `start`, wrapping round to the front.
pub fn first_available_wrapping(queue: &[TrackRef], start: usize) -> (found: Option<usize>)
    ensures
        found == (match first_in(available_mask(queue@), start as int, queue@.len() as int) {
            Some(i) => Some(i as usize),
            None => match first_in(
                available_mask(queue@),
                0,
                min_int(start as int, queue@.len() as int),
            ) {
                Some(i) => Some(i as usize),
                None => None::<usize>,
            },
        }),
{
    let found = first_available_from(queue, start);
    if found.is_some() {
        return found;
    }
    let end = if start < queue.len() {
        start
    } else {
        queue.len()
    };
    let ghost mask = available_mask(queue@);
    let mut i: usize = 0;
    while i < end
        invariant
            first_in(mask, start as int, queue@.len() as int) is None,
            end <= queue@.len(),
            end == min_int(start as int, queue@.len() as int),
            mask == available_mask(queue@),
            first_in(mask, 0, end as int) == first_in(mask, i as int, end as int),
        decreases end - i,
    {
        if !queue[i].unavailable {
            return Some(i);
        }
        i = i + 1;
    }
    None
}

/// The first row at or after `start` that automatic playback may choose.
pub fn first_automatic_from(queue: &[TrackRef], start: usize, store: &ExclusionStore) -> (found:
    Option<usize>)
    ensures
        found == (match first_in(eligible_mask(queue@, store@), start as int, queue@.len() as int) {
            Some(i) => Some(i as usize),
            None => None::<usize>,
        }),
{
    let ghost mask = eligible_mask(queue@, store@);
    let mut i = start;
    while i < queue.len()
        invariant
            start <= i,
            mask == eligible_mask(queue@, store@),
            first_in(mask, start as int, queue@.len() as int) == first_in(
                mask,
                i as int,
                queue@.len() as int,
            ),
        decreases queue.len() - i,
    {
        if automatic_track_eligible(store, &queue[i]) {
            return Some(i);
        }
        i = i + 1;
    }
    None
}

/// The first eligible row in `start..end`, for `end <= queue.len()`.
fn first_automatic_in(queue: &[TrackRef], start: usize, end: usize, store: &ExclusionStore) -> (found:
    Option<usize>)
    requires
        end <= queue@.len(),
    ensures
        found == (match first_in(eligible_mask(queue@, store@), start as int, end as int) {
            Some(i) => Some(i as usize),
            None => None::<usize>,
        }),
{
    let ghost mask = eligible_mask(queue@, store@);
    let mut i = start;
    while i < end
        invariant
            start <= i,
            end <= queue@.len(),
            mask == eligible_mask(queue@, store@),
            first_in(mask, start as int, end as int) == first_in(mask, i as int, end as int),
        decreases end - i,
    {
        if automatic_track_eligible(store, &queue[i]) {
            return Some(i);
        }
        i = i + 1;
    }
    None
}

/// The first eligible row at or after `start`, wrapping round to the front.
pub fn first_automatic_wrapping(queue: &[TrackRef], start: usize, store: &ExclusionStore) -> (found:
    Option<usize>)
    ensures
        found == (match first_in(eligible_mask(queue@, store@), start as int, queue@.len() as int) {
            Some(i) => Some(i as usize),
            None => match first_in(
                eligible_mask(queue@, store@),
                0,
                min_int(start as int, queue@.len() as int),
            ) {
                Some(i) => Some(i as usize),
                None => None::<usize>,
            },
        }),
{
    let found = first_automatic_from(queue, start, store);
    if found.is_some() {
        return found;
    }
    let end = if start < queue.len() {
        start
    } else {
        queue.len()
    };
    first_automatic_in(queue, 0, end, store)
}

/// Where the sequential walk goes after `current`: the next eligible row
/// after it, or, under repeat-context, the first eligible row from the front
/// up to and including `current`.
pub open spec fn sequential_target(mask: Seq<bool>, current: int, repeat: RepeatMode) -> Option<
    int,
> {
    match first_in(mask, current + 1, mask.len() as int) {
        Some(i) => Some(i),
        None => if repeat == RepeatMode::Context {
            first_in(mask, 0, min_int(current, mask.len() - 1) + 1)
        } else {
            None
        },
    }
}

/// The next row automatic playback plays after `current` in queue order.
pub fn sequential_automatic_index(
    queue: &[TrackRef],
    current: usize,
    repeat: RepeatMode,
    store: &ExclusionStore,
) -> (next: Option<usize>)
    requires
        repeat == RepeatMode::Context ==> queue@.len() > 0,
        current < usize::MAX,
    ensures
        next == (match sequential_target(
            eligible_mask(queue@, store@),
            current as int,
            repeat,
        ) {
            Some(i) => Some(i as usize),
            None => None::<usize>,
        }),
{
    let found = first_automatic_from(queue, current + 1, store);
    if found.is_some() {
        return found;
    }
    if repeat == RepeatMode::Context {
        let last = queue.len() - 1;
        let end = if current < last {
            current
        } else {
            last
        };
        first_automatic_in(queue, 0, end + 1, store)
    } else {
        None
    }
}

/// The next available row after `current` in queue order, wrapping under
/// repeat-context.
pub fn sequential_available_index(queue: &[TrackRef], current: usize, repeat: RepeatMode) -> (next:
    Option<usize>)
    requires
        repeat == RepeatMode::Context ==> queue@.len() > 0,
        current < usize::MAX,
    ensures
        next == (match sequential_target(available_mask(queue@), current as int, repeat) {
            Some(i) => Some(i as usize),
            None => None::<usize>,
        }),
{
    let found = first_available_from(queue, current + 1);
    if found.is_some() {
        return found;
    }
    if repeat == RepeatMode::Context {
        let last = queue.len() - 1;
        let end = if current < last {
            current
        } else {
            last
        };
        let ghost mask = available_mask(queue@);
        let mut i: usize = 0;
        while i <= end
            invariant
                end < queue@.len(),
                end == min_int(current as int, queue@.len() - 1),
                repeat == RepeatMode::Context,
                mask.len() == queue@.len(),
                first_in(mask, current + 1, queue@.len() as int) is None,
                mask == available_mask(queue@),
                first_in(mask, 0, end + 1) == first_in(mask, i as int, end + 1),
            decreases end + 1 - i,
        {
            if !queue[i].unavailable {
                return Some(i);
            }
            i = i + 1;
        }
        None
    } else {
        None
    }
}

/// The next index of a queue of `queue_len` rows after `current`, ignoring
/// availability: the following row, or the first under repeat-context.
pub fn sequential_next_index(current: usize, queue_len: usize, repeat: RepeatMode) -> (next: Option<
    usize,
>)
    requires
        current < usize::MAX,
    ensures
        next == (if current + 1 < queue_len {
            Some((current + 1) as usize)
        } else if repeat == RepeatMode::Context && queue_len > 0 {
            Some(0usize)
        } else {
            None
        }),
{
    if current + 1 < queue_len {
        Some(current + 1)
    } else if repeat == RepeatMode::Context && queue_len > 0 {
        Some(0)
    } else {
        None
    }
}

/// Where the row at `current` ends up once the row at `from` is taken out
/// and put back in at `to`.
pub open spec fn moved_index(current: int, from: int, to: int) -> int {
    if current == from {
        to
    } else if from < current && to >= current {
        current - 1
    } else if from > current && to <= current {
        current + 1
    } else {
        current
    }
}

/// The queue after the row at `from` is moved to `to`.
pub open spec fn moved<T>(queue: Seq<T>, from: int, to: int) -> Seq<T> {
    queue.remove(from).insert(to, queue[from])
}

/// Where the row at `current` sits after the row at `from` moved to `to`.
pub fn remap_current_index_after_move(current: usize, from: usize, to: usize) -> (index: usize)
    ensures
        index == moved_index(current as int, from as int, to as int),
{
    if current == from {
        to
    } else if from < current && to >= current {
        current - 1
    } else if from > current && to <= current {
        current + 1
    } else {
        current
    }
}

/// A move carries every row to the index [`moved_index`] names, so the
/// current row (and every index that names a row) follows its track.
pub proof fn lemma_move_keeps_every_row<T>(queue: Seq<T>, from: int, to: int, current: int)
    requires
        0 <= from < queue.len(),
        0 <= to < queue.len(),
        0 <= current < queue.len(),
    ensures
        0 <= moved_index(current, from, to) < queue.len(),
        moved(queue, from, to)[moved_index(current, from, to)] == queue[current],
{
    let removed = queue.remove(from);
    assert(removed.len() == queue.len() - 1);
    let target = moved_index(current, from, to);
    if current == from {
    } else if from < current {
        assert(removed[current - 1] == queue[current]);
        if to >= current {
            assert(target == current - 1);
        } else {
            assert(target == current);
            assert(removed.insert(to, queue[from])[current] == removed[current - 1]);
        }
    } else {
        assert(removed[current] == queue[current]);
        if to <= current {
            assert(target == current + 1);
            assert(removed.insert(to, queue[from])[current + 1] == removed[current]);
        } else {
            assert(target == current);
        }
    }
}

/// A move is a rearrangement: two different rows never land on one index.
pub proof fn lemma_move_is_injective(len: int, from: int, to: int, a: int, b: int)
    requires
        0 <= from < len,
        0 <= to < len,
        0 <= a < len,
        0 <= b < len,
        a != b,
    ensures
        moved_index(a, from, to) != moved_index(b, from, to),
{
}

/// Gives every row with a blank context the fallback context, when the
/// fallback itself is not blank.
pub open spec fn filled_context(context: Seq<char>, fallback: Seq<char>) -> Seq<char> {
    if trimmed(fallback).len() > 0 && trimmed(context).len() == 0 {
        trimmed(fallback)
    } else {
        context
    }
}

/// Gives each row whose context is blank the trimmed `fallback` context.
pub fn fill_queue_context(queue: &mut Vec<TrackRef>, fallback: &str)
    ensures
        final(queue)@.len() == old(queue)@.len(),
        forall|i: int|
            0 <= i < final(queue)@.len() ==> {
                let before = #[trigger] old(queue)@[i]@;
                let after = final(queue)@[i]@;
                after == TrackRefView { context: filled_context(before.context, fallback@), ..before }
            },
{
    let trimmed_fallback = trim(fallback);
    if trimmed_fallback.is_empty() {
        return;
    }
    let mut i: usize = 0;
    while i < queue.len()
        invariant
            i <= queue@.len(),
            queue@.len() == old(queue)@.len(),
            trimmed_fallback@ == trimmed(fallback@),
            trimmed_fallback@.len() > 0,
            forall|k: int|
                i <= k < queue@.len() ==> #[trigger] queue@[k] == old(queue)@[k],
            forall|k: int|
                0 <= k < i ==> {
                    let before = #[trigger] old(queue)@[k]@;
                    queue@[k]@ == TrackRefView {
                        context: filled_context(before.context, fallback@),
                        ..before
                    }
                },
        decreases queue.len() - i,
    {
        if trim(queue[i].context.as_str()).is_empty() {
            let mut track = queue[i].clone();
            track.context = trimmed_fallback.to_owned();
            queue.set(i, track);
        }
        i = i + 1;
    }
}


/// `first_in` finds the first row from `start` on that `mask` allows, and
/// none exactly when no row of the range is allowed.
pub proof fn lemma_first_in_is_first(mask: Seq<bool>, start: int, end: int)
    requires
        0 <= start,
        end <= mask.len(),
    ensures
        match first_in(mask, start, end) {
            Some(i) => start <= i < end && mask[i] && forall|j: int| start <= j < i ==> !#[trigger] mask[j],
            None => forall|j: int| start <= j < end ==> !#[trigger] mask[j],
        },
    decreases end - start,
{
    if start < end && !mask[start] {
        lemma_first_in_is_first(mask, start + 1, end);
    }
}


/// In queue order the next row is the nearest allowed row after the
/// current one: nothing allowed lies between them. Past the last allowed
/// row, repeat-context wraps to the first allowed row (which may be the
/// current row itself); otherwise nothing follows.
pub proof fn lemma_next_in_order_is_the_nearest_after(mask: Seq<bool>, current: int, repeat: RepeatMode)
    requires
        0 <= current < mask.len(),
    ensures
        match sequential_target(mask, current, repeat) {
            Some(i) => 0 <= i < mask.len() && mask[i] && (current < i ==> forall|j: int|
                current < j < i ==> !#[trigger] mask[j]) && (i <= current ==> repeat
                == RepeatMode::Context && (forall|j: int| current < j < mask.len() ==> !#[trigger] mask[j])
                && forall|j: int| 0 <= j < i ==> !#[trigger] mask[j]),
            None => (forall|j: int| current < j < mask.len() ==> !#[trigger] mask[j]) && (repeat
                == RepeatMode::Context ==> forall|j: int| 0 <= j <= current ==> !#[trigger] mask[j]),
        },
{
    lemma_first_in_is_first(mask, current + 1, mask.len() as int);
    lemma_first_in_is_first(mask, 0, min_int(current, mask.len() - 1) + 1);
}

} // verus!
