use crate::model::{clone_optional_string, TrackRef, TrackRefView};
use crate::sorting::{
    is_permutation, is_ranked, key_less, keys_view, stable_sort_order, SortKey, SortKeyView,
};
use crate::text::{
    chars_less, chars_of, contains_chars, contains_run, join, joined, lemma_chars_less_irreflexive,
    lemma_chars_less_transitive, lowercase_chars, to_lowercase, trim, trimmed,
};
use crate::timing::{elapsed_ms, instant_now, now_millis};
use std::collections::VecDeque;
use std::time::Instant;
use vstd::prelude::*;
use vstd::string::*;

verus! {

/// How much of a track has to be heard before the play joins the archive.
pub const QUALIFYING_MS: u64 = 5_000;

/// The archive ceiling.
pub const MAX_HISTORY_ITEMS: usize = 50_000;

/// How far past the ceiling the archive may run before it is trimmed.
pub const COMPACT_SLACK: usize = 1_000;

/// The listening a play needs to be kept: the floor, capped at half the
/// track when its duration is known.
pub open spec fn qualifying_threshold(duration_ms: u32) -> u64 {
    if duration_ms == 0 {
        QUALIFYING_MS
    } else if QUALIFYING_MS <= (duration_ms / 2) as u64 {
        QUALIFYING_MS
    } else {
        (duration_ms / 2) as u64
    }
}

/// Whether one play belongs in the archive: it reached the end, or was
/// heard for at least the qualifying threshold.
pub open spec fn qualifies(ms_played: u64, completed: bool, duration_ms: u32) -> bool {
    completed || ms_played >= qualifying_threshold(duration_ms)
}

/// Whether one play belongs in the archive.
pub fn play_qualifies(ms_played: u64, completed: bool, duration_ms: u32) -> (kept: bool)
    ensures
        kept == qualifies(ms_played, completed, duration_ms),
{
    if completed {
        return true;
    }
    let duration = duration_ms as u64;
    let threshold = if duration == 0 {
        QUALIFYING_MS
    } else if QUALIFYING_MS <= duration / 2 {
        QUALIFYING_MS
    } else {
        duration / 2
    };
    ms_played >= threshold
}

/// Listening more never takes a qualified play back out of the archive, and
/// reaching the end always qualifies.
pub proof fn lemma_qualification_is_monotone(
    ms_played: u64,
    more: u64,
    completed: bool,
    duration_ms: u32,
)
    requires
        ms_played <= more,
        qualifies(ms_played, completed, duration_ms),
    ensures
        qualifies(more, completed, duration_ms),
        qualifies(0, true, duration_ms),
{
}

/// One play as the archive records it.
#[derive(Debug)]
pub struct HistoryRow {
    pub track_id: String,
    pub started_at: i64,
    pub ms_played: u64,
    pub completed: bool,
    pub context: String,
}

/// The value of a [`HistoryRow`].
pub struct HistoryRowView {
    pub track_id: Seq<char>,
    pub started_at: i64,
    pub ms_played: u64,
    pub completed: bool,
    pub context: Seq<char>,
}

impl View for HistoryRow {
    type V = HistoryRowView;

    open spec fn view(&self) -> HistoryRowView {
        HistoryRowView {
            track_id: self.track_id@,
            started_at: self.started_at,
            ms_played: self.ms_played,
            completed: self.completed,
            context: self.context@,
        }
    }
}

impl Clone for HistoryRow {
    fn clone(&self) -> (copy: Self)
        ensures
            copy@ == self@,
    {
        HistoryRow {
            track_id: self.track_id.clone(),
            started_at: self.started_at,
            ms_played: self.ms_played,
            completed: self.completed,
            context: self.context.clone(),
        }
    }
}

/// One archived play together with the track it was a play of.
#[derive(Debug)]
pub struct HistoryItem {
    pub row: HistoryRow,
    pub track: TrackRef,
}

/// The value of a [`HistoryItem`].
pub struct HistoryItemView {
    pub row: HistoryRowView,
    pub track: TrackRefView,
}

impl View for HistoryItem {
    type V = HistoryItemView;

    open spec fn view(&self) -> HistoryItemView {
        HistoryItemView { row: self.row@, track: self.track@ }
    }
}

impl Clone for HistoryItem {
    fn clone(&self) -> (copy: Self)
        ensures
            copy@ == self@,
    {
        HistoryItem { row: self.row.clone(), track: self.track.clone() }
    }
}

/// The values of a run of items.
pub open spec fn items_view(items: Seq<HistoryItem>) -> Seq<HistoryItemView> {
    items.map_values(|item: HistoryItem| item@)
}

/// The in-progress play as it is persisted: the row and the track's length.
#[derive(Debug)]
pub struct PersistedActive {
    pub item: HistoryItem,
    pub duration_ms: u32,
}

impl Clone for PersistedActive {
    fn clone(&self) -> (copy: Self)
        ensures
            copy.item@ == self.item@,
            copy.duration_ms == self.duration_ms,
    {
        PersistedActive { item: self.item.clone(), duration_ms: self.duration_ms }
    }
}

/// The in-progress play, and since when it has been playing (`None` while
/// paused).
pub struct ActivePlay {
    pub persisted: PersistedActive,
    pub playing_since: Option<Instant>,
}

/// The listening a running play has, with `elapsed` milliseconds of the
/// current stretch folded in: capped at the track's length.
pub open spec fn accrued(ms_played: u64, elapsed: u64, duration_ms: u32) -> u64 {
    let sum = if ms_played + elapsed > u64::MAX {
        u64::MAX
    } else {
        (ms_played + elapsed) as u64
    };
    if sum <= duration_ms as u64 {
        sum
    } else {
        duration_ms as u64
    }
}

/// `ms_played` plus `elapsed`, saturating, capped at `duration_ms`.
pub fn accrue(ms_played: u64, elapsed: u64, duration_ms: u32) -> (total: u64)
    ensures
        total == accrued(ms_played, elapsed, duration_ms),
{
    let sum = ms_played.saturating_add(elapsed);
    let cap = duration_ms as u64;
    if sum <= cap {
        sum
    } else {
        cap
    }
}

/// Retains identity and display metadata only: the row forgets play
/// counts, dates, availability, the cache mark, its context and its edit.
pub open spec fn sanitized(track: TrackRefView) -> TrackRefView {
    TrackRefView {
        play_count: None,
        added_at: None,
        unavailable: false,
        unavailable_reason: None,
        cached: false,
        context: Seq::empty(),
        effective_edit: None,
        ..track
    }
}

/// A copy of `track` that keeps only identity and display metadata.
pub fn sanitize_track(track: &TrackRef) -> (clean: TrackRef)
    ensures
        clean@ == sanitized(track@),
{
    let mut clean = track.clone();
    clean.play_count = None;
    clean.added_at = None;
    clean.unavailable = false;
    clean.unavailable_reason = None;
    clean.cached = false;
    clean.context = String::new();
    clean.effective_edit = None;
    clean
}

/// The context a row keeps: trimmed, and at most 128 characters.
pub open spec fn compacted(context: Seq<char>) -> Seq<char> {
    let t = trimmed(context);
    if t.len() <= 128 {
        t
    } else {
        t.subrange(0, 128)
    }
}

/// The context a history row keeps: trimmed, and cut to 128 characters.
pub fn compact_context(context: &str) -> (compact: String)
    ensures
        compact@ == compacted(context@),
{
    let t = trim(context);
    let n = t.unicode_len();
    if n <= 128 {
        t.to_owned()
    } else {
        t.substring_char(0, 128).to_owned()
    }
}

/// Why a stored row is refused.
#[derive(Clone, Copy, Debug, PartialEq, Eq, Structural)]
pub enum InvalidItem {
    /// The row names no track.
    EmptyTrackId,
    /// The row and its track name different tracks.
    MismatchedIds,
    /// The track still carries playback data that replay must not revive.
    VolatileData,
}

/// Whether a stored track still carries playback data.
pub open spec fn volatile(track: TrackRefView) -> bool {
    track.play_count is Some || track.added_at is Some || track.unavailable
        || track.unavailable_reason is Some || track.cached || track.context.len() > 0
        || track.effective_edit is Some
}

/// What validation answers for a stored item.
pub open spec fn item_check(item: HistoryItemView) -> Result<(), InvalidItem> {
    if item.row.track_id.len() == 0 {
        Err(InvalidItem::EmptyTrackId)
    } else if item.track.id != item.row.track_id {
        Err(InvalidItem::MismatchedIds)
    } else if volatile(item.track) {
        Err(InvalidItem::VolatileData)
    } else {
        Ok(())
    }
}

/// Checks that a stored item is one this archive could have written.
pub fn validate_item(item: &HistoryItem) -> (result: Result<(), InvalidItem>)
    ensures
        result == item_check(item@),
{
    if item.row.track_id.as_str().is_empty() {
        return Err(InvalidItem::EmptyTrackId);
    }
    let track = &item.track;
    if !(track.id == item.row.track_id) {
        return Err(InvalidItem::MismatchedIds);
    }
    if track.play_count.is_some() || track.added_at.is_some() || track.unavailable
        || track.unavailable_reason.is_some() || track.cached || !track.context.as_str().is_empty()
        || track.effective_edit.is_some() {
        return Err(InvalidItem::VolatileData);
    }
    Ok(())
}

/// A sanitized track is always accepted back: what the archive writes, it
/// can read.
pub proof fn lemma_sanitized_rows_validate(row: HistoryRowView, track: TrackRefView)
    requires
        row.track_id.len() > 0,
        track.id == row.track_id,
    ensures
        item_check(HistoryItemView { row, track: sanitized(track) }) == Ok::<(), InvalidItem>(()),
{
}

/// The archive with at most the ceiling plus the slack: past that it is cut
/// back to its newest `MAX_HISTORY_ITEMS` rows.
pub open spec fn bounded<T>(rows: Seq<T>) -> Seq<T> {
    if rows.len() <= MAX_HISTORY_ITEMS + COMPACT_SLACK {
        rows
    } else {
        rows.subrange(rows.len() - MAX_HISTORY_ITEMS, rows.len() as int)
    }
}

/// The row a retired play leaves: heard to its end when it completed, with
/// `elapsed` milliseconds of a running stretch folded in otherwise.
pub open spec fn retired_row(a: ActivePlay, completed: bool, elapsed: u64) -> HistoryItemView {
    let heard = if completed {
        a.persisted.duration_ms as u64
    } else if a.playing_since is Some {
        accrued(a.persisted.item.row.ms_played, elapsed, a.persisted.duration_ms)
    } else {
        a.persisted.item.row.ms_played
    };
    HistoryItemView {
        row: HistoryRowView {
            ms_played: heard,
            completed: completed || a.persisted.item.row.completed,
            ..a.persisted.item.row@
        },
        ..a.persisted.item@
    }
}

/// Whether retiring the play keeps a row of it.
pub open spec fn retire_keeps(a: ActivePlay, completed: bool, elapsed: u64) -> bool {
    let row = retired_row(a, completed, elapsed);
    qualifies(row.row.ms_played, row.row.completed, a.persisted.duration_ms)
}

/// The archive once the in-progress play of `core` is retired.
pub open spec fn retired_archive(core: HistoryCore, completed: bool, elapsed: u64) -> Seq<HistoryItemView> {
    match core.active {
        Some(a) => if retire_keeps(a, completed, elapsed) {
            bounded(items_view(core.finalized@).push(retired_row(a, completed, elapsed)))
        } else {
            items_view(core.finalized@)
        },
        None => items_view(core.finalized@),
    }
}

/// The rows queued for the journal once the in-progress play of `core` is
/// retired.
pub open spec fn retired_pending(core: HistoryCore, completed: bool, elapsed: u64) -> Seq<HistoryItemView> {
    match core.active {
        Some(a) => if retire_keeps(a, completed, elapsed) {
            items_view(core.pending@).push(retired_row(a, completed, elapsed))
        } else {
            items_view(core.pending@)
        },
        None => items_view(core.pending@),
    }
}

/// Playback state of the archive and the bookkeeping that keeps one writer
/// draining it to disk.
pub struct HistoryCore {
    /// Finalized rows, oldest first.
    pub finalized: VecDeque<HistoryItem>,
    /// The play in progress.
    pub active: Option<ActivePlay>,
    /// Rows in `finalized` the journal has not accepted yet.
    pub pending: VecDeque<HistoryItem>,
    /// Bumped whenever the journal must be rewritten whole.
    pub rewrite_requested: u64,
    /// The highest rewrite generation on disk.
    pub rewrite_written: u64,
    /// Bumped by every event that must reach disk.
    pub requested_generation: u64,
    /// The highest generation known to be written.
    pub written_generation: u64,
    /// The highest generation a writer has attempted.
    pub attempted_generation: u64,
    /// Whether a writer is draining generations.
    pub worker_running: bool,
    /// Bumped by anything that changes which rows exist.
    pub mutation: u64,
}

impl HistoryCore {
    /// What holds of every archive: it never runs past the ceiling plus the
    /// slack.
    pub open spec fn inv(&self) -> bool {
        self.finalized@.len() <= MAX_HISTORY_ITEMS + COMPACT_SLACK
    }

    /// Whether the archive is within its ceiling plus the slack.
    pub fn within_bounds(&self) -> (ok: bool)
        ensures
            ok == self.inv(),
    {
        self.finalized.len() <= MAX_HISTORY_ITEMS + COMPACT_SLACK
    }

    /// A core over `finalized` and `active` with nothing queued and nothing
    /// written yet.
    pub fn new(finalized: VecDeque<HistoryItem>, active: Option<ActivePlay>, needs_rewrite: bool) -> (core:
        Self)
        ensures
            core.finalized@ == finalized@,
            core.active == active,
            core.pending@.len() == 0,
            core.rewrite_requested == (if needs_rewrite {
                1u64
            } else {
                0u64
            }),
            core.rewrite_written == 0,
            core.requested_generation == 0,
            core.written_generation == 0,
            core.attempted_generation == 0,
            !core.worker_running,
            core.mutation == 0,
    {
        HistoryCore {
            finalized,
            active,
            pending: VecDeque::new(),
            rewrite_requested: if needs_rewrite {
                1
            } else {
                0
            },
            rewrite_written: 0,
            requested_generation: 0,
            written_generation: 0,
            attempted_generation: 0,
            worker_running: false,
            mutation: 0,
        }
    }

    /// Folds `elapsed` milliseconds of a running play into its listening,
    /// and marks it as no longer running. A paused play, or no play, is left
    /// alone.
    pub fn accrue_active_by(&mut self, elapsed: u64)
        ensures
            final(self).finalized@ == old(self).finalized@,
            final(self).pending@ == old(self).pending@,
            final(self).mutation == old(self).mutation,
            final(self).rewrite_requested == old(self).rewrite_requested,
            final(self).rewrite_written == old(self).rewrite_written,
            final(self).requested_generation == old(self).requested_generation,
            final(self).written_generation == old(self).written_generation,
            final(self).attempted_generation == old(self).attempted_generation,
            final(self).worker_running == old(self).worker_running,
            match old(self).active {
                None => final(self).active is None,
                Some(a) => final(self).active matches Some(b) && {
                    &&& b.playing_since is None
                    &&& b.persisted.duration_ms == a.persisted.duration_ms
                    &&& b.persisted.item@ == (HistoryItemView {
                        row: HistoryRowView {
                            ms_played: if a.playing_since is Some {
                                accrued(
                                    a.persisted.item.row.ms_played,
                                    elapsed,
                                    a.persisted.duration_ms,
                                )
                            } else {
                                a.persisted.item.row.ms_played
                            },
                            ..a.persisted.item.row@
                        },
                        ..a.persisted.item@
                    })
                },
            },
    {
        match self.active.take() {
            None => {},
            Some(mut active) => {
                if active.playing_since.is_some() {
                    active.playing_since = None;
                    active.persisted.item.row.ms_played = accrue(
                        active.persisted.item.row.ms_played,
                        elapsed,
                        active.persisted.duration_ms,
                    );
                }
                self.active = Some(active);
            },
        }
    }

    /// Folds the time the running play has been playing into its listening.
    pub fn accrue_active(&mut self)
        ensures
            final(self).finalized@ == old(self).finalized@,
            final(self).pending@ == old(self).pending@,
            final(self).mutation == old(self).mutation,
            old(self).active is Some <==> final(self).active is Some,
            final(self).active matches Some(b) ==> b.playing_since is None,
    {
        let elapsed = match &self.active {
            Some(active) => elapsed_ms(active.playing_since),
            None => 0,
        };
        self.accrue_active_by(elapsed);
    }

    /// The in-progress row as it stands with `elapsed` milliseconds of the
    /// current stretch folded in.
    pub fn live_active_with(&self, elapsed: u64) -> (item: Option<HistoryItem>)
        ensures
            optional_item(item) == self.live_view(elapsed),
            match self.active {
                None => item is None,
                Some(a) => item matches Some(i) && i@ == (HistoryItemView {
                    row: HistoryRowView {
                        ms_played: if a.playing_since is Some {
                            accrued(a.persisted.item.row.ms_played, elapsed, a.persisted.duration_ms)
                        } else {
                            a.persisted.item.row.ms_played
                        },
                        ..a.persisted.item.row@
                    },
                    ..a.persisted.item@
                }),
            },
    {
        match &self.active {
            None => None,
            Some(active) => {
                let mut item = active.persisted.item.clone();
                if active.playing_since.is_some() {
                    item.row.ms_played = accrue(item.row.ms_played, elapsed, active.persisted.duration_ms);
                }
                Some(item)
            },
        }
    }

    /// The in-progress row with `elapsed` milliseconds of a running
    /// stretch folded in.
    pub open spec fn live_view(&self, elapsed: u64) -> Option<HistoryItemView> {
        match self.active {
            None => None,
            Some(a) => Some(
                HistoryItemView {
                    row: HistoryRowView {
                        ms_played: if a.playing_since is Some {
                            accrued(a.persisted.item.row.ms_played, elapsed, a.persisted.duration_ms)
                        } else {
                            a.persisted.item.row.ms_played
                        },
                        ..a.persisted.item.row@
                    },
                    ..a.persisted.item@
                },
            ),
        }
    }

    /// Whether the in-progress play, with `elapsed` milliseconds of the
    /// current stretch folded in, has earned its place in the archive.
    pub open spec fn active_qualifies(&self, elapsed: u64) -> bool {
        match self.active {
            None => false,
            Some(a) => qualifies(
                accrued(
                    a.persisted.item.row.ms_played,
                    if a.playing_since is Some {
                        elapsed
                    } else {
                        0
                    },
                    a.persisted.duration_ms,
                ),
                a.persisted.item.row.completed,
                a.persisted.duration_ms,
            ),
        }
    }

    /// Whether the in-progress play has earned its place, with `elapsed`
    /// milliseconds of the current stretch.
    pub fn active_qualified_with(&self, elapsed: u64) -> (qualified: bool)
        ensures
            qualified == self.active_qualifies(elapsed),
    {
        match &self.active {
            None => false,
            Some(active) => {
                let running = if active.playing_since.is_some() {
                    elapsed
                } else {
                    0
                };
                let heard = accrue(
                    active.persisted.item.row.ms_played,
                    running,
                    active.persisted.duration_ms,
                );
                play_qualifies(heard, active.persisted.item.row.completed, active.persisted.duration_ms)
            },
        }
    }

    /// Marks the archive as changed.
    pub fn invalidate(&mut self)
        ensures
            final(self).mutation == (if old(self).mutation == u64::MAX {
                0
            } else {
                old(self).mutation + 1
            }),
            final(self).finalized@ == old(self).finalized@,
            final(self).pending@ == old(self).pending@,
            final(self).active == old(self).active,
            final(self).rewrite_requested == old(self).rewrite_requested,
            final(self).rewrite_written == old(self).rewrite_written,
            final(self).requested_generation == old(self).requested_generation,
            final(self).written_generation == old(self).written_generation,
            final(self).attempted_generation == old(self).attempted_generation,
            final(self).worker_running == old(self).worker_running,
    {
        self.mutation = self.mutation.wrapping_add(1);
    }

    /// Trims the archive to its newest `MAX_HISTORY_ITEMS` rows once it has
    /// run `COMPACT_SLACK` rows past the ceiling, and asks for the journal
    /// to be rewritten.
    pub fn enforce_bound(&mut self)
        ensures
            final(self).finalized@ == bounded(old(self).finalized@),
            final(self).rewrite_requested == (if old(self).finalized@.len() <= MAX_HISTORY_ITEMS
                + COMPACT_SLACK {
                old(self).rewrite_requested
            } else if old(self).rewrite_requested == u64::MAX {
                0
            } else {
                (old(self).rewrite_requested + 1) as u64
            }),
            final(self).inv(),
            final(self).pending@ == old(self).pending@,
            final(self).active == old(self).active,
            final(self).mutation == old(self).mutation,
            final(self).rewrite_written == old(self).rewrite_written,
            final(self).requested_generation == old(self).requested_generation,
            final(self).written_generation == old(self).written_generation,
            final(self).attempted_generation == old(self).attempted_generation,
            final(self).worker_running == old(self).worker_running,
    {
        if self.finalized.len() <= MAX_HISTORY_ITEMS + COMPACT_SLACK {
            return;
        }
        let ghost start = self.finalized@;
        while self.finalized.len() > MAX_HISTORY_ITEMS
            invariant
                self.finalized@.len() >= MAX_HISTORY_ITEMS,
                self.finalized@.len() <= start.len(),
                start.len() > MAX_HISTORY_ITEMS + COMPACT_SLACK,
                self.finalized@ == start.subrange(
                    start.len() - self.finalized@.len(),
                    start.len() as int,
                ),
                self.pending@ == old(self).pending@,
                self.active == old(self).active,
                self.mutation == old(self).mutation,
                self.rewrite_requested == old(self).rewrite_requested,
                self.rewrite_written == old(self).rewrite_written,
                self.requested_generation == old(self).requested_generation,
                self.written_generation == old(self).written_generation,
                self.attempted_generation == old(self).attempted_generation,
                self.worker_running == old(self).worker_running,
                start == old(self).finalized@,
            decreases self.finalized@.len(),
        {
            let ghost before = self.finalized@;
            self.finalized.pop_front();
            proof {
                let n = before.len() as int;
                let l = start.len() as int;
                assert(self.finalized@ =~= before.subrange(1, n));
                assert forall|k: int| 0 <= k < n - 1 implies self.finalized@[k] == start.subrange(
                    l - (n - 1),
                    l,
                )[k] by {
                    assert(self.finalized@[k] == before[k + 1]);
                    assert(before[k + 1] == start[l - n + k + 1]);
                }
                assert(self.finalized@ =~= start.subrange(l - (n - 1), l));
            }
        }
        self.rewrite_requested = self.rewrite_requested.wrapping_add(1);
    }

    /// Moves the in-progress play into the archive if it earned a place,
    /// and discards it otherwise; `elapsed` is the time its current stretch
    /// has been playing. A completed play counts as heard to its end.
    pub fn retire_active_by(&mut self, completed: bool, elapsed: u64)
        requires
            old(self).inv(),
        ensures
            final(self).inv(),
            final(self).active is None,
            items_view(final(self).finalized@) == retired_archive(*old(self), completed, elapsed),
            items_view(final(self).pending@) == retired_pending(*old(self), completed, elapsed),
            final(self).requested_generation == old(self).requested_generation,
            final(self).worker_running == old(self).worker_running,
            final(self).rewrite_written == old(self).rewrite_written,
            match old(self).active {
                None => {
                    &&& final(self).finalized@ == old(self).finalized@
                    &&& final(self).pending@ == old(self).pending@
                    &&& final(self).mutation == old(self).mutation
                },
                Some(a) => {
                    let heard = if completed {
                        a.persisted.duration_ms as u64
                    } else if a.playing_since is Some {
                        accrued(a.persisted.item.row.ms_played, elapsed, a.persisted.duration_ms)
                    } else {
                        a.persisted.item.row.ms_played
                    };
                    let done = completed || a.persisted.item.row.completed;
                    let row = HistoryItemView {
                        row: HistoryRowView {
                            ms_played: heard,
                            completed: done,
                            ..a.persisted.item.row@
                        },
                        ..a.persisted.item@
                    };
                    if qualifies(heard, done, a.persisted.duration_ms) {
                        &&& items_view(final(self).finalized@) == bounded(
                            items_view(old(self).finalized@).push(row),
                        )
                        &&& items_view(final(self).pending@) == items_view(old(self).pending@).push(
                            row,
                        )
                        &&& final(self).mutation != old(self).mutation
                    } else {
                        &&& final(self).finalized@ == old(self).finalized@
                        &&& final(self).pending@ == old(self).pending@
                        &&& final(self).mutation == old(self).mutation
                    }
                },
            },
    {
        self.accrue_active_by(elapsed);
        let mut active = match self.active.take() {
            None => {
                return;
            },
            Some(active) => active,
        };
        if completed {
            active.persisted.item.row.completed = true;
            active.persisted.item.row.ms_played = active.persisted.duration_ms as u64;
        }
        let item = active.persisted.item;
        if !play_qualifies(item.row.ms_played, item.row.completed, active.persisted.duration_ms) {
            return;
        }
        let ghost old_finalized = self.finalized@;
        let ghost old_pending = self.pending@;
        self.finalized.push_back(item.clone());
        self.pending.push_back(item);
        proof {
            assert(items_view(self.finalized@) =~= items_view(old_finalized).push(item@));
            assert(items_view(self.pending@) =~= items_view(old_pending).push(item@));
        }
        let ghost pushed = self.finalized@;
        self.enforce_bound();
        proof {
            if pushed.len() > MAX_HISTORY_ITEMS + COMPACT_SLACK {
                assert(items_view(self.finalized@) =~= items_view(pushed).subrange(
                    pushed.len() - MAX_HISTORY_ITEMS,
                    pushed.len() as int,
                ));
            }
        }
        self.invalidate();
    }
}

/// A position in an ordering of the archive: the in-progress play, or a
/// finalized row by its index.
#[derive(Clone, Copy, Debug, PartialEq, Eq, Structural)]
pub enum Slot {
    Active,
    Finalized(u32),
}

/// The orders the history view offers.
#[derive(Clone, Copy, Debug, PartialEq, Eq, Structural)]
pub enum HistorySort {
    Recent,
    Oldest,
    Title,
    Artist,
}

/// One request for a window of the archive.
#[derive(Debug)]
pub struct HistoryQuery {
    pub query: String,
    pub sort: HistorySort,
    pub offset: usize,
    pub limit: usize,
}

impl HistoryQuery {
    /// The first page of the whole archive, newest first.
    pub fn new() -> (query: Self)
        ensures
            query.query@.len() == 0,
            query.sort == HistorySort::Recent,
            query.offset == 0,
            query.limit == DEFAULT_PAGE_LIMIT,
    {
        HistoryQuery {
            query: String::new(),
            sort: HistorySort::Recent,
            offset: 0,
            limit: DEFAULT_PAGE_LIMIT,
        }
    }
}

impl Default for HistoryQuery {
    fn default() -> (query: Self)
        ensures
            query.query@.len() == 0,
            query.sort == HistorySort::Recent,
            query.offset == 0,
            query.limit == DEFAULT_PAGE_LIMIT,
    {
        HistoryQuery::new()
    }
}

/// The rows a request asks for when it names no limit.
pub const DEFAULT_PAGE_LIMIT: usize = 50;

/// One window of the archive, with the sizes the view pages against.
#[derive(Debug)]
pub struct HistoryPage {
    pub items: Vec<HistoryItem>,
    pub total: usize,
    pub recorded: usize,
    pub offset: usize,
    pub next_offset: Option<usize>,
}

/// Whether a row answers the (trimmed, lower-cased) filter: its title or
/// one of its artists, lower-cased, contains it.
pub open spec fn item_matches(item: HistoryItemView, needle: Seq<char>) -> bool {
    ||| needle.len() == 0
    ||| contains_chars(lowercase_chars(item.track.name), needle)
    ||| exists|k: int|
        0 <= k < item.track.artist_names.len() && contains_chars(
            lowercase_chars(#[trigger] item.track.artist_names[k]),
            needle,
        )
}

/// The rows among the first `end` that answer the filter, oldest first.
pub open spec fn matching_rows(rows: Seq<HistoryItemView>, needle: Seq<char>, end: int) -> Seq<Slot>
    decreases end,
{
    if end <= 0 {
        Seq::empty()
    } else {
        let rest = matching_rows(rows, needle, end - 1);
        if item_matches(rows[end - 1], needle) {
            rest.push(Slot::Finalized((end - 1) as u32))
        } else {
            rest
        }
    }
}

/// The in-progress slot, when it is part of the archive and answers the
/// filter.
pub open spec fn head_slot(live: Option<HistoryItemView>, qualified: bool, needle: Seq<char>) -> Seq<Slot> {
    if qualified && live is Some && item_matches(live.unwrap(), needle) {
        seq![Slot::Active]
    } else {
        Seq::empty()
    }
}

/// The item a slot stands for.
pub open spec fn slot_item(rows: Seq<HistoryItemView>, live: Option<HistoryItemView>, slot: Slot) -> HistoryItemView {
    match slot {
        Slot::Active => live.unwrap(),
        Slot::Finalized(i) => rows[i as int],
    }
}

/// What a name order sorts a row by.
pub open spec fn sort_key_of(item: HistoryItemView, sort: HistorySort) -> SortKeyView {
    SortKeyView {
        primary: if sort == HistorySort::Artist {
            lowercase_chars(joined(item.track.artist_names, seq![',', ' ']))
        } else {
            Seq::empty()
        },
        title: lowercase_chars(item.track.name),
        started_at: item.row.started_at,
    }
}

/// Whether `ordering` is the filtered archive in the requested order:
/// newest first with the in-progress row at the head; oldest first with it
/// at the tail; or stably sorted by the name keys.
pub open spec fn is_ordering(
    ordering: Seq<Slot>,
    rows: Seq<HistoryItemView>,
    live: Option<HistoryItemView>,
    qualified: bool,
    needle: Seq<char>,
    sort: HistorySort,
) -> bool {
    let head = head_slot(live, qualified, needle);
    let body = matching_rows(rows, needle, rows.len() as int);
    match sort {
        HistorySort::Recent => ordering == head + body.reverse(),
        HistorySort::Oldest => ordering == body + head,
        _ => {
            let scan = head + body;
            let keys = scan.map_values(|slot: Slot| sort_key_of(slot_item(rows, live, slot), sort));
            exists|order: Seq<usize>|
                {
                    &&& is_permutation(order, scan.len() as int)
                    &&& is_ranked(keys, order)
                    &&& ordering == order.map_values(|k: usize| scan[k as int])
                }
        },
    }
}

/// The slot at logical position `index` of the unfiltered archive in time
/// order: newest first puts the in-progress play at the head, oldest first
/// at the tail.
pub open spec fn chronological(index: int, finalized_len: int, qualified: bool, sort: HistorySort) -> Slot {
    if sort == HistorySort::Oldest {
        if index < finalized_len {
            Slot::Finalized(index as u32)
        } else {
            Slot::Active
        }
    } else if qualified {
        if index == 0 {
            Slot::Active
        } else {
            Slot::Finalized((finalized_len - index) as u32)
        }
    } else {
        Slot::Finalized((finalized_len - 1 - index) as u32)
    }
}

/// The slot at logical position `index` of the unfiltered archive in time
/// order.
pub fn chronological_slot(index: usize, finalized_len: usize, active_qualified: bool, sort: HistorySort) -> (slot:
    Slot)
    requires
        index < finalized_len + (if active_qualified {
            1int
        } else {
            0
        }),
    ensures
        slot == chronological(index as int, finalized_len as int, active_qualified, sort),
{
    match sort {
        HistorySort::Oldest => {
            if index < finalized_len {
                Slot::Finalized(index as u32)
            } else {
                Slot::Active
            }
        },
        _ => {
            if active_qualified {
                if index == 0 {
                    Slot::Active
                } else {
                    Slot::Finalized((finalized_len - index) as u32)
                }
            } else {
                Slot::Finalized((finalized_len - 1 - index) as u32)
            }
        },
    }
}

/// Unfiltered, the time orders are exactly the chronological slots: the
/// arithmetic shortcut and the projection agree.
pub proof fn lemma_chronological_is_the_ordering(
    rows: Seq<HistoryItemView>,
    live: Option<HistoryItemView>,
    qualified: bool,
    sort: HistorySort,
)
    requires
        sort == HistorySort::Recent || sort == HistorySort::Oldest,
        qualified ==> live is Some,
        rows.len() <= u32::MAX,
    ensures
        is_ordering(
            Seq::new(
                (rows.len() + if qualified {
                    1int
                } else {
                    0
                }) as nat,
                |i: int| chronological(i, rows.len() as int, qualified, sort),
            ),
            rows,
            live,
            qualified,
            Seq::empty(),
            sort,
        ),
{
    let needle = Seq::<char>::empty();
    lemma_all_rows_match(rows, rows.len() as int);
    let head = head_slot(live, qualified, needle);
    let body = matching_rows(rows, needle, rows.len() as int);
    let n = rows.len() + if qualified {
        1int
    } else {
        0
    };
    let chrono = Seq::new(n as nat, |i: int| chronological(i, rows.len() as int, qualified, sort));
    if sort == HistorySort::Recent {
        assert(chrono =~= head + body.reverse());
    } else {
        assert(chrono =~= body + head);
    }
}

/// With no filter, every finalized row is in the scan, in order.
pub proof fn lemma_all_rows_match(rows: Seq<HistoryItemView>, end: int)
    requires
        0 <= end <= rows.len(),
        rows.len() <= u32::MAX,
    ensures
        matching_rows(rows, Seq::empty(), end) == Seq::new(end as nat, |i: int| Slot::Finalized(i as u32)),
    decreases end,
{
    if end > 0 {
        lemma_all_rows_match(rows, end - 1);
        assert(Seq::new(end as nat, |i: int| Slot::Finalized(i as u32)) =~= Seq::new(
            (end - 1) as nat,
            |i: int| Slot::Finalized(i as u32),
        ).push(Slot::Finalized((end - 1) as u32)));
    } else {
        assert(Seq::new(0, |i: int| Slot::Finalized(i as u32)) =~= Seq::<Slot>::empty());
    }
}

/// Whether `item`, lower-cased, answers the (already lower-cased) filter.
pub fn matches(item: &HistoryItem, needle: &Vec<char>) -> (answers: bool)
    ensures
        answers == item_matches(item@, needle@),
{
    if needle.len() == 0 {
        return true;
    }
    let name = chars_of(to_lowercase(item.track.name.as_str()).as_str());
    if contains_run(&name, needle) {
        return true;
    }
    let artists = &item.track.artist_names;
    let mut k: usize = 0;
    while k < artists.len()
        invariant
            k <= artists@.len(),
            needle@.len() > 0,
            artists == &item.track.artist_names,
            !contains_chars(lowercase_chars(item.track.name@), needle@),
            forall|j: int|
                0 <= j < k ==> !contains_chars(
                    lowercase_chars(#[trigger] item@.track.artist_names[j]),
                    needle@,
                ),
        decreases artists.len() - k,
    {
        let artist = chars_of(to_lowercase(artists[k].as_str()).as_str());
        if contains_run(&artist, needle) {
            assert(item@.track.artist_names[k as int] == artists@[k as int]@);
            return true;
        }
        assert(item@.track.artist_names[k as int] == artists@[k as int]@);
        k = k + 1;
    }
    false
}

/// The sort key of `item` for a name order.
pub fn sort_key(item: &HistoryItem, sort: HistorySort) -> (key: SortKey)
    ensures
        key@ == sort_key_of(item@, sort),
{
    let primary = if sort == HistorySort::Artist {
        chars_of(to_lowercase(join(&item.track.artist_names, ", ").as_str()).as_str())
    } else {
        Vec::new()
    };
    let title = chars_of(to_lowercase(item.track.name.as_str()).as_str());
    proof {
        reveal_strlit(", ");
        assert(", "@ =~= seq![',', ' ']);
    }
    SortKey { primary, title, started_at: item.row.started_at }
}

/// The row a play of `track` begins with.
pub open spec fn started_row(track: TrackRefView, started_at: i64) -> HistoryItemView {
    HistoryItemView {
        row: HistoryRowView {
            track_id: track.id,
            started_at,
            ms_played: 0,
            completed: false,
            context: compacted(track.context),
        },
        track: sanitized(track),
    }
}

/// Whether the play in progress is a play of the track `id`.
pub open spec fn playing_track(core: HistoryCore, id: Seq<char>) -> bool {
    core.active matches Some(a) && a.persisted.item.row.track_id@ == id
}

/// A generation counter moved on by one, skipping zero.
pub open spec fn bumped(generation: u64) -> u64 {
    if generation == u64::MAX {
        1
    } else {
        (generation + 1) as u64
    }
}

/// Whether the store persists what changes: it has somewhere to write and
/// its archive loaded.
pub open spec fn queues(store: ListeningHistory) -> bool {
    store.persistent && store.load_error is None
}

/// The text a refused read or clear answers with.
pub open spec fn read_only_message(error: Seq<char>) -> Seq<char> {
    "listening history is read-only: "@ + error
}

/// The value of an optional item.
pub open spec fn optional_item(item: Option<HistoryItem>) -> Option<HistoryItemView> {
    match item {
        Some(i) => Some(i@),
        None => None,
    }
}

/// The window `offset..offset + limit` of a list of `total` entries,
/// clamped to it, as (start, end).
pub open spec fn window(offset: usize, limit: usize, total: int) -> (int, int) {
    let wanted = if offset + limit > usize::MAX {
        usize::MAX as int
    } else {
        offset + limit
    };
    let end = if wanted <= total {
        wanted
    } else {
        total
    };
    let start = if offset <= end {
        offset as int
    } else {
        end
    };
    (start, end)
}

/// A durable, paged listening archive: finalized rows plus the play in
/// progress, answering filtered and ordered pages from memory. A store
/// whose archive could not be loaded is read-only.
pub struct ListeningHistory {
    /// Whether the archive has somewhere to be persisted to.
    pub persistent: bool,
    /// Why the archive could not be loaded, if it could not.
    pub load_error: Option<String>,
    pub core: HistoryCore,
}

impl ListeningHistory {
    /// Builds a store over rows already loaded. A trimmed or imported
    /// archive is only in memory, so it asks for a persistence pass.
    pub fn from_parts(
        persistent: bool,
        finalized: VecDeque<HistoryItem>,
        active: Option<ActivePlay>,
        needs_rewrite: bool,
        load_error: Option<String>,
    ) -> (store: Self)
        ensures
            store.persistent == persistent,
            store.load_error == load_error,
            store.core.finalized@ == finalized@,
            store.core.active == active,
            store.core.pending@.len() == 0,
            store.core.rewrite_requested == (if needs_rewrite {
                1u64
            } else {
                0u64
            }),
            store.core.worker_running == (needs_rewrite && persistent && load_error is None),
            store.core.requested_generation == (if needs_rewrite && persistent && load_error is None {
                1u64
            } else {
                0u64
            }),
    {
        let mut store = ListeningHistory {
            persistent,
            load_error,
            core: HistoryCore::new(finalized, active, needs_rewrite),
        };
        if needs_rewrite {
            store.persist();
        }
        store
    }

    /// Whether the store accepts changes.
    pub fn writable(&self) -> (writable: bool)
        ensures
            writable == self.load_error is None,
    {
        self.load_error.is_none()
    }

    /// Queues the newest state for persistence: bumps the requested
    /// generation (never to zero) and claims the single writer slot, and
    /// answers whether a writer has to be started for it. A store with
    /// nowhere to persist, or a read-only one, does nothing.
    pub fn persist(&mut self) -> (start_writer: bool)
        ensures
            final(self).persistent == old(self).persistent,
            final(self).load_error == old(self).load_error,
            final(self).core.finalized@ == old(self).core.finalized@,
            final(self).core.pending@ == old(self).core.pending@,
            final(self).core.active == old(self).core.active,
            final(self).core.mutation == old(self).core.mutation,
            final(self).core.rewrite_requested == old(self).core.rewrite_requested,
            final(self).core.rewrite_written == old(self).core.rewrite_written,
            final(self).core.written_generation == old(self).core.written_generation,
            final(self).core.attempted_generation == old(self).core.attempted_generation,
            !queues(*old(self)) ==> {
                &&& final(self).core.requested_generation == old(self).core.requested_generation
                &&& final(self).core.worker_running == old(self).core.worker_running
                &&& !start_writer
            },
            queues(*old(self)) ==> {
                &&& final(self).core.requested_generation == bumped(old(self).core.requested_generation)
                &&& final(self).core.worker_running
                &&& start_writer == !old(self).core.worker_running
            },
    {
        if !self.persistent || self.load_error.is_some() {
            return false;
        }
        let next = self.core.requested_generation.wrapping_add(1);
        self.core.requested_generation = if next < 1 {
            1
        } else {
            next
        };
        let start_writer = !self.core.worker_running;
        self.core.worker_running = true;
        start_writer
    }

    /// Begins a logical play of `track`, started at `started_at` (unix
    /// milliseconds) and playing since `now`. The play it replaces is
    /// retired first, `elapsed` being how long its current stretch has
    /// played: into the archive if it qualified, out of existence if not.
    /// A store that does not persist, or a read-only one, records nothing.
    pub fn start_with(&mut self, track: &TrackRef, elapsed: u64, started_at: i64, now: Instant)
        requires
            old(self).core.inv(),
        ensures
            final(self).core.inv(),
            final(self).persistent == old(self).persistent,
            final(self).load_error == old(self).load_error,
            !queues(*old(self)) ==> *final(self) == *old(self),
            queues(*old(self)) ==> {
                &&& items_view(final(self).core.finalized@) == retired_archive(old(self).core, false, elapsed)
                &&& items_view(final(self).core.pending@) == retired_pending(old(self).core, false, elapsed)
                &&& final(self).core.active matches Some(a) && {
                    &&& a.playing_since == Some(now)
                    &&& a.persisted.duration_ms == track.duration_ms
                    &&& a.persisted.item@ == started_row(track@, started_at)
                }
                &&& final(self).core.requested_generation == bumped(old(self).core.requested_generation)
                &&& final(self).core.worker_running
            },
    {
        if !self.persistent || self.load_error.is_some() {
            return;
        }
        self.core.retire_active_by(false, elapsed);
        let item = HistoryItem {
            row: HistoryRow {
                track_id: track.id.clone(),
                started_at,
                ms_played: 0,
                completed: false,
                context: compact_context(track.context.as_str()),
            },
            track: sanitize_track(track),
        };
        self.core.active = Some(
            ActivePlay {
                persisted: PersistedActive { item, duration_ms: track.duration_ms },
                playing_since: Some(now),
            },
        );
        self.persist();
    }

    /// Begins a logical play of `track` now.
    pub fn start(&mut self, track: &TrackRef)
        requires
            old(self).core.inv(),
        ensures
            final(self).core.inv(),
            final(self).persistent == old(self).persistent,
            final(self).load_error == old(self).load_error,
            !queues(*old(self)) ==> *final(self) == *old(self),
            queues(*old(self)) ==> {
                &&& final(self).core.active matches Some(a) && a.persisted.duration_ms
                    == track.duration_ms && a.playing_since is Some && a.persisted.item@.row.track_id
                    == track.id@ && a.persisted.item@.track == sanitized(track@)
                    && a.persisted.item@.row.ms_played == 0
                &&& exists|elapsed: u64|
                    items_view(final(self).core.finalized@) == #[trigger] retired_archive(
                        old(self).core,
                        false,
                        elapsed,
                    )
                &&& final(self).core.worker_running
            },
    {
        let elapsed = match &self.core.active {
            Some(active) => elapsed_ms(active.playing_since),
            None => 0,
        };
        let started_at = now_millis();
        let now = instant_now();
        self.start_with(track, elapsed, started_at, now);
    }

    /// Starts the clock again on a paused play from `now`. A running play,
    /// or no play, is left as it is.
    pub fn resume_with(&mut self, now: Instant)
        ensures
            final(self).persistent == old(self).persistent,
            final(self).load_error == old(self).load_error,
            final(self).core.finalized@ == old(self).core.finalized@,
            final(self).core.pending@ == old(self).core.pending@,
            final(self).core.mutation == old(self).core.mutation,
            (old(self).core.active matches Some(a) && a.playing_since is None) ==> {
                &&& final(self).core.active matches Some(b) && b.playing_since == Some(now)
                    && b.persisted == old(self).core.active->0.persisted
                &&& queues(*old(self)) ==> final(self).core.worker_running
                &&& queues(*old(self)) ==> final(self).core.requested_generation == bumped(
                    old(self).core.requested_generation,
                )
            },
            !(old(self).core.active matches Some(a) && a.playing_since is None) ==> *final(self)
                == *old(self),
    {
        let mut active = match self.core.active.take() {
            None => {
                return;
            },
            Some(active) => active,
        };
        if active.playing_since.is_some() {
            self.core.active = Some(active);
            return;
        }
        active.playing_since = Some(now);
        self.core.active = Some(active);
        self.persist();
    }

    /// Starts the clock again on a paused play.
    pub fn resume(&mut self)
        ensures
            final(self).core.finalized@ == old(self).core.finalized@,
            final(self).core.pending@ == old(self).core.pending@,
            (old(self).core.active matches Some(a) && a.playing_since is None) ==> (final(self).core.active matches Some(b) && b.playing_since is Some && b.persisted == old(self).core.active->0.persisted),
            !(old(self).core.active matches Some(a) && a.playing_since is None) ==> *final(self)
                == *old(self),
    {
        let now = instant_now();
        self.resume_with(now);
    }

    /// Resumes the play in progress when it is a play of `track`, and
    /// begins a new one otherwise.
    pub fn start_or_resume(&mut self, track: &TrackRef)
        requires
            old(self).core.inv(),
        ensures
            final(self).core.inv(),
            playing_track(old(self).core, track.id@) ==> {
                &&& final(self).core.finalized@ == old(self).core.finalized@
                &&& final(self).core.active is Some
                &&& final(self).core.active->0.persisted == old(self).core.active->0.persisted
            },
            !playing_track(old(self).core, track.id@) && queues(*old(self)) ==> {
                &&& playing_track(final(self).core, track.id@)
                &&& final(self).core.active->0.persisted.item@.row.ms_played == 0
            },
            !playing_track(old(self).core, track.id@) && !queues(*old(self)) ==> *final(self)
                == *old(self),
    {
        let same_track = match &self.core.active {
            Some(active) => active.persisted.item.row.track_id == track.id,
            None => false,
        };
        if same_track {
            self.resume();
        } else {
            self.start(track);
        }
    }

    /// Stops the clock on the play in progress, folding in the `elapsed`
    /// milliseconds its current stretch has played. A read-only store does
    /// nothing.
    pub fn pause_with(&mut self, elapsed: u64)
        ensures
            final(self).persistent == old(self).persistent,
            final(self).load_error == old(self).load_error,
            final(self).core.finalized@ == old(self).core.finalized@,
            final(self).core.pending@ == old(self).core.pending@,
            final(self).core.mutation == old(self).core.mutation,
            old(self).load_error is Some ==> *final(self) == *old(self),
            old(self).load_error is None ==> match old(self).core.active {
                None => final(self).core.active is None && final(self).core.requested_generation
                    == old(self).core.requested_generation,
                Some(a) => final(self).core.active matches Some(b) && {
                    &&& b.playing_since is None
                    &&& b.persisted.duration_ms == a.persisted.duration_ms
                    &&& b.persisted.item@.row.ms_played == (if a.playing_since is Some {
                        accrued(a.persisted.item.row.ms_played, elapsed, a.persisted.duration_ms)
                    } else {
                        a.persisted.item.row.ms_played
                    })
                    &&& b.persisted.item@.track == a.persisted.item@.track
                    &&& b.persisted.item@.row.started_at == a.persisted.item@.row.started_at
                    &&& queues(*old(self)) ==> final(self).core.requested_generation == bumped(
                        old(self).core.requested_generation,
                    )
                },
            },
    {
        if self.load_error.is_some() {
            return;
        }
        self.core.accrue_active_by(elapsed);
        if self.core.active.is_some() {
            self.persist();
        }
    }

    /// Stops the clock on the play in progress.
    pub fn pause(&mut self)
        ensures
            final(self).core.finalized@ == old(self).core.finalized@,
            final(self).core.pending@ == old(self).core.pending@,
            old(self).load_error is Some ==> *final(self) == *old(self),
            old(self).load_error is None ==> (old(self).core.active is Some <==> final(self).core.active is Some),
            old(self).load_error is None ==> (final(self).core.active matches Some(b)
                ==> b.playing_since is None),
    {
        let elapsed = match &self.core.active {
            Some(active) => elapsed_ms(active.playing_since),
            None => 0,
        };
        self.pause_with(elapsed);
    }

    /// Retires the current play, `completed` when it reached its end, with
    /// `elapsed` milliseconds of a running stretch. Answers `false` when the
    /// store is read-only.
    pub fn finalize_with(&mut self, completed: bool, elapsed: u64) -> (accepted: bool)
        requires
            old(self).core.inv(),
        ensures
            final(self).core.inv(),
            accepted == (old(self).load_error is None),
            final(self).persistent == old(self).persistent,
            final(self).load_error == old(self).load_error,
            !accepted ==> *final(self) == *old(self),
            accepted && old(self).core.active is None ==> *final(self) == *old(self),
            accepted && old(self).core.active is Some ==> {
                &&& final(self).core.active is None
                &&& items_view(final(self).core.finalized@) == retired_archive(
                    old(self).core,
                    completed,
                    elapsed,
                )
                &&& items_view(final(self).core.pending@) == retired_pending(
                    old(self).core,
                    completed,
                    elapsed,
                )
                &&& queues(*old(self)) ==> final(self).core.requested_generation == bumped(
                    old(self).core.requested_generation,
                )
            },
    {
        if self.load_error.is_some() {
            return false;
        }
        if self.core.active.is_none() {
            return true;
        }
        self.core.retire_active_by(completed, elapsed);
        self.persist();
        true
    }

    /// Retires the current play, `completed` when it reached its end.
    pub fn finalize(&mut self, completed: bool) -> (accepted: bool)
        requires
            old(self).core.inv(),
        ensures
            final(self).core.inv(),
            accepted == (old(self).load_error is None),
            !accepted ==> *final(self) == *old(self),
            accepted && old(self).core.active is None ==> *final(self) == *old(self),
            accepted && old(self).core.active is Some ==> final(self).core.active is None
                && exists|elapsed: u64|
                items_view(final(self).core.finalized@) == #[trigger] retired_archive(
                    old(self).core,
                    completed,
                    elapsed,
                ),
    {
        let elapsed = match &self.core.active {
            Some(active) => elapsed_ms(active.playing_since),
            None => 0,
        };
        self.finalize_with(completed, elapsed)
    }

    /// Empties the archive, the queue of rows to write and the play in
    /// progress, and asks for the journal to be rewritten. A read-only store
    /// refuses; one that does not persist has nothing to clear.
    pub fn clear(&mut self) -> (result: Result<(), String>)
        requires
            old(self).core.inv(),
        ensures
            final(self).persistent == old(self).persistent,
            final(self).load_error == old(self).load_error,
            final(self).core.inv(),
            match result {
                Err(message) => old(self).load_error matches Some(error) && message@
                    == read_only_message(error@) && *final(self) == *old(self),
                Ok(()) => old(self).load_error is None && (!old(self).persistent ==> *final(self)
                    == *old(self)) && (old(self).persistent ==> {
                    &&& final(self).core.finalized@.len() == 0
                    &&& final(self).core.pending@.len() == 0
                    &&& final(self).core.active is None
                    &&& final(self).core.rewrite_requested != old(self).core.rewrite_requested
                    &&& final(self).core.mutation != old(self).core.mutation
                    &&& final(self).core.requested_generation == bumped(
                        old(self).core.requested_generation,
                    )
                    &&& final(self).core.worker_running
                }),
            },
    {
        match &self.load_error {
            Some(error) => {
                return Err(read_only(error));
            },
            None => {},
        }
        if !self.persistent {
            return Ok(());
        }
        self.core.finalized.clear();
        self.core.pending.clear();
        self.core.active = None;
        self.core.rewrite_requested = self.core.rewrite_requested.wrapping_add(1);
        self.core.invalidate();
        self.persist();
        Ok(())
    }

    /// The filtered archive in the requested order, given the in-progress
    /// row as it stands.
    fn ordering(
        &self,
        needle: &Vec<char>,
        sort: HistorySort,
        qualified: bool,
        live: &Option<HistoryItem>,
    ) -> (slots: Vec<Slot>)
        requires
            self.core.inv(),
            qualified ==> live is Some,
        ensures
            is_ordering(
                slots@,
                items_view(self.core.finalized@),
                optional_item(*live),
                qualified,
                needle@,
                sort,
            ),
            forall|k: int|
                0 <= k < slots@.len() ==> match #[trigger] slots@[k] {
                    Slot::Active => qualified,
                    Slot::Finalized(i) => (i as int) < self.core.finalized@.len(),
                },
    {
        let ghost rows = items_view(self.core.finalized@);
        let ghost live_view = optional_item(*live);
        let mut head: Vec<Slot> = Vec::new();
        match live {
            Some(item) => {
                if qualified && matches(item, needle) {
                    head.push(Slot::Active);
                }
            },
            None => {},
        }
        proof {
            assert(head@ =~= head_slot(live_view, qualified, needle@));
        }
        let length = self.core.finalized.len();
        let mut body: Vec<Slot> = Vec::new();
        let mut i: usize = 0;
        while i < length
            invariant
                length == self.core.finalized@.len(),
                length <= MAX_HISTORY_ITEMS + COMPACT_SLACK,
                rows == items_view(self.core.finalized@),
                i <= length,
                body@ == matching_rows(rows, needle@, i as int),
                forall|k: int|
                    0 <= k < body@.len() ==> ((#[trigger] body@[k]) matches Slot::Finalized(j)
                        && (j as int) < i),
            decreases length - i,
        {
            if matches(&self.core.finalized[i], needle) {
                body.push(Slot::Finalized(i as u32));
            }
            i = i + 1;
        }
        assert(rows.len() == length);
        let ghost scan = head@ + body@;
        assert forall|k: int| 0 <= k < scan.len() implies match #[trigger] scan[k] {
            Slot::Active => qualified,
            Slot::Finalized(j) => (j as int) < self.core.finalized@.len(),
        } by {
            if k < head@.len() {
                assert(scan[k] == head@[k]);
            } else {
                assert(scan[k] == body@[k - head@.len()]);
            }
        }
        match sort {
            HistorySort::Recent => {
                let mut out = head;
                let mut k = body.len();
                while k > 0
                    invariant
                        k <= body@.len(),
                        body@ == matching_rows(rows, needle@, rows.len() as int),
                        out@ == head_slot(live_view, qualified, needle@) + body@.subrange(
                            k as int,
                            body@.len() as int,
                        ).reverse(),
                    decreases k,
                {
                    k = k - 1;
                    out.push(body[k]);
                    proof {
                        let tail = body@.subrange(k as int, body@.len() as int);
                        let rest = body@.subrange(k + 1, body@.len() as int);
                        assert(tail =~= seq![body@[k as int]] + rest);
                        assert(tail.reverse() =~= rest.reverse().push(body@[k as int]));
                        assert(out@ =~= head_slot(live_view, qualified, needle@) + tail.reverse());
                    }
                }
                proof {
                    assert(body@.subrange(0, body@.len() as int) =~= body@);
                    assert forall|k: int| 0 <= k < out@.len() implies match #[trigger] out@[k] {
                        Slot::Active => qualified,
                        Slot::Finalized(j) => (j as int) < self.core.finalized@.len(),
                    } by {
                        if k < head@.len() {
                            assert(out@[k] == scan[k]);
                        } else {
                            let r = body@.len() - 1 - (k - head@.len());
                            assert(out@[k] == body@[r]);
                            assert(scan[head@.len() + r] == body@[r]);
                        }
                    }
                }
                out
            },
            HistorySort::Oldest => {
                let mut out = body;
                let mut tail = head;
                out.append(&mut tail);
                proof {
                    assert forall|k: int| 0 <= k < out@.len() implies match #[trigger] out@[k] {
                        Slot::Active => qualified,
                        Slot::Finalized(j) => (j as int) < self.core.finalized@.len(),
                    } by {
                        if k < body@.len() {
                            assert(out@[k] == scan[head@.len() + k]);
                        } else {
                            assert(out@[k] == scan[k - body@.len()]);
                        }
                    }
                }
                out
            },
            _ => {
                let mut all = head;
                let mut rest = body;
                all.append(&mut rest);
                assert(all@ == scan);
                let mut keys: Vec<SortKey> = Vec::new();
                let mut k: usize = 0;
                while k < all.len()
                    invariant
                        k <= all@.len(),
                        all@ == scan,
                        sort == HistorySort::Title || sort == HistorySort::Artist,
                        forall|m: int| 0 <= m < scan.len() ==> match #[trigger] scan[m] {
                            Slot::Active => qualified,
                            Slot::Finalized(j) => (j as int) < self.core.finalized@.len(),
                        },
                        qualified ==> live is Some,
                        rows == items_view(self.core.finalized@),
                        live_view == optional_item(*live),
                        keys_view(keys@) == scan.subrange(0, k as int).map_values(
                            |slot: Slot| sort_key_of(slot_item(rows, live_view, slot), sort),
                        ),
                    decreases all.len() - k,
                {
                    let slot = all[k];
                    let key = match slot {
                        Slot::Active => match live {
                            Some(item) => sort_key(item, sort),
                            None => {
                                proof {
                                    assert(scan[k as int] == slot);
                                }
                                SortKey { primary: Vec::new(), title: Vec::new(), started_at: 0 }
                            },
                        },
                        Slot::Finalized(j) => {
                            proof {
                                assert(scan[k as int] == slot);
                            }
                            sort_key(&self.core.finalized[j as usize], sort)
                        },
                    };
                    let ghost before = keys@;
                    keys.push(key);
                    proof {
                        assert(scan[k as int] == slot);
                        assert(keys_view(keys@) =~= keys_view(before).push(key@));
                        assert(scan.subrange(0, k + 1) =~= scan.subrange(0, k as int).push(slot));
                        if let Slot::Finalized(j) = slot {
                            assert(rows[j as int] == self.core.finalized@[j as int]@);
                        }
                        assert(scan.subrange(0, k + 1).map_values(
                            |slot: Slot| sort_key_of(slot_item(rows, live_view, slot), sort),
                        ) =~= scan.subrange(0, k as int).map_values(
                            |slot: Slot| sort_key_of(slot_item(rows, live_view, slot), sort),
                        ).push(sort_key_of(slot_item(rows, live_view, slot), sort)));
                    }
                    k = k + 1;
                }
                proof {
                    assert(scan.subrange(0, scan.len() as int) =~= scan);
                }
                let order = stable_sort_order(&keys);
                let mut out: Vec<Slot> = Vec::new();
                let mut m: usize = 0;
                while m < order.len()
                    invariant
                        m <= order@.len(),
                        is_permutation(order@, all@.len() as int),
                        all@ == scan,
                        out@ == order@.subrange(0, m as int).map_values(|p: usize| scan[p as int]),
                    decreases order.len() - m,
                {
                    out.push(all[order[m]]);
                    proof {
                        assert(order@.subrange(0, m + 1) =~= order@.subrange(0, m as int).push(
                            order@[m as int],
                        ));
                        assert(out@ =~= order@.subrange(0, m + 1).map_values(
                            |p: usize| scan[p as int],
                        ));
                    }
                    m = m + 1;
                }
                proof {
                    assert(order@.subrange(0, order@.len() as int) =~= order@);
                    let kv = scan.map_values(
                        |slot: Slot| sort_key_of(slot_item(rows, live_view, slot), sort),
                    );
                    assert(keys_view(keys@) == kv);
                    assert forall|k: int| 0 <= k < out@.len() implies match #[trigger] out@[k] {
                        Slot::Active => qualified,
                        Slot::Finalized(j) => (j as int) < self.core.finalized@.len(),
                    } by {
                        assert(out@[k] == scan[order@[k] as int]);
                    }
                }
                out
            },
        }
    }

    /// One filtered, ordered window of the archive, with `elapsed`
    /// milliseconds of the running play folded in. A read-only store
    /// answers with why it is read-only.
    pub fn page_with(&self, request: &HistoryQuery, elapsed: u64) -> (result: Result<HistoryPage, String>)
        requires
            self.core.inv(),
        ensures
            match result {
                Err(message) => self.load_error matches Some(error) && message@ == read_only_message(
                    error@,
                ),
                Ok(page) => self.load_error is None && page_answers(
                    page,
                    request,
                    items_view(self.core.finalized@),
                    self.core.live_view(elapsed),
                    self.core.active_qualifies(elapsed),
                ),
            },
    {
        match &self.load_error {
            Some(error) => {
                return Err(read_only(error));
            },
            None => {},
        }
        let ghost rows = items_view(self.core.finalized@);
        let qualified = self.core.active_qualified_with(elapsed);
        let live = self.core.live_active_with(elapsed);
        let ghost live_view = optional_item(live);
        let length = self.core.finalized.len();
        let recorded: usize = length + if qualified {
            1
        } else {
            0
        };
        let needle = chars_of(to_lowercase(trim(request.query.as_str())).as_str());
        let sort = request.sort;
        let chronological_order = needle.len() == 0 && (sort == HistorySort::Recent || sort
            == HistorySort::Oldest);
        let all: Vec<Slot> = if chronological_order {
            Vec::new()
        } else {
            self.ordering(&needle, sort, qualified, &live)
        };
        let total: usize = if chronological_order {
            recorded
        } else {
            all.len()
        };
        let ghost ordering: Seq<Slot> = if chronological_order {
            Seq::new(recorded as nat, |i: int| chronological(i, length as int, qualified, sort))
        } else {
            all@
        };
        proof {
            if chronological_order {
                assert(needle@ =~= Seq::<char>::empty());
                lemma_chronological_is_the_ordering(rows, live_view, qualified, sort);
            }
        }
        let wanted = request.offset.saturating_add(request.limit);
        let end = if wanted <= total {
            wanted
        } else {
            total
        };
        let start = if request.offset <= end {
            request.offset
        } else {
            end
        };
        let mut items: Vec<HistoryItem> = Vec::new();
        let mut index: usize = start;
        while index < end
            invariant
                start <= index <= end <= total,
                total == ordering.len(),
                length == self.core.finalized@.len(),
                length <= MAX_HISTORY_ITEMS + COMPACT_SLACK,
                rows == items_view(self.core.finalized@),
                live_view == optional_item(live),
                qualified ==> live is Some,
                chronological_order ==> total == recorded && recorded == length + (if qualified {
                    1int
                } else {
                    0
                }),
                chronological_order ==> ordering == Seq::new(
                    recorded as nat,
                    |i: int| chronological(i, length as int, qualified, sort),
                ),
                !chronological_order ==> ordering == all@,
                forall|k: int|
                    0 <= k < all@.len() ==> match #[trigger] all@[k] {
                        Slot::Active => qualified,
                        Slot::Finalized(j) => (j as int) < length,
                    },
                items_view(items@) == ordering.subrange(start as int, index as int).map_values(
                    |slot: Slot| slot_item(rows, live_view, slot),
                ),
            decreases end - index,
        {
            let slot = if chronological_order {
                chronological_slot(index, length, qualified, sort)
            } else {
                all[index]
            };
            assert(slot == ordering[index as int]);
            let ghost before = items@;
            match slot {
                Slot::Active => {
                    match &live {
                        Some(item) => items.push(item.clone()),
                        None => {},
                    }
                },
                Slot::Finalized(j) => {
                    items.push(self.core.finalized[j as usize].clone());
                },
            }
            proof {
                assert(ordering.subrange(start as int, index + 1) =~= ordering.subrange(
                    start as int,
                    index as int,
                ).push(slot));
                assert(items_view(items@) =~= items_view(before).push(
                    slot_item(rows, live_view, slot),
                ));
            }
            index = index + 1;
        }
        let next = request.offset.saturating_add(items.len());
        let next_offset = if next < total {
            Some(next)
        } else {
            None
        };
        Ok(HistoryPage { items, total, recorded, offset: request.offset, next_offset })
    }

    /// One filtered, ordered window of the archive as it stands now.
    pub fn page(&self, request: &HistoryQuery) -> (result: Result<HistoryPage, String>)
        requires
            self.core.inv(),
        ensures
            match result {
                Err(message) => self.load_error matches Some(error) && message@ == read_only_message(
                    error@,
                ),
                Ok(page) => self.load_error is None && exists|elapsed: u64|
                    page_answers(
                        page,
                        request,
                        items_view(self.core.finalized@),
                        #[trigger] self.core.live_view(elapsed),
                        self.core.active_qualifies(elapsed),
                    ),
            },
    {
        let elapsed = match &self.core.active {
            Some(active) => elapsed_ms(active.playing_since),
            None => 0,
        };
        self.page_with(request, elapsed)
    }
}

/// The message a refused read or clear carries.
fn read_only(error: &String) -> (message: String)
    ensures
        message@ == read_only_message(error@),
{
    let mut message = "listening history is read-only: ".to_owned();
    message.append(error.as_str());
    message
}

/// The items a request's window of an ordering reads.
pub open spec fn page_items(
    ordering: Seq<Slot>,
    rows: Seq<HistoryItemView>,
    live: Option<HistoryItemView>,
    offset: usize,
    limit: usize,
) -> Seq<HistoryItemView> {
    let (start, end) = window(offset, limit, ordering.len() as int);
    ordering.subrange(start, end).map_values(|slot: Slot| slot_item(rows, live, slot))
}

/// Where the next page starts, if anything is left past this one.
pub open spec fn following_offset(offset: usize, shown: int, total: int) -> Option<usize> {
    let next = if offset + shown > usize::MAX {
        usize::MAX as int
    } else {
        offset + shown
    };
    if next < total {
        Some(next as usize)
    } else {
        None
    }
}

/// Whether `page` answers `request` over the archive `rows` and the
/// in-progress row `live`: it is the requested window of the filtered
/// archive in the requested order, with the sizes the view pages against.
/// With a blank filter in time order, the window is taken from the whole
/// archive in time order (the qualifying in-progress row first when newest
/// first).
pub open spec fn page_answers(
    page: HistoryPage,
    request: &HistoryQuery,
    rows: Seq<HistoryItemView>,
    live: Option<HistoryItemView>,
    qualified: bool,
) -> bool {
    let needle = lowercase_chars(trimmed(request.query@));
    &&& page.recorded == rows.len() + (if qualified {
        1int
    } else {
        0
    })
    &&& page.offset == request.offset
    &&& exists|ordering: Seq<Slot>|
        {
            &&& is_ordering(ordering, rows, live, qualified, needle, request.sort)
            &&& page.total == ordering.len()
            &&& #[trigger] items_view(page.items@) == page_items(
                ordering,
                rows,
                live,
                request.offset,
                request.limit,
            )
        }
    &&& page.next_offset == following_offset(
        request.offset,
        page.items@.len() as int,
        page.total as int,
    )
    &&& trimmed(request.query@).len() == 0 && (request.sort == HistorySort::Recent || request.sort
        == HistorySort::Oldest) ==> {
        &&& page.total == page.recorded
        &&& items_view(page.items@) == page_items(
            Seq::new(
                page.recorded as nat,
                |i: int| chronological(i, rows.len() as int, qualified, request.sort),
            ),
            rows,
            live,
            request.offset,
            request.limit,
        )
    }
}


/// The name orders of the history. By artist, a row whose artists (joined
/// with ", " and lower-cased) sort before another's comes first whatever
/// the titles, and between rows by the same artists the lower-cased title
/// decides. By title, the lower-cased title decides, and between equal
/// titles the newer play comes first.
pub proof fn lemma_name_orders(a: HistoryItemView, b: HistoryItemView)
    ensures
        ({
            let artists_a = lowercase_chars(joined(a.track.artist_names, seq![',', ' ']));
            let artists_b = lowercase_chars(joined(b.track.artist_names, seq![',', ' ']));
            let title_a = lowercase_chars(a.track.name);
            let title_b = lowercase_chars(b.track.name);
            let by_artist_a = sort_key_of(a, HistorySort::Artist);
            let by_artist_b = sort_key_of(b, HistorySort::Artist);
            let by_title_a = sort_key_of(a, HistorySort::Title);
            let by_title_b = sort_key_of(b, HistorySort::Title);
            &&& chars_less(artists_a, artists_b) ==> key_less(by_artist_a, by_artist_b) && !key_less(
                by_artist_b,
                by_artist_a,
            )
            &&& artists_a == artists_b && chars_less(title_a, title_b) ==> key_less(
                by_artist_a,
                by_artist_b,
            ) && !key_less(by_artist_b, by_artist_a)
            &&& chars_less(title_a, title_b) ==> key_less(by_title_a, by_title_b) && !key_less(
                by_title_b,
                by_title_a,
            )
            &&& title_a == title_b && a.row.started_at > b.row.started_at ==> key_less(
                by_title_a,
                by_title_b,
            ) && !key_less(by_title_b, by_title_a)
        }),
{
    let artists_a = lowercase_chars(joined(a.track.artist_names, seq![',', ' ']));
    let artists_b = lowercase_chars(joined(b.track.artist_names, seq![',', ' ']));
    let title_a = lowercase_chars(a.track.name);
    let title_b = lowercase_chars(b.track.name);
    lemma_chars_less_irreflexive(artists_a);
    lemma_chars_less_irreflexive(title_a);
    lemma_chars_less_irreflexive(Seq::<char>::empty());
    if chars_less(artists_a, artists_b) && chars_less(artists_b, artists_a) {
        lemma_chars_less_transitive(artists_a, artists_b, artists_a);
    }
    if chars_less(title_a, title_b) && chars_less(title_b, title_a) {
        lemma_chars_less_transitive(title_a, title_b, title_a);
    }
}

} // verus!
