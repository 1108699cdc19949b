use renderer_engine::history::{
    compact_context, play_qualifies, sanitize_track, validate_item, HistoryItem, HistoryQuery,
    HistoryRow, HistorySort, InvalidItem, ListeningHistory, COMPACT_SLACK, MAX_HISTORY_ITEMS,
    QUALIFYING_MS,
};
use renderer_engine::model::{TimeRange, TrackEdit, TrackRef};
use std::time::Instant;
use std::collections::VecDeque;

fn track(id: &str) -> TrackRef {
    TrackRef {
        id: id.to_owned(),
        uri: format!("spotify:track:{id}"),
        name: format!("Track {id}"),
        artist_names: vec!["Artist".to_owned()],
        duration_ms: 180_000,
        play_count: Some(42),
        added_at: Some(123),
        unavailable: true,
        unavailable_reason: Some("country".to_owned()),
        cached: true,
        context: " playlist:source ".to_owned(),
        effective_edit: Some(TrackEdit {
            cuts: vec![TimeRange { start_ms: 1, end_ms: 2 }],
            loop_range: None,
        }),
        ..TrackRef::default()
    }
}

fn store() -> ListeningHistory {
    ListeningHistory::from_parts(true, VecDeque::new(), None, false, None)
}

fn everything(history: &ListeningHistory) -> Vec<HistoryItem> {
    history
        .page_with(&HistoryQuery { limit: usize::MAX, ..HistoryQuery::default() }, 0)
        .unwrap()
        .items
}

fn credit(history: &mut ListeningHistory, ms_played: u64) {
    let active = history.core.active.as_mut().expect("start installs an active play");
    active.playing_since = None;
    active.persisted.item.row.ms_played = ms_played;
}

fn record_at(history: &mut ListeningHistory, id: &str, started_at: i64) {
    history.start_with(&track(id), 0, started_at, Instant::now());
    credit(history, QUALIFYING_MS);
    assert!(history.finalize_with(false, 0));
}

fn record(history: &mut ListeningHistory, id: &str, ordinal: i64) {
    record_at(history, id, 1_757_000_000_000 + ordinal);
}

#[test]
fn a_play_qualifies_at_five_seconds_or_half_of_a_very_short_track() {
    assert!(!play_qualifies(4_999, false, 180_000));
    assert!(play_qualifies(5_000, false, 180_000));
    assert!(play_qualifies(10_000, false, 180_000));
    assert!(!play_qualifies(4_999, false, 45_000));
    assert!(play_qualifies(5_000, false, 45_000));
    assert!(!play_qualifies(4_999, false, 20_000));
    assert!(!play_qualifies(4_499, false, 9_000));
    assert!(play_qualifies(4_500, false, 9_000));
    assert!(play_qualifies(1, true, 9_000));
    assert!(!play_qualifies(4_999, false, 0));
    assert!(play_qualifies(5_000, false, 0));
}

#[test]
fn skipping_away_before_the_threshold_writes_nothing() {
    let mut history = store();
    history.start_with(&track("spam-1"), 0, 1, Instant::now());
    history.start_with(&track("spam-2"), 0, 2, Instant::now());
    history.start_with(&track("spam-3"), 0, 3, Instant::now());
    assert!(history.finalize_with(false, 0));
    assert!(everything(&history).is_empty());

    history.start_with(&track("heard-briefly"), 0, 4, Instant::now());
    credit(&mut history, 10_000);
    assert!(history.finalize_with(false, 0));

    record(&mut history, "listened", 5);
    let items = everything(&history);
    assert_eq!(items.len(), 2);
    assert_eq!(items[0].row.track_id, "listened");
    assert_eq!(items[1].row.track_id, "heard-briefly");
    assert_eq!(history.core.pending.len(), 2, "only the kept plays are queued for the journal");
}

#[test]
fn the_in_progress_play_joins_the_archive_only_once_it_qualifies() {
    let mut history = store();
    history.start_with(&track("listening"), 0, 1, Instant::now());
    assert_eq!(history.page_with(&HistoryQuery::default(), 0).unwrap().recorded, 0);

    credit(&mut history, QUALIFYING_MS);
    let page = history.page_with(&HistoryQuery::default(), 0).unwrap();
    assert_eq!(page.recorded, 1);
    assert_eq!(page.items[0].row.track_id, "listening");

    assert!(history.finalize_with(false, 0));
    let page = history.page_with(&HistoryQuery::default(), 0).unwrap();
    assert_eq!(page.recorded, 1);
    assert_eq!(page.items[0].row.track_id, "listening");
}

#[test]
fn a_running_play_is_credited_with_its_elapsed_time() {
    let mut history = store();
    history.start_with(&track("running"), 0, 1, Instant::now());
    assert_eq!(history.page_with(&HistoryQuery::default(), 4_999).unwrap().recorded, 0);
    let page = history.page_with(&HistoryQuery::default(), 5_000).unwrap();
    assert_eq!(page.recorded, 1);
    assert_eq!(page.items[0].row.ms_played, 5_000);

    history.pause_with(7_000);
    let active = history.core.active.as_ref().unwrap();
    assert!(active.playing_since.is_none(), "a paused play has no running clock");
    assert_eq!(active.persisted.item.row.ms_played, 7_000);
}

#[test]
fn pages_walk_the_archive_newest_first_without_ever_returning_it_whole() {
    let mut history = store();
    for index in 0..250 {
        record(&mut history, &format!("track-{index:03}"), index);
    }

    let page = |offset: usize| {
        history
            .page_with(&HistoryQuery { offset, limit: 50, ..HistoryQuery::default() }, 0)
            .unwrap()
    };

    let first = page(0);
    assert_eq!(first.items.len(), 50);
    assert_eq!(first.total, 250);
    assert_eq!(first.recorded, 250);
    assert_eq!(first.items[0].row.track_id, "track-249");
    assert_eq!(first.next_offset, Some(50));

    let middle = page(100);
    assert_eq!(middle.items.len(), 50);
    assert_eq!(middle.items[0].row.track_id, "track-149");
    assert_eq!(middle.next_offset, Some(150));

    let last = page(200);
    assert_eq!(last.items.len(), 50);
    assert_eq!(last.items.last().unwrap().row.track_id, "track-000");
    assert_eq!(last.next_offset, None, "the last page ends the walk");

    let past_the_end = page(250);
    assert!(past_the_end.items.is_empty());
    assert_eq!(past_the_end.total, 250);
    assert_eq!(past_the_end.next_offset, None);
}

#[test]
fn oldest_first_pages_from_the_other_end() {
    let mut history = store();
    for index in 0..30 {
        record(&mut history, &format!("track-{index:02}"), index);
    }
    let page = history
        .page_with(
            &HistoryQuery { offset: 0, limit: 3, sort: HistorySort::Oldest, ..HistoryQuery::default() },
            0,
        )
        .unwrap();
    assert_eq!(page.items[0].row.track_id, "track-00");
    assert_eq!(page.items[2].row.track_id, "track-02");
    assert_eq!(page.next_offset, Some(3));
}

#[test]
fn the_filter_and_the_name_orders_are_answered_by_the_engine() {
    let mut history = store();
    for (ordinal, id) in ["beta", "alpha", "gamma", "alpaca"].iter().enumerate() {
        record(&mut history, id, ordinal as i64);
    }

    let filtered = history
        .page_with(&HistoryQuery { query: "  ALP  ".trim().to_owned(), ..HistoryQuery::default() }, 0)
        .unwrap();
    assert_eq!(filtered.total, 2, "the filter narrows the paged list");
    assert_eq!(filtered.recorded, 4, "the archive size is reported whole");

    let untrimmed = history
        .page_with(&HistoryQuery { query: "  ALP  ".to_owned(), ..HistoryQuery::default() }, 0)
        .unwrap();
    assert_eq!(untrimmed.total, 2, "the engine trims the filter itself");

    let by_title = history
        .page_with(&HistoryQuery { sort: HistorySort::Title, ..HistoryQuery::default() }, 0)
        .unwrap();
    let names: Vec<&str> = by_title.items.iter().map(|item| item.row.track_id.as_str()).collect();
    assert_eq!(names, ["alpaca", "alpha", "beta", "gamma"]);
}

#[test]
fn equal_titles_order_newest_first() {
    let mut history = store();
    record_at(&mut history, "same", 10);
    record_at(&mut history, "same", 20);
    let by_title = history
        .page_with(&HistoryQuery { sort: HistorySort::Title, ..HistoryQuery::default() }, 0)
        .unwrap();
    assert_eq!(by_title.items[0].row.started_at, 20);
    assert_eq!(by_title.items[1].row.started_at, 10);
}

#[test]
fn the_archive_is_trimmed_in_batches_once_it_runs_past_the_ceiling() {
    let mut rows = VecDeque::new();
    for index in 0..MAX_HISTORY_ITEMS + COMPACT_SLACK {
        let id = format!("track-{index}");
        rows.push_back(HistoryItem {
            row: HistoryRow {
                track_id: id.clone(),
                started_at: index as i64,
                ms_played: QUALIFYING_MS,
                completed: false,
                context: String::new(),
            },
            track: sanitize_track(&track(&id)),
        });
    }
    let mut history = ListeningHistory::from_parts(true, rows, None, false, None);
    let rewrites = history.core.rewrite_requested;
    record(&mut history, "overflow", 1_000_000);
    assert_eq!(history.core.finalized.len(), MAX_HISTORY_ITEMS);
    assert_eq!(history.core.finalized[0].row.track_id, "track-1001");
    assert_eq!(history.core.finalized.back().unwrap().row.track_id, "overflow");
    assert_ne!(history.core.rewrite_requested, rewrites, "a trim can only reach disk as a rewrite");
}

#[test]
fn persisted_track_metadata_is_safe_to_replay() {
    let mut history = store();
    record(&mut history, "sanitized", 1);
    let items = everything(&history);
    let item = &items[0];
    assert_eq!(item.track.name, "Track sanitized");
    assert!(item.track.play_count.is_none());
    assert!(item.track.added_at.is_none());
    assert!(!item.track.unavailable);
    assert!(item.track.unavailable_reason.is_none());
    assert!(!item.track.cached);
    assert!(item.track.context.is_empty());
    assert!(item.track.effective_edit.is_none());
    assert_eq!(item.row.context, "playlist:source");
    assert_eq!(validate_item(item), Ok(()));
}

#[test]
fn clearing_empties_the_archive_and_asks_for_a_rewrite() {
    let mut history = store();
    record(&mut history, "one", 1);
    record(&mut history, "two", 2);
    let rewrites = history.core.rewrite_requested;
    assert_eq!(history.clear(), Ok(()));
    assert!(everything(&history).is_empty());
    assert!(history.core.pending.is_empty());
    assert!(history.core.active.is_none());
    assert_ne!(history.core.rewrite_requested, rewrites);
}

#[test]
fn a_read_only_archive_refuses_reads_and_changes() {
    let mut history =
        ListeningHistory::from_parts(true, VecDeque::new(), None, false, Some("broken journal".to_owned()));
    assert_eq!(
        history.page_with(&HistoryQuery::default(), 0).unwrap_err(),
        "listening history is read-only: broken journal"
    );
    assert_eq!(history.clear().unwrap_err(), "listening history is read-only: broken journal");
    assert!(!history.finalize_with(true, 0));
    history.start_with(&track("ignored"), 0, 1, Instant::now());
    assert!(history.core.active.is_none(), "a read-only store records nothing");
}

#[test]
fn a_store_without_a_home_records_nothing() {
    let mut history = ListeningHistory::from_parts(false, VecDeque::new(), None, false, None);
    history.start_with(&track("nowhere"), 0, 1, Instant::now());
    assert!(history.core.active.is_none());
    assert_eq!(history.clear(), Ok(()));
}

#[test]
fn a_completed_play_is_credited_with_the_whole_track() {
    let mut history = store();
    history.start_with(&track("whole"), 0, 1, Instant::now());
    assert!(history.finalize_with(true, 0));
    let items = everything(&history);
    assert_eq!(items.len(), 1);
    assert!(items[0].row.completed);
    assert_eq!(items[0].row.ms_played, 180_000);
}

#[test]
fn resuming_the_same_track_keeps_its_row() {
    let mut history = store();
    history.start_with(&track("same"), 0, 7, Instant::now());
    history.pause_with(1_000);
    history.start_or_resume(&track("same"));
    let active = history.core.active.as_ref().unwrap();
    assert_eq!(active.persisted.item.row.started_at, 7);
    assert_eq!(active.persisted.item.row.ms_played, 1_000);
    assert!(active.playing_since.is_some());
}

#[test]
fn stored_rows_are_validated() {
    let good = HistoryItem {
        row: HistoryRow {
            track_id: "a".to_owned(),
            started_at: 1,
            ms_played: 1,
            completed: false,
            context: String::new(),
        },
        track: TrackRef { id: "a".to_owned(), ..TrackRef::default() },
    };
    assert_eq!(validate_item(&good), Ok(()));
    let mut empty = good.clone();
    empty.row.track_id = String::new();
    assert_eq!(validate_item(&empty), Err(InvalidItem::EmptyTrackId));
    let mut mismatched = good.clone();
    mismatched.track.id = "b".to_owned();
    assert_eq!(validate_item(&mismatched), Err(InvalidItem::MismatchedIds));
    let mut volatile = good.clone();
    volatile.track.cached = true;
    assert_eq!(validate_item(&volatile), Err(InvalidItem::VolatileData));
}

#[test]
fn a_context_is_trimmed_and_cut_to_its_budget() {
    assert_eq!(compact_context("  playlist:x  "), "playlist:x");
    let long = "y".repeat(300);
    assert_eq!(compact_context(&long).chars().count(), 128);
}
