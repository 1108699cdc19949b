use renderer_engine::history::{
    ActivePlay, HistoryCore, HistoryItem, HistoryRow, InvalidItem, PersistedActive,
    MAX_HISTORY_ITEMS,
};
use renderer_engine::journal::{
    accept_snapshot, classify_journal, journal_lines, loaded_journal, merge_imported, sidecar_play,
    trim_loaded, Journal, JournalError, JournalPlan, LineReading, SnapshotError,
};
use renderer_engine::model::TrackRef;
use std::collections::VecDeque;

fn row(id: &str, started_at: i64) -> HistoryItem {
    HistoryItem {
        row: HistoryRow {
            track_id: id.to_owned(),
            started_at,
            ms_played: 6_000,
            completed: false,
            context: String::new(),
        },
        track: TrackRef { id: id.to_owned(), name: format!("Track {id}"), ..TrackRef::default() },
    }
}

fn ids(rows: &VecDeque<HistoryItem>) -> Vec<String> {
    rows.iter().map(|item| item.row.track_id.clone()).collect()
}

#[test]
fn journal_lines_split_on_newlines_and_skip_blank_ones() {
    let lines = journal_lines(b"one\n\n  \t\ntwo\r\nthree");
    assert_eq!(lines, vec![b"one".to_vec(), b"two\r".to_vec(), b"three".to_vec()]);
    assert!(journal_lines(b"").is_empty());
    assert!(journal_lines(b"\n \n").is_empty());
    assert_eq!(journal_lines(b"\xff\xfe\n"), vec![vec![0xff, 0xfe]], "bytes need not be text");
}

#[test]
fn an_empty_journal_is_ours_and_empty() {
    match classify_journal(Vec::new()) {
        Ok(Journal::Ours { finalized, torn_tail }) => {
            assert!(finalized.is_empty());
            assert!(!torn_tail);
        }
        _ => panic!("an empty journal is an empty archive"),
    }
}

#[test]
fn a_torn_final_line_is_dropped_and_earlier_damage_is_refused() {
    let readings = vec![
        LineReading::Tagged(row("kept", 1)),
        LineReading::Tagged(row("also-kept", 2)),
        LineReading::Unreadable,
    ];
    match classify_journal(readings) {
        Ok(Journal::Ours { finalized, torn_tail }) => {
            assert_eq!(ids(&finalized), vec!["kept", "also-kept"]);
            assert!(torn_tail);
        }
        _ => panic!("a torn tail is what a crash mid-append leaves"),
    }

    let damaged = vec![
        LineReading::Tagged(row("kept", 1)),
        LineReading::Unreadable,
        LineReading::Tagged(row("new", 3)),
    ];
    assert!(matches!(
        classify_journal(damaged),
        Err(JournalError::Unparsable { line: 2 })
    ));
}

#[test]
fn a_journal_that_was_never_ours_is_foreign() {
    let mut stranger = row("x", 1);
    stranger.track.id = String::new();
    let readings = vec![LineReading::Untagged(stranger), LineReading::Unreadable];
    assert!(matches!(classify_journal(readings), Ok(Journal::Foreign)));
}

#[test]
fn an_untagged_journal_from_an_earlier_build_is_ours() {
    let readings = vec![
        LineReading::Untagged(row("untagged-one", 1)),
        LineReading::Untagged(row("untagged-two", 2)),
    ];
    match classify_journal(readings) {
        Ok(Journal::Ours { finalized, torn_tail }) => {
            assert_eq!(ids(&finalized), vec!["untagged-one", "untagged-two"]);
            assert!(!torn_tail);
        }
        _ => panic!("rows written before the tag existed are still ours"),
    }
}

#[test]
fn an_invalid_row_in_our_journal_is_refused() {
    let mut volatile = row("bad", 2);
    volatile.track.cached = true;
    let readings = vec![LineReading::Tagged(row("good", 1)), LineReading::Tagged(volatile)];
    assert!(matches!(
        classify_journal(readings),
        Err(JournalError::Invalid(InvalidItem::VolatileData))
    ));
}

#[test]
fn where_loading_starts_from_the_journal() {
    let (rows, rewrite) = loaded_journal(None);
    assert!(rows.is_empty() && !rewrite);
    let (rows, rewrite) = loaded_journal(Some(Journal::Foreign));
    assert!(rows.is_empty() && rewrite, "a stranger's file is replaced whole");
    let mut kept = VecDeque::new();
    kept.push_back(row("a", 1));
    let (rows, rewrite) = loaded_journal(Some(Journal::Ours { finalized: kept, torn_tail: true }));
    assert_eq!(ids(&rows), vec!["a"]);
    assert!(rewrite);
}

#[test]
fn an_import_goes_in_front_and_never_doubles_a_play() {
    let mut archive = VecDeque::new();
    archive.push_back(row("new", 30));
    let imported = vec![row("old-1", 10), row("old-2", 20), row("new", 30)];
    merge_imported(&mut archive, imported.clone());
    assert_eq!(ids(&archive), vec!["old-1", "old-2", "new"]);

    merge_imported(&mut archive, imported);
    assert_eq!(ids(&archive), vec!["old-1", "old-2", "new"], "a retried import must not append rows twice");
}

#[test]
fn a_row_appended_before_the_crash_is_not_duplicated_by_its_sidecar() {
    let mut archive = VecDeque::new();
    archive.push_back(row("played", 5));
    let persisted = PersistedActive { item: row("played", 5), duration_ms: 180_000 };
    assert!(matches!(sidecar_play(persisted, &archive), Ok(None)));

    let fresh = PersistedActive { item: row("played", 6), duration_ms: 180_000 };
    match sidecar_play(fresh, &archive) {
        Ok(Some(ActivePlay { persisted, playing_since })) => {
            assert_eq!(persisted.item.row.started_at, 6);
            assert!(playing_since.is_none(), "a restored play starts paused");
        }
        _ => panic!("a different play is restored"),
    }

    let mut broken = row("broken", 7);
    broken.track.id = "other".to_owned();
    let invalid = PersistedActive { item: broken, duration_ms: 1 };
    assert!(matches!(sidecar_play(invalid, &archive), Err(InvalidItem::MismatchedIds)));
}

#[test]
fn a_loaded_archive_past_the_ceiling_is_cut_to_its_newest_rows() {
    let mut archive: VecDeque<HistoryItem> =
        (0..MAX_HISTORY_ITEMS + 3).map(|index| row(&format!("t{index}"), index as i64)).collect();
    assert!(trim_loaded(&mut archive, false));
    assert_eq!(archive.len(), MAX_HISTORY_ITEMS);
    assert_eq!(archive[0].row.track_id, "t3");

    let mut small: VecDeque<HistoryItem> = (0..3).map(|index| row("s", index)).collect();
    assert!(!trim_loaded(&mut small, false));
    assert_eq!(small.len(), 3);
}

#[test]
fn only_the_first_snapshot_format_is_read() {
    assert!(matches!(
        accept_snapshot(2, Vec::new(), None),
        Err(SnapshotError::UnsupportedVersion(2))
    ));
    let snapshot = accept_snapshot(1, vec![row("old-1", 1)], None).expect("a valid snapshot");
    assert_eq!(snapshot.finalized.len(), 1);
    let mut bad = row("bad", 2);
    bad.row.track_id = String::new();
    assert!(matches!(
        accept_snapshot(1, vec![row("old-1", 1)], Some(PersistedActive { item: bad, duration_ms: 5 })),
        Err(SnapshotError::Invalid(InvalidItem::EmptyTrackId))
    ));
}

fn core_with(finalized: Vec<HistoryItem>, pending: Vec<HistoryItem>) -> HistoryCore {
    let mut core = HistoryCore::new(finalized.into_iter().collect(), None, false);
    core.pending = pending.into_iter().collect();
    core
}

#[test]
fn the_writer_appends_queued_rows_and_keeps_later_ones() {
    let mut core = core_with(vec![row("one", 1), row("two", 2)], vec![row("two", 2)]);
    core.requested_generation = 1;
    let plan = core.begin_write().expect("a generation is waiting");
    assert_eq!(core.attempted_generation, 1);
    assert_eq!(plan.generation, 1);
    assert_eq!(plan.covered, 1);
    match &plan.journal {
        JournalPlan::Append(rows) => assert_eq!(rows.len(), 1),
        _ => panic!("queued rows are appended"),
    }

    // A play retired while the write is in flight.
    core.pending.push_back(row("three", 3));
    core.complete_write(&plan);
    assert_eq!(core.written_generation, 1);
    assert_eq!(ids(&core.pending), vec!["three"], "the later row stays queued");

    assert!(core.begin_write().is_none(), "a caught-up writer releases its slot");
    assert!(!core.worker_running);
}

#[test]
fn a_trim_reaches_disk_as_a_rewrite() {
    let mut core = core_with(vec![row("a", 1), row("b", 2)], vec![row("b", 2)]);
    core.rewrite_requested = 4;
    core.requested_generation = 3;
    let plan = core.begin_write().unwrap();
    assert!(matches!(&plan.journal, JournalPlan::Rewrite(rows) if rows.len() == 2));
    assert_eq!(plan.rewrite, Some(4));
    core.complete_write(&plan);
    assert_eq!(core.rewrite_written, 4);
    assert!(core.pending.is_empty());
}

#[test]
fn a_failed_write_waits_for_the_next_event() {
    let mut core = core_with(vec![row("a", 1)], vec![row("a", 1)]);
    core.requested_generation = 1;
    let _failed = core.begin_write().unwrap();
    assert!(core.begin_write().is_none(), "the attempt is parked, not retried in a loop");
    assert_eq!(core.pending.len(), 1, "the row stays queued for the retry");
    core.requested_generation = 2;
    assert!(core.begin_write().is_some(), "the next event retries it");
}
