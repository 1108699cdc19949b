use renderer_engine::commands::{command_step, log_out, CommandKind, CommandStep};
use renderer_engine::eligibility::ExclusionStore;
use renderer_engine::model::{LoopRange, RepeatMode, TrackRef};
use renderer_engine::planner::{playable_track, QueuePlan};
use renderer_engine::track_uri::{check_track_uris, parse_track_uri, track_uri_fault};
use renderer_engine::recovery::{preload_target, LoadRecovery};
use renderer_engine::session::{AudioUnavailable, AuthState, NormalisationStep, Session};
use renderer_engine::timing::{
    volume_persist_due, LoadBursts, AUDIO_PROBE_BACKOFF_MIN_MS, RECONNECT_BACKOFF_MIN_MS,
};
use renderer_engine::transport::{SeekStep, Transport};

fn row(name: &str) -> TrackRef {
    let id = format!("{name}abcdefghijklmnopqrst");
    TrackRef {
        id: name.to_owned(),
        uri: format!("spotify:track:{id}"),
        duration_ms: 180_000,
        context: "playlist:mix".to_owned(),
        ..TrackRef::default()
    }
}

fn plan(ids: &[&str], current: Option<usize>) -> QueuePlan {
    let mut plan = QueuePlan::new(ExclusionStore::new(), 0x9e37_79b9_7f4a_7c15, 7);
    plan.queue = ids.iter().map(|id| row(id)).collect();
    plan.current_index = current;
    plan
}

fn armed() -> LoadRecovery {
    LoadRecovery { retry_current_at: None, current_load_is_retry: false, preload_armed: true }
}

#[test]
fn a_new_plan_is_empty_and_keeps_its_seed_and_revision() {
    let plan = QueuePlan::new(ExclusionStore::new(), 99, 12);
    assert!(plan.queue.is_empty());
    assert_eq!(plan.current_index, None);
    assert!(!plan.shuffle);
    assert_eq!(plan.repeat, RepeatMode::Off);
    assert!(plan.shuffle_pool.is_empty());
    assert!(plan.history.is_empty());
    assert_eq!(plan.random_state, 99);
    assert_eq!(plan.queue_revision, 12);
}

#[test]
fn only_the_current_row_and_the_next_are_checked_for_cache_marks() {
    let mut plan = plan(&["01", "02", "03", "04"], Some(1));
    assert_eq!(plan.cached_mark_candidates(), vec!["02".to_owned(), "03".to_owned()]);
    plan.queue[2].cached = true;
    assert_eq!(plan.cached_mark_candidates(), vec!["02".to_owned()]);
    plan.current_index = Some(3);
    assert_eq!(plan.cached_mark_candidates(), vec!["04".to_owned()]);
    plan.current_index = None;
    assert!(plan.cached_mark_candidates().is_empty());
}

#[test]
fn cached_marks_change_the_revision_only_when_a_row_changes() {
    let mut plan = plan(&["01", "02", "01"], Some(0));
    assert!(!plan.refresh_cached_marks(&Vec::new()));
    assert_eq!(plan.queue_revision, 7);
    assert!(!plan.refresh_cached_marks(&vec!["09".to_owned()]));
    assert_eq!(plan.queue_revision, 7);

    assert!(plan.refresh_cached_marks(&vec!["01".to_owned()]));
    assert!(plan.queue[0].cached);
    assert!(!plan.queue[1].cached);
    assert!(plan.queue[2].cached, "every row with a cached id is marked");
    assert_eq!(plan.queue_revision, 8);

    assert!(!plan.refresh_cached_marks(&vec!["01".to_owned()]), "marking twice changes nothing");
    assert_eq!(plan.queue_revision, 8);
}

#[test]
fn excluding_a_track_repairs_the_shuffle_bag_at_once() {
    let mut plan = plan(&["01", "02", "03", "04"], Some(0));
    plan.shuffle = true;
    plan.shuffle_pool = vec![3, 1, 2];
    plan.set_playlist_track_excluded("mix", "02", true);
    assert!(plan.exclusions.is_excluded("mix", "02"));
    assert_eq!(plan.shuffle_pool, vec![3, 2]);
    assert_eq!(plan.current_index, Some(0));
    assert_eq!(plan.queue_revision, 8);

    plan.set_playlist_track_excluded("mix", "02", false);
    assert!(!plan.exclusions.is_excluded("mix", "02"));
    let mut pool = plan.shuffle_pool.clone();
    pool.sort();
    assert_eq!(pool, vec![1, 2, 3]);
}

#[test]
fn adding_one_track_appends_it_and_clears_history() {
    let mut plan = plan(&["01", "02"], Some(0));
    plan.history = vec![1];
    let mut added = row("03");
    added.context = " ".to_owned();
    assert_eq!(plan.add_queue(added, " playlist:other "), Ok(()));
    assert_eq!(plan.queue.len(), 3);
    assert_eq!(plan.queue[2].id, "03");
    assert_eq!(plan.queue[2].context, "playlist:other");
    assert!(plan.history.is_empty());
    assert_eq!(plan.current_index, Some(0));
    assert_ne!(plan.queue_revision, 7);
}

#[test]
fn an_unavailable_row_is_refused_with_its_reason() {
    let mut track = row("01");
    assert_eq!(playable_track(&track), Ok(()));
    track.unavailable = true;
    assert_eq!(
        playable_track(&track),
        Err("this track is permanently unavailable".to_owned())
    );
    track.unavailable_reason = Some("not available in your country".to_owned());
    assert_eq!(
        playable_track(&track),
        Err("not available in your country".to_owned())
    );
}

#[test]
fn a_load_needs_a_current_row_that_can_play() {
    let mut plan = plan(&["01", "02"], None);
    let index = |plan: &QueuePlan| plan.current_for_load().map(|(index, _)| index);
    assert_eq!(index(&plan), Err("the queue has no current track".to_owned()));
    plan.current_index = Some(5);
    assert_eq!(
        index(&plan),
        Err("the queue has no current track (index out of range)".to_owned())
    );
    plan.current_index = Some(1);
    assert_eq!(index(&plan), Ok(1));
    let (_, uri) = plan.current_for_load().unwrap();
    assert_eq!(uri.to_uri().unwrap(), "spotify:track:02abcdefghijklmnopqrst");
    plan.queue[1].uri = "spotify:album:02abcdefghijklmnopqrst".to_owned();
    assert_eq!(
        index(&plan),
        Err("queue item is not a Spotify track URI: spotify:album:02abcdefghijklmnopqrst".to_owned())
    );
    plan.queue[1].unavailable = true;
    assert_eq!(
        index(&plan),
        Err("this track is permanently unavailable".to_owned())
    );
}

#[test]
fn a_preload_waits_for_the_watermark_and_a_quiet_key_service() {
    let plan = plan(&["01", "02", "03"], Some(0));
    let quiet = LoadBursts::new();
    assert!(preload_target(&plan, &LoadRecovery::new(), &quiet).is_none());
    let target = preload_target(&plan, &armed(), &quiet).expect("the next row is preloaded");
    assert_eq!(target.to_uri().unwrap(), "spotify:track:02abcdefghijklmnopqrst");
    let mut failing = LoadBursts::new();
    failing.recent_unavailable.push_back(10);
    assert!(preload_target(&plan, &armed(), &failing).is_none());
}

#[test]
fn no_preload_is_asked_for_an_unavailable_next_row_or_past_the_end() {
    let mut plan = plan(&["01", "02"], Some(0));
    let quiet = LoadBursts::new();
    plan.queue[1].unavailable = true;
    assert!(preload_target(&plan, &armed(), &quiet).is_none());
    plan.queue[1].unavailable = false;
    plan.queue[1].uri = "spotify:track:not-an-id".to_owned();
    assert!(preload_target(&plan, &armed(), &quiet).is_none());
    plan.current_index = Some(1);
    assert!(preload_target(&plan, &armed(), &quiet).is_none());
    plan.repeat = RepeatMode::Context;
    let target = preload_target(&plan, &armed(), &quiet).expect("repeat wraps to the first row");
    assert_eq!(target.to_uri().unwrap(), "spotify:track:01abcdefghijklmnopqrst");
}

#[test]
fn a_new_session_is_authenticating_with_minimal_backoffs() {
    let session = Session::new(40, true);
    assert_eq!(session.auth_state, AuthState::Authenticating);
    assert!(!session.ready);
    assert_eq!(session.volume, 40);
    assert!(session.normalisation);
    assert_eq!(session.generation, 0);
    assert_eq!(session.reconnect_backoff_ms, RECONNECT_BACKOFF_MIN_MS);
    assert_eq!(session.audio_probe_backoff_ms, AUDIO_PROBE_BACKOFF_MIN_MS);
    assert!(session.error.is_none());
}

#[test]
fn readiness_explains_each_authentication_stage() {
    let mut session = Session::new(40, false);
    assert_eq!(
        session.ensure_ready(false),
        Err("Spotify authentication is still in progress".to_owned())
    );
    session.auth_state = AuthState::NeedsLogin;
    assert_eq!(
        session.ensure_ready(true),
        Err("Spotify login is required; use the Log in button in Settings".to_owned())
    );
    session.auth_state = AuthState::Error;
    assert_eq!(session.ensure_ready(true), Err("Spotify authentication failed".to_owned()));
    session.error = Some("bad token".to_owned());
    assert_eq!(session.ensure_ready(true), Err("bad token".to_owned()));
    session.auth_state = AuthState::Ready;
    assert_eq!(
        session.ensure_ready(true),
        Err("the local audio player is unavailable".to_owned())
    );
}

#[test]
fn a_ready_session_needs_a_player_or_says_why_there_is_none() {
    let mut session = Session::new(40, false);
    session.ready = true;
    session.auth_state = AuthState::Ready;
    assert_eq!(session.ensure_ready(true), Ok(()));
    assert_eq!(
        session.ensure_ready(false),
        Err("the local audio player is unavailable".to_owned())
    );
    session.audio_unavailable =
        Some(AudioUnavailable { message: "no output device".to_owned(), retry_at: 0 });
    assert_eq!(session.ensure_ready(false), Err("no output device".to_owned()));
}

#[test]
fn normalisation_rebuilds_only_a_live_player() {
    let mut session = Session::new(40, false);
    assert_eq!(session.set_normalisation(false, true), NormalisationStep::Unchanged);
    assert_eq!(session.set_normalisation(true, true), NormalisationStep::Recorded);
    assert!(session.normalisation);
    session.ready = true;
    session.generation = 9;
    assert_eq!(session.set_normalisation(true, true), NormalisationStep::Unchanged);
    assert_eq!(session.set_normalisation(false, false), NormalisationStep::Recorded);
    assert_eq!(
        session.set_normalisation(true, true),
        NormalisationStep::Rebuild { generation: 9 }
    );
}

#[test]
fn volume_is_checked_and_clears_the_error_unless_the_device_is_missing() {
    let mut session = Session::new(40, false);
    assert_eq!(
        session.set_volume(101),
        Err("volume percent must be between 0 and 100".to_owned())
    );
    assert_eq!(session.volume, 40);
    assert_eq!(session.set_volume(40), Ok(false));
    session.error = Some("old".to_owned());
    assert_eq!(session.set_volume(30), Ok(false));
    assert_eq!(session.volume, 30);
    assert!(session.error.is_none());

    session.error = Some("no output device".to_owned());
    session.audio_unavailable =
        Some(AudioUnavailable { message: "no output device".to_owned(), retry_at: 0 });
    assert_eq!(session.set_volume(0), Ok(false));
    assert_eq!(session.volume, 0);
    assert_eq!(session.error.as_deref(), Some("no output device"));
}

#[test]
fn shutdown_disowns_attempts_and_stops() {
    let mut session = Session::new(40, false);
    session.auth_running = true;
    session.ready = true;
    session.playing = true;
    session.generation = u64::MAX;
    session.shutdown();
    assert!(!session.auth_running);
    assert!(!session.ready);
    assert!(!session.playing);
    assert_eq!(session.generation, 0);
}

#[test]
fn a_new_transport_is_idle_on_the_first_pass() {
    let transport = Transport::new(5);
    assert_eq!(transport.audio_revision, 5);
    assert_eq!(transport.loop_pass, 1);
    assert!(!transport.playing);
    assert_eq!(transport.position_ms, 0);
    assert!(transport.current_uri.is_none());
}

#[test]
fn a_rebuild_keeps_the_loop_pass_before_the_loop_end() {
    let range = LoopRange { start_ms: 10_000, end_ms: 20_000, play_count: 3 };
    let mut transport = Transport::new(0);
    transport.loop_pass = 2;
    transport.preserve_loop_pass_for_position(Some(range), 15_000);
    assert_eq!(transport.loop_pass, 2);
    transport.preserve_loop_pass_for_position(Some(range), 20_000);
    assert_eq!(transport.loop_pass, 3);
    transport.loop_pass = 0;
    transport.preserve_loop_pass_for_position(None, 20_000);
    assert_eq!(transport.loop_pass, 1);
}

#[test]
fn a_volume_is_written_after_a_second_of_quiet() {
    assert!(!volume_persist_due(None, 5_000));
    assert!(!volume_persist_due(Some(4_500), 5_000));
    assert!(volume_persist_due(Some(4_000), 5_000));
    assert!(!volume_persist_due(Some(6_000), 5_000));
}

#[test]
fn only_track_uris_are_queued() {
    let good = row("05");
    assert!(parse_track_uri(&good).is_ok());
    let mut album = row("05");
    album.uri = "spotify:album:05abcdefghijklmnopqrst".to_owned();
    assert_eq!(
        parse_track_uri(&album).err(),
        Some("queue item is not a Spotify track URI: spotify:album:05abcdefghijklmnopqrst".to_owned())
    );
    let mut web = row("05");
    web.uri = "https://open.spotify.com/track/x".to_owned();
    let refused = parse_track_uri(&web).err().expect("a web link is no Spotify URI");
    assert!(refused.starts_with("invalid Spotify track URI 'https://open.spotify.com/track/x': "));
    assert!(refused.len() > "invalid Spotify track URI 'https://open.spotify.com/track/x': ".len());
}

#[test]
fn a_parse_outcome_becomes_the_refusal_message() {
    assert_eq!(track_uri_fault("spotify:track:x", &Ok(true)), None);
    assert_eq!(
        track_uri_fault("spotify:show:x", &Ok(false)),
        Some("queue item is not a Spotify track URI: spotify:show:x".to_owned())
    );
    assert_eq!(
        track_uri_fault("nope", &Err("bad root".to_owned())),
        Some("invalid Spotify track URI 'nope': bad root".to_owned())
    );
}

#[test]
fn a_batch_with_one_bad_row_adds_nothing() {
    let mut plan = plan(&["01"], Some(0));
    let mut bad = row("03");
    bad.uri = "spotify:artist:03abcdefghijklmnopqrst".to_owned();
    assert_eq!(check_track_uris(&vec![row("02"), bad.clone()]), plan_refusal(&bad));
    assert_eq!(plan.add_queue_batch(vec![row("02"), bad], "playlist:mix"), Err(
        "queue item is not a Spotify track URI: spotify:artist:03abcdefghijklmnopqrst".to_owned()
    ));
    assert_eq!(plan.queue.len(), 1);
    assert_eq!(plan.queue_revision, 7);
    assert_eq!(plan.add_queue_batch(Vec::new(), "playlist:mix"), Ok(()));
    assert_eq!(plan.queue_revision, 7);
    assert_eq!(plan.add_queue_batch(vec![row("02"), row("03")], "playlist:mix"), Ok(()));
    assert_eq!(plan.queue.len(), 3);
    assert_eq!(plan.queue[2].id, "03");
}

fn plan_refusal(track: &TrackRef) -> Result<(), String> {
    Err(format!("queue item is not a Spotify track URI: {}", track.uri))
}

#[test]
fn browsing_needs_a_session_and_says_which_stage_is_missing() {
    let mut session = Session::new(40, false);
    assert_eq!(session.browse_session_clone(&Some(17u32)), Ok(17));
    assert_eq!(
        session.browse_session_clone::<u32>(&None),
        Err("Spotify authentication is still in progress".to_owned())
    );
    session.auth_state = AuthState::Ready;
    assert_eq!(
        session.browse_session_clone::<u32>(&None),
        Err("the Spotify session is unavailable".to_owned())
    );
    session.auth_state = AuthState::Error;
    session.error = Some("refused".to_owned());
    assert_eq!(session.browse_session_clone::<u32>(&None), Err("refused".to_owned()));
}

fn gate(session: &Session, plan: &QueuePlan, lease: u64, command: CommandKind, has_player: bool) -> CommandStep {
    command_step(session, plan, lease, &command, has_player)
}

#[test]
fn status_reauthenticates_only_a_failed_session() {
    let mut session = Session::new(40, false);
    let plan = plan(&[], None);
    assert_eq!(gate(&session, &plan, 0, CommandKind::Status, false), CommandStep::Status { reauthenticate: false });
    session.auth_state = AuthState::Error;
    assert_eq!(gate(&session, &plan, 0, CommandKind::Status, false), CommandStep::Status { reauthenticate: true });
    assert_eq!(gate(&session, &plan, 0, CommandKind::Logout, false), CommandStep::Handle);
}

#[test]
fn a_stale_restore_is_a_noop_even_without_a_player() {
    let session = Session::new(40, false);
    let mut plan = plan(&["01"], Some(0));
    let restore = |lease| CommandKind::RestoreQueue { only_if_preview: true, preview_lease_id: lease };
    assert_eq!(gate(&session, &plan, 3, restore(3), false), CommandStep::Stale);
    plan.preview_mode = true;
    assert_eq!(gate(&session, &plan, 3, restore(4), false), CommandStep::Stale);
    assert_eq!(gate(&session, &plan, 3, restore(0), false), CommandStep::Stale);
    assert_eq!(
        gate(&session, &plan, 3, restore(3), false),
        CommandStep::Refuse("Spotify authentication is still in progress".to_owned())
    );
}

#[test]
fn without_an_output_device_only_settings_and_transport_intent_run() {
    let mut session = Session::new(40, false);
    session.ready = true;
    session.auth_state = AuthState::Ready;
    session.audio_unavailable =
        Some(AudioUnavailable { message: "no output device".to_owned(), retry_at: 0 });
    let plan = plan(&["01", "02"], Some(0));
    for command in [CommandKind::Play, CommandKind::Pause, CommandKind::SetVolume, CommandKind::SetShuffle, CommandKind::SetRepeat] {
        assert_eq!(gate(&session, &plan, 0, command, false), CommandStep::Dispatch { paced: false });
    }
    assert_eq!(
        gate(&session, &plan, 0, CommandKind::RestoreQueue { only_if_preview: false, preview_lease_id: 0 }, false),
        CommandStep::Dispatch { paced: false }
    );
    for command in [CommandKind::Next, CommandKind::Seek, CommandKind::AddQueue] {
        assert_eq!(
            gate(&session, &plan, 0, command, false),
            CommandStep::Refuse("no output device".to_owned())
        );
    }
}

#[test]
fn track_changes_are_paced_and_others_are_not() {
    let mut session = Session::new(40, false);
    session.ready = true;
    session.auth_state = AuthState::Ready;
    let plan = plan(&["01", "02"], Some(0));
    for command in [CommandKind::PlayQueue, CommandKind::PreviewTrackEdit, CommandKind::PlayQueueIndex, CommandKind::Next, CommandKind::Previous] {
        assert_eq!(gate(&session, &plan, 0, command, true), CommandStep::Dispatch { paced: true });
    }
    for command in [CommandKind::Play, CommandKind::Seek, CommandKind::MoveQueue, CommandKind::SetPlaybackSpeed] {
        assert_eq!(gate(&session, &plan, 0, command, true), CommandStep::Dispatch { paced: false });
    }
}

#[test]
fn logging_out_empties_the_queue_and_stops() {
    let mut session = Session::new(40, false);
    session.ready = true;
    session.auth_state = AuthState::Ready;
    session.playing = true;
    session.has_queue = true;
    let mut plan = plan(&["01", "02"], Some(1));
    plan.preview_mode = true;
    plan.history = vec![0];
    let mut transport = Transport::new(0);
    transport.playing = true;
    transport.duration_ms = 180_000;
    transport.position_ms = 12_000;
    log_out(&mut session, &mut plan, &mut transport);
    assert_eq!(session.auth_state, AuthState::NeedsLogin);
    assert!(!session.ready && !session.playing && !session.has_queue);
    assert!(plan.queue.is_empty());
    assert_eq!(plan.current_index, None);
    assert!(!plan.preview_mode);
    assert!(plan.history.is_empty());
    assert_eq!(plan.queue_revision, 8);
    assert!(!transport.playing);
    assert_eq!(transport.position_ms, 0);
    assert_eq!(transport.duration_ms, 0);

    log_out(&mut session, &mut plan, &mut transport);
    assert_eq!(session.auth_state, AuthState::NeedsLogin, "a second logout is a no-op");
    assert!(plan.queue.is_empty());
}

#[test]
fn a_seek_starts_the_loop_pass_over_and_moves_the_start_of_an_unloaded_row() {
    let range = LoopRange { start_ms: 10_000, end_ms: 20_000, play_count: 3 };
    let mut transport = Transport::new(0);
    transport.current_uri = Some("spotify:track:01abcdefghijklmnopqrst".to_owned());
    transport.duration_ms = 60_000;
    transport.loop_pass = 2;
    transport.loop_jump_pending = true;
    transport.error = Some("old".to_owned());
    let plan = transport.seek_source(90_000, Some(range), true, 5);
    assert_eq!(plan, Ok(SeekStep::Installed));
    assert_eq!(transport.position_ms, 60_000, "the seek is clamped to the row");
    assert_eq!(transport.position_anchor, Some((60_000, 5)));
    assert_eq!(transport.loop_pass, 3, "past the loop end the pass is the completed one");
    assert!(!transport.loop_jump_pending);
    assert!(transport.error.is_none());

    let mut idle = Transport::new(0);
    assert!(idle.seek_source(1_000, None, false, 5).is_err());
}
