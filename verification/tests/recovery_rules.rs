use renderer_engine::follow::{artists_from_profiles, FollowedProfile};
use renderer_engine::eligibility::ExclusionStore;
use renderer_engine::model::TrackRef;
use renderer_engine::planner::QueuePlan;
use renderer_engine::recovery::{
    decimal_text, fail_current_load_in_queue, on_player_event_in_queue, playback_health,
    FailedLoad, LoadFailureVerdict, LoadRecovery,
};
use renderer_engine::session::{AuthState, HealthVerdict, Session, AUDIO_START_TIMEOUT_MS};
use renderer_engine::timing::{LoadBursts, LOAD_RETRY_BACKOFF_MS, RECONNECT_BACKOFF_MIN_MS};
use renderer_engine::transport::{EndContext, Transport, TransportAction, TransportEvent};

const URI: &str = "spotify:track:0123456789ABCDEFGHIJKL";

fn transport(playing: bool) -> Transport {
    Transport {
        play_request_id: Some(7),
        current_uri: Some(URI.to_owned()),
        playing,
        position_ms: 42_000,
        duration_ms: 240_000,
        position_anchor: None,
        error: None,
        loading_failed: false,
        loop_jump_pending: false,
        seek_in_flight: true,
        loop_decoder_eof: false,
        loop_pass: 1,
        audio_revision: 3,
        current_load_produced_audio: false,
        audio_unavailable: false,
    }
}

fn recovery() -> LoadRecovery {
    LoadRecovery { retry_current_at: None, current_load_is_retry: false, preload_armed: false }
}

#[test]
fn a_failed_row_is_retried_once_and_only_then_skipped() {
    let mut t = transport(true);
    let mut bursts = LoadBursts::new();
    let mut r = recovery();
    let first = t.fail_current_load(URI, &mut bursts, &mut r, 1_000);
    assert_eq!(
        first,
        FailedLoad {
            verdict: LoadFailureVerdict::RetryAt { at_ms: 1_000 + LOAD_RETRY_BACKOFF_MS },
            evict_cache: true
        }
    );
    assert_eq!(r.retry_current_at, Some(1_000 + LOAD_RETRY_BACKOFF_MS));
    assert_eq!(t.error.as_deref(), Some("Spotify refused audio for this track; retrying"));
    assert!(t.playing, "the intent to play carries onto the retry");
    assert!(t.loading_failed && !t.seek_in_flight);
    assert_eq!(t.play_request_id, None, "the failed request is dead to every branch");
    assert_eq!(t.audio_revision, 4);
    assert_eq!(t.position_ms, 42_000, "the playhead holds where the retry can resume");

    r.current_load_is_retry = true;
    let second = t.fail_current_load(URI, &mut bursts, &mut r, 5_000);
    assert_eq!(second.verdict, LoadFailureVerdict::Skip);
    assert!(!second.evict_cache, "a second failure in the window is clustered");
}

#[test]
fn a_failed_track_moves_on_only_while_playing() {
    let mut t = transport(false);
    let mut bursts = LoadBursts::new();
    let mut r = recovery();
    let failed = t.fail_current_load(URI, &mut bursts, &mut r, 1_000);
    assert_eq!(failed.verdict, LoadFailureVerdict::HoldPaused);
    assert_eq!(
        t.error.as_deref(),
        Some("Spotify track is unavailable: spotify:track:0123456789ABCDEFGHIJKL")
    );
    assert_eq!(r.retry_current_at, None, "a paused row arms no retry");
}

#[test]
fn consecutive_failures_stop_playback_with_an_error() {
    let mut t = transport(true);
    let mut bursts = LoadBursts::new();
    let mut r = recovery();
    r.current_load_is_retry = true;
    t.fail_current_load(URI, &mut bursts, &mut r, 1_000);
    t.playing = true;
    t.fail_current_load(URI, &mut bursts, &mut r, 2_000);
    t.playing = true;
    let third = t.fail_current_load(URI, &mut bursts, &mut r, 3_000);
    assert_eq!(third.verdict, LoadFailureVerdict::StopRun { consecutive: 3 });
    assert!(!t.playing);
    assert_eq!(
        t.error.as_deref(),
        Some("Spotify refused audio for 3 tracks in a row; playback stopped")
    );
}

#[test]
fn numbers_are_written_in_decimal() {
    assert_eq!(decimal_text(0), "0");
    assert_eq!(decimal_text(7), "7");
    assert_eq!(decimal_text(10), "10");
    assert_eq!(decimal_text(18_446_744), "18446744");
}

#[test]
fn the_watermark_arms_once_per_load_and_not_while_paused() {
    let mut t = transport(false);
    t.position_ms = 230_000;
    let mut r = recovery();
    let tick = playback_health(&t, false, &mut r, 0);
    assert!(!tick.preload, "a paused track is not approaching its end");
    t.playing = true;
    let tick = playback_health(&t, false, &mut r, 0);
    assert!(tick.preload);
    let tick = playback_health(&t, false, &mut r, 0);
    assert!(!tick.preload, "the same load never buys the key twice");
    r.fresh_load();
    assert!(!r.preload_armed && r.retry_current_at.is_none() && !r.current_load_is_retry);
}

#[test]
fn pause_stops_an_armed_retry() {
    let mut t = transport(true);
    let mut r = recovery();
    r.retry_current_at = Some(5_000);
    assert!(!playback_health(&t, false, &mut r, 4_999).retry);
    assert!(playback_health(&t, false, &mut r, 5_000).retry);
    t.playing = false;
    assert!(!playback_health(&t, false, &mut r, 6_000).retry);
}

#[test]
fn an_isolated_failure_still_skips_and_audio_resets_the_run() {
    let mut t = transport(true);
    t.current_load_produced_audio = true;
    let mut r = recovery();
    assert!(playback_health(&t, true, &mut r, 0).clear_burst);
    assert!(!playback_health(&t, false, &mut r, 0).clear_burst);
}

fn live_session() -> Session {
    Session {
        generation: 9,
        auth_running: false,
        auth_generation: 0,
        resume_after_reconnect: false,
        ready: true,
        auth_state: AuthState::Ready,
        error: None,
        volume: 50,
        has_queue: true,
        playing: true,
        normalisation: false,
        next_reconnect: None,
        reconnect_backoff_ms: RECONNECT_BACKOFF_MIN_MS,
        awaiting_transport_retry: false,
        audio_unavailable: None,
        audio_probe_backoff_ms: 2_000,
        current_needs_load: false,
    }
}

#[test]
fn a_healthy_session_schedules_no_reconnect() {
    let mut s = live_session();
    s.reconnect_backoff_ms = 16_000;
    assert_eq!(s.tick_session_health(false, 100), HealthVerdict::Quiet);
    assert_eq!(s.next_reconnect, None);
    assert_eq!(s.reconnect_backoff_ms, RECONNECT_BACKOFF_MIN_MS);
}

#[test]
fn a_dead_session_reconnects_after_its_backoff() {
    let mut s = live_session();
    assert_eq!(s.tick_session_health(true, 100), HealthVerdict::Scheduled);
    assert!(!s.ready);
    assert!(s.resume_after_reconnect, "a playing queue resumes on the replacement");
    assert_eq!(s.error.as_deref(), Some("the Spotify connection dropped; reconnecting"));
    assert_eq!(s.tick_session_health(true, 101), HealthVerdict::Quiet);
    assert_eq!(
        s.tick_session_health(true, 100 + RECONNECT_BACKOFF_MIN_MS),
        HealthVerdict::Reconnect { resume: true }
    );
    assert_eq!(s.reconnect_backoff_ms, 2 * RECONNECT_BACKOFF_MIN_MS);
}

#[test]
fn the_health_tick_retries_when_only_a_retry_is_armed() {
    let mut s = live_session();
    s.awaiting_transport_retry = true;
    s.next_reconnect = Some(50);
    assert_eq!(s.tick_session_health(false, 60), HealthVerdict::Reconnect { resume: false });
    let mut busy = live_session();
    busy.auth_running = true;
    assert_eq!(busy.tick_session_health(true, 60), HealthVerdict::Quiet);
}

#[test]
fn device_probes_build_nothing_without_a_device() {
    let mut s = live_session();
    assert!(s.on_default_output_changed(true, 1_000));
    assert_eq!(s.generation, 10);
    assert_eq!(s.error.as_deref(), Some("the default audio output changed; switching playback"));
    assert!(s.playing, "the intent to play survives the switch");
    assert!(s.probe_due(true, 1_000), "the probe runs at once");
    assert!(!s.probe_due(false, 1_000), "no session, nothing to build against");

    assert_eq!(s.probe_device(false, 1_000), None);
    assert!(!s.probe_due(true, 1_001), "the next probe waits its backoff");
    let wait = s.audio_unavailable.as_ref().unwrap().retry_at - 1_000;
    assert!(wait > 0);

    assert_eq!(s.probe_device(true, 5_000), Some(10));
    assert_eq!(s.audio_unavailable.as_ref().unwrap().retry_at, 5_000 + AUDIO_START_TIMEOUT_MS);
}

fn profile(uri: &str, name: &str, image_url: &str) -> FollowedProfile {
    FollowedProfile { uri: uri.to_owned(), name: name.to_owned(), image_url: image_url.to_owned() }
}

#[test]
fn followed_profiles_become_artists() {
    let artists = artists_from_profiles(&vec![
        profile(
            "spotify:artist:788qKGMEh4hfYUTy8yANRC",
            "Conrad.",
            "https://i.scdn.co/image/ab676161000051741cee0c15e2748fdabccab112",
        ),
        profile("spotify:artist:0TnOYISbd1XYRBk9myaseg", "Pitbull", "https://i.scdn.co/image/ab6761610000517412345678"),
    ]);
    assert_eq!(artists.len(), 2);
    assert_eq!(artists[0].id, "788qKGMEh4hfYUTy8yANRC");
    assert_eq!(artists[0].uri, "spotify:artist:788qKGMEh4hfYUTy8yANRC");
    assert_eq!(artists[0].name, "Conrad.");
    assert_eq!(
        artists[0].portrait_url.as_deref(),
        Some("https://i.scdn.co/image/ab676161000051741cee0c15e2748fdabccab112")
    );
    assert_eq!(artists[1].id, "0TnOYISbd1XYRBk9myaseg");
}

#[test]
fn non_artist_entries_are_dropped_rather_than_rendered() {
    let artists = artists_from_profiles(&vec![
        profile("spotify:user:someone", "A Person", ""),
        profile("spotify:artist:ar1", "Artist One", "https://art"),
        profile("", "Nothing", ""),
        profile("spotify:artist:", "Prefix only", ""),
        profile("spotify:artist:   ", "Blank id", ""),
    ]);
    assert_eq!(artists.len(), 1, "only the artist row survives");
    assert_eq!(artists[0].id, "ar1");
}

#[test]
fn thin_entries_keep_their_row() {
    let artists = artists_from_profiles(&vec![profile("spotify:artist:ar2", "", "")]);
    assert_eq!(artists.len(), 1);
    assert_eq!(artists[0].id, "ar2");
    assert!(artists[0].name.is_empty());
    assert!(artists[0].portrait_url.is_none(), "an empty image_url is no picture, not an empty one");
    assert!(artists_from_profiles(&Vec::new()).is_empty());
}

#[test]
fn login_is_a_noop_while_a_session_is_live_or_a_flow_runs() {
    let mut s = live_session();
    assert!(!s.login_starts_flow(), "a live session needs no login");
    s.auth_state = AuthState::NeedsLogin;
    assert!(s.login_starts_flow());
    s.auth_running = true;
    assert!(!s.login_starts_flow(), "a flow is already running");
}

#[test]
fn begin_login_flow_marks_authenticating_under_a_new_generation() {
    let mut s = live_session();
    s.auth_state = AuthState::NeedsLogin;
    let generation = s.begin_login_flow();
    assert_eq!(generation, 10);
    assert!(s.auth_running);
    assert_eq!(s.auth_generation, 10);
    assert_eq!(s.auth_state, AuthState::Authenticating);
    assert!(!s.playing);
}

#[test]
fn a_reconnect_that_preserves_playback_keeps_the_intent() {
    let mut s = live_session();
    s.resume_after_reconnect = true;
    let generation = s.begin_cached_authentication(true);
    assert_eq!(generation, 10);
    assert!(s.playing && s.resume_after_reconnect);
    let mut cold = live_session();
    cold.begin_cached_authentication(false);
    assert!(!cold.playing && !cold.resume_after_reconnect);
}

#[test]
fn logout_disowns_the_attempt_in_flight() {
    let mut s = live_session();
    s.begin_cached_authentication(false);
    let attempt = s.generation;
    s.logout();
    assert!(!s.auth_running);
    assert_ne!(s.generation, attempt);
    assert_eq!(s.auth_state, AuthState::NeedsLogin);
    let outcome: renderer_engine::session::AuthOutcome<&str, &str> = s.on_auth_signal(
        renderer_engine::session::AuthSignal::Complete {
            generation: attempt,
            result: Err(renderer_engine::session::AuthFailure::Rejected("late".to_owned())),
        },
        0,
    );
    assert!(!outcome.changed, "the disowned answer changes nothing");
    assert_eq!(s.auth_state, AuthState::NeedsLogin);
}

fn queue_of(count: usize) -> QueuePlan {
    let mut plan = QueuePlan::new(ExclusionStore::new(), 0x9e37_79b9_7f4a_7c15, 1);
    for ordinal in 0..count {
        plan.queue.push(TrackRef {
            id: format!("{ordinal}abcdefghijklmnopqrstu"),
            uri: format!("spotify:track:{ordinal}abcdefghijklmnopqrstu"),
            duration_ms: 240_000,
            ..TrackRef::default()
        });
    }
    plan.current_index = Some(0);
    plan
}

#[test]
fn a_failed_retry_moves_the_queue_on_to_the_next_row() {
    let mut t = transport(true);
    let mut plan = queue_of(3);
    let mut bursts = LoadBursts::new();
    let mut r = recovery();

    let (first, moved) = fail_current_load_in_queue(&mut t, &mut plan, URI, &mut bursts, &mut r, 1_000);
    assert_eq!(first.verdict, LoadFailureVerdict::RetryAt { at_ms: 1_000 + LOAD_RETRY_BACKOFF_MS });
    assert_eq!(moved, None);
    assert_eq!(plan.current_index, Some(0), "the first failure holds the row for its retry");

    r.current_load_is_retry = true;
    let (second, moved) = fail_current_load_in_queue(&mut t, &mut plan, URI, &mut bursts, &mut r, 5_000);
    assert_eq!(second.verdict, LoadFailureVerdict::Skip);
    assert_eq!(moved, Some(Ok(Some(1))));
    assert_eq!(plan.current_index, Some(1));
    assert_eq!(plan.history, vec![0]);
    assert!(t.playing, "the successor loads with the intent to play");
    assert_eq!(t.error, None);
    assert_eq!(r.retry_current_at, None, "the successor's load owns no retry");
    assert!(!r.current_load_is_retry);
    assert!(!r.preload_armed);
}

#[test]
fn a_failed_retry_of_the_last_row_stops_at_its_end() {
    let mut t = transport(true);
    let mut plan = queue_of(1);
    let mut bursts = LoadBursts::new();
    let mut r = recovery();
    r.current_load_is_retry = true;
    let (failed, moved) = fail_current_load_in_queue(&mut t, &mut plan, URI, &mut bursts, &mut r, 9_000);
    assert_eq!(failed.verdict, LoadFailureVerdict::Skip);
    assert_eq!(moved, Some(Ok(None)));
    assert_eq!(plan.current_index, Some(0));
    assert!(!t.playing);
    assert_eq!(t.position_ms, t.duration_ms);
}

#[test]
fn an_end_without_audio_is_settled_as_a_failed_load() {
    let mut t = transport(true);
    t.current_load_produced_audio = false;
    let mut plan = queue_of(2);
    let mut bursts = LoadBursts::new();
    let mut r = recovery();
    let end = EndContext { played_ms: 240_000, compiled_duration_ms: 240_000, current_loop: None };
    let reaction = on_player_event_in_queue(
        &mut t,
        &mut plan,
        &mut bursts,
        &mut r,
        TransportEvent::EndOfTrack { play_request_id: 7, track_uri: Some(URI.to_owned()) },
        end,
        2_000,
    );
    assert!(reaction.emit);
    assert_eq!(reaction.action, TransportAction::FailCurrentLoad);
    assert!(reaction.advanced.is_none());
    let (failed, moved) = reaction.failed.expect("the failure is settled");
    assert_eq!(failed.verdict, LoadFailureVerdict::RetryAt { at_ms: 2_000 + LOAD_RETRY_BACKOFF_MS });
    assert_eq!(moved, None);
    assert_eq!(plan.current_index, Some(0), "the queue does not advance");
    assert!(t.loading_failed);
    assert!(r.retry_current_at.is_some());
    assert_eq!(bursts.recent_unavailable.len(), 1);
}

#[test]
fn a_finished_track_moves_the_queue_on_and_loads_the_next_row_fresh() {
    let mut t = transport(true);
    t.current_load_produced_audio = true;
    let mut plan = queue_of(2);
    plan.queue[1].duration_ms = 100_000;
    let mut bursts = LoadBursts::new();
    let mut r = recovery();
    r.preload_armed = true;
    let end = EndContext { played_ms: 239_000, compiled_duration_ms: 240_000, current_loop: None };
    let reaction = on_player_event_in_queue(
        &mut t,
        &mut plan,
        &mut bursts,
        &mut r,
        TransportEvent::EndOfTrack { play_request_id: 7, track_uri: Some(URI.to_owned()) },
        end,
        3_000,
    );
    assert_eq!(reaction.action, TransportAction::Advance);
    assert_eq!(reaction.advanced, Some(Ok(Some(1))));
    assert_eq!(plan.current_index, Some(1));
    assert_eq!(t.position_ms, 0);
    assert_eq!(t.duration_ms, 100_000);
    assert!(!r.preload_armed, "the next row's preload is not yet armed");

    let reaction = on_player_event_in_queue(
        &mut t,
        &mut plan,
        &mut bursts,
        &mut r,
        TransportEvent::EndOfTrack { play_request_id: 7, track_uri: Some(URI.to_owned()) },
        EndContext { played_ms: 100_000, compiled_duration_ms: 100_000, current_loop: None },
        4_000,
    );
    assert_eq!(reaction.advanced, Some(Ok(None)), "nothing follows the last row");
    assert_eq!(plan.current_index, Some(1));
    assert!(!t.playing);
    assert_eq!(t.position_ms, t.duration_ms);
}
