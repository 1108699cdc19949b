use renderer_engine::arguments::{
    parse_arguments, parse_arguments_with, ArgumentError, AUDIO_CACHE_LIMIT_BYTES,
};
use renderer_engine::session::{
    AuthFailure, AuthSignal, AuthState, ConnectedSession, PlaybackError, PlaybackHandles, Session,
    Teardown,
};
use renderer_engine::timing::{PlayerFailure, RECONNECT_BACKOFF_MIN_MS};

fn session() -> Session {
    Session {
        generation: 4,
        auth_running: true,
        auth_generation: 4,
        resume_after_reconnect: false,
        ready: false,
        auth_state: AuthState::Authenticating,
        error: None,
        volume: 30,
        has_queue: true,
        playing: false,
        normalisation: false,
        next_reconnect: None,
        reconnect_backoff_ms: RECONNECT_BACKOFF_MIN_MS,
        awaiting_transport_retry: false,
        audio_unavailable: None,
        audio_probe_backoff_ms: 2_000,
        current_needs_load: false,
    }
}

fn connected(playback: Result<PlaybackHandles<&'static str>, String>) -> AuthSignal<&'static str, &'static str> {
    AuthSignal::Complete {
        generation: 4,
        result: Ok(ConnectedSession { session: "session", playback }),
    }
}

#[test]
fn an_accepted_session_installs_its_player_and_keeps_the_queue_volume() {
    let mut s = session();
    let outcome = s.on_auth_signal(
        connected(Ok(PlaybackHandles { handles: "player", volume_percent: 80 })),
        1_000,
    );
    assert!(outcome.changed);
    assert_eq!(outcome.teardown, Teardown::Shutdown);
    assert_eq!(outcome.session, Some("session"));
    assert_eq!(outcome.player, Some("player"));
    assert!(outcome.apply_volume);
    assert!(!outcome.load_current, "a cold start does not resume");
    assert!(s.ready);
    assert_eq!(s.auth_state, AuthState::Ready);
    assert!(!s.auth_running);
    assert_eq!(s.volume, 30, "a restored queue keeps the volume the user had");
    assert!(s.current_needs_load);
}

#[test]
fn active_session_reconnect_preserves_playback_until_handover() {
    let mut s = session();
    s.resume_after_reconnect = true;
    s.playing = true;
    let outcome = s.on_auth_signal(
        connected(Ok(PlaybackHandles { handles: "player", volume_percent: 80 })),
        1_000,
    );
    assert_eq!(outcome.teardown, Teardown::Handover);
    assert!(outcome.load_current);
    assert!(s.playing);
    assert!(!s.resume_after_reconnect);
}

#[test]
fn a_session_without_a_queue_adopts_the_players_volume() {
    let mut s = session();
    s.has_queue = false;
    let outcome = s.on_auth_signal(
        connected(Ok(PlaybackHandles { handles: "player", volume_percent: 80 })),
        1_000,
    );
    assert!(!outcome.apply_volume);
    assert_eq!(s.volume, 80);
}

#[test]
fn no_output_device_leaves_a_live_session_browsing_and_says_why() {
    let mut s = session();
    let outcome = s.on_auth_signal(connected(Err("no audio output device".to_owned())), 1_000);
    assert!(outcome.changed);
    assert_eq!(outcome.session, Some("session"), "the session is live anyway");
    assert!(outcome.player.is_none());
    assert!(outcome.detach_player);
    assert!(outcome.log_news);
    assert!(s.ready);
    assert_eq!(s.error.as_deref(), Some("no audio output device"));
    let unavailable = s.audio_unavailable.as_ref().expect("the probe is armed");
    assert_eq!(unavailable.retry_at, 3_000);
}

#[test]
fn failed_auth_signal_returns_to_needs_login() {
    let mut s = session();
    let outcome: renderer_engine::session::AuthOutcome<&str, &str> = s.on_auth_signal(
        AuthSignal::Complete { generation: 4, result: Err(AuthFailure::Rejected("refused".to_owned())) },
        0,
    );
    assert!(outcome.needs_login);
    assert_eq!(s.auth_state, AuthState::NeedsLogin);
    assert!(!s.ready && !s.playing && !s.has_queue);
    assert_eq!(s.error.as_deref(), Some("refused"));
}

#[test]
fn an_unreachable_spotify_keeps_the_session_and_arms_a_retry() {
    let mut s = session();
    let outcome: renderer_engine::session::AuthOutcome<&str, &str> = s.on_auth_signal(
        AuthSignal::Complete { generation: 4, result: Err(AuthFailure::Unreachable("offline".to_owned())) },
        10_000,
    );
    assert!(outcome.changed && !outcome.needs_login);
    assert_eq!(s.auth_state, AuthState::Authenticating);
    assert!(s.has_queue, "the queue is kept");
    assert_eq!(s.reconnect_backoff_ms, 2 * RECONNECT_BACKOFF_MIN_MS);
    assert_eq!(s.next_reconnect, Some(10_000 + 2 * RECONNECT_BACKOFF_MIN_MS));
    assert!(s.awaiting_transport_retry);
}

#[test]
fn a_stale_answer_only_hands_back_its_own_attempt() {
    let mut s = session();
    s.generation = 5;
    let outcome: renderer_engine::session::AuthOutcome<&str, &str> = s.on_auth_signal(
        AuthSignal::Complete { generation: 4, result: Err(AuthFailure::Rejected("late".to_owned())) },
        100,
    );
    assert!(!outcome.changed);
    assert!(!s.auth_running, "the attempt that will never be answered is released");
    assert_eq!(s.next_reconnect, Some(100 + RECONNECT_BACKOFF_MIN_MS));
    assert_eq!(s.auth_state, AuthState::Authenticating);

    let mut live = session();
    live.generation = 5;
    live.auth_generation = 5;
    let _: renderer_engine::session::AuthOutcome<&str, &str> = live.on_auth_signal(
        AuthSignal::Complete { generation: 4, result: Err(AuthFailure::Rejected("late".to_owned())) },
        100,
    );
    assert!(live.auth_running, "a stale answer cannot abandon a live login flow");
}

#[test]
fn a_rebuilt_player_replaces_the_old_one_under_a_new_generation() {
    let mut s = session();
    s.ready = true;
    s.playing = true;
    let outcome: renderer_engine::session::AuthOutcome<&str, &str> = s.on_auth_signal(
        AuthSignal::PlayerRebuilt {
            generation: 4,
            normalisation: false,
            result: Ok(PlaybackHandles { handles: "rebuilt", volume_percent: 5 }),
        },
        0,
    );
    assert_eq!(outcome.teardown, Teardown::StopPlayer);
    assert_eq!(outcome.player, Some("rebuilt"));
    assert!(outcome.apply_volume && outcome.load_current);
    assert_eq!(s.generation, 5);
    assert_eq!(s.volume, 30);
}

#[test]
fn a_rebuild_for_another_preference_or_generation_is_stale() {
    let mut s = session();
    s.ready = true;
    let outcome: renderer_engine::session::AuthOutcome<&str, &str> = s.on_auth_signal(
        AuthSignal::PlayerRebuilt {
            generation: 4,
            normalisation: true,
            result: Ok(PlaybackHandles { handles: "rebuilt", volume_percent: 5 }),
        },
        0,
    );
    assert!(!outcome.changed);
    assert!(outcome.player.is_none());
    assert_eq!(s.generation, 4);
}

#[test]
fn a_blocked_device_open_backs_off_on_the_long_ladder() {
    let mut s = session();
    s.ready = true;
    s.audio_probe_backoff_ms = 1_000_000;
    let outcome: renderer_engine::session::AuthOutcome<&str, &str> = s.on_auth_signal(
        AuthSignal::PlayerRebuilt {
            generation: 4,
            normalisation: false,
            result: Err(PlaybackError::DeviceOpenBlocked("did not finish within 10 s".to_owned())),
        },
        0,
    );
    assert!(outcome.detach_player);
    assert_eq!(s.audio_unavailable.as_ref().unwrap().retry_at, PlayerFailure::Blocked.ceiling());
    assert_eq!(s.generation, 5);
}

#[test]
fn a_fatal_rebuild_failure_says_what_failed() {
    let mut s = session();
    s.ready = true;
    let _: renderer_engine::session::AuthOutcome<&str, &str> = s.on_auth_signal(
        AuthSignal::PlayerRebuilt {
            generation: 4,
            normalisation: false,
            result: Err(PlaybackError::Failed("mixer".to_owned())),
        },
        0,
    );
    assert_eq!(s.error.as_deref(), Some("could not rebuild the audio player: mixer"));
}

#[test]
fn the_player_thread_ending_under_a_live_session_is_an_error_to_retry() {
    let mut s = session();
    s.ready = true;
    assert!(!s.on_player_closed(3), "another generation's player is stale");
    assert!(s.on_player_closed(4));
    assert_eq!(s.auth_state, AuthState::Error);
    assert_eq!(
        s.error.as_deref(),
        Some("the local audio player stopped unexpectedly; request status to retry")
    );
}

fn args(items: &[&str]) -> Vec<String> {
    items.iter().map(|item| item.to_string()).collect()
}

fn windows_absolute(items: &[&str]) -> Vec<bool> {
    items.iter().map(|item| item.len() > 2 && item.as_bytes()[1] == b':').collect()
}

fn parse(items: &[&str]) -> Result<renderer_engine::arguments::Arguments, ArgumentError> {
    parse_arguments_with(&args(items), &windows_absolute(items))
}

#[test]
fn parse_arguments_requires_state_dir_and_accepts_an_optional_log_file() {
    let parsed = parse(&["--state-dir", "C:\\sr\\engine"]).expect("state dir alone");
    assert_eq!(parsed.state_directory, "C:\\sr\\engine");
    assert!(parsed.log_file.is_none(), "log file is optional");
    assert_eq!(parsed.audio_cache_limit_bytes, Some(AUDIO_CACHE_LIMIT_BYTES));
    assert!(!parsed.normalisation, "normalisation defaults to off");

    let parsed = parse(&[
        "--state-dir",
        "C:\\sr\\engine",
        "--log-file",
        "C:\\sr\\logs\\playback_engine.log",
        "--audio-cache-limit-mb",
        "4096",
    ])
    .expect("both flags");
    assert_eq!(parsed.log_file.as_deref(), Some("C:\\sr\\logs\\playback_engine.log"));
    assert_eq!(parsed.audio_cache_limit_bytes, Some(4096 * 1024 * 1024));

    let parsed = parse(&[
        "--audio-cache-limit-mb",
        "0",
        "--log-file",
        "C:\\sr\\logs\\playback_engine.log",
        "--state-dir",
        "C:\\sr\\engine",
    ])
    .expect("log file first");
    assert_eq!(parsed.state_directory, "C:\\sr\\engine");
    assert!(parsed.log_file.is_some());
    assert_eq!(parsed.audio_cache_limit_bytes, None, "zero selects an unlimited cache");
}

#[test]
fn parse_arguments_reads_the_normalisation_flag() {
    assert!(parse(&["--state-dir", "C:\\sr\\engine", "--normalisation", "true"]).unwrap().normalisation);
    assert!(!parse(&["--state-dir", "C:\\sr\\engine", "--normalisation", "false"]).unwrap().normalisation);
    assert!(matches!(
        parse(&["--state-dir", "C:\\sr\\engine", "--normalisation", "maybe"]),
        Err(ArgumentError::NormalisationNotABoolean { .. })
    ));
}

#[test]
fn parse_arguments_rejects_relative_state_dir_unknown_flags_and_duplicates() {
    assert!(matches!(parse(&[]), Err(ArgumentError::MissingStateDir)));
    assert!(matches!(parse(&["--state-dir"]), Err(ArgumentError::MissingValue { .. })));
    assert!(matches!(parse(&["--state-dir", "relative\\engine"]), Err(ArgumentError::RelativeStateDir)));
    assert!(matches!(
        parse(&["--state-dir", "C:\\a", "--bogus", "x"]),
        Err(ArgumentError::Unknown { .. })
    ));
    assert!(matches!(
        parse(&["--state-dir", "C:\\a", "--state-dir", "C:\\b"]),
        Err(ArgumentError::DuplicateStateDir)
    ));
    assert!(matches!(
        parse(&["--state-dir", "C:\\a", "--audio-cache-limit-mb", "wat"]),
        Err(ArgumentError::CacheLimitNotANumber)
    ));
    assert!(matches!(
        parse(&["--state-dir", "C:\\a", "--audio-cache-limit-mb", "1024", "--audio-cache-limit-mb", "2048"]),
        Err(ArgumentError::DuplicateCacheLimit)
    ));
    assert!(matches!(
        parse(&["--state-dir", "C:\\a", "--audio-cache-limit-mb", "18446744073709551615"]),
        Err(ArgumentError::CacheLimitTooLarge)
    ));
}

#[test]
fn the_platform_decides_what_is_absolute() {
    let parsed = parse_arguments(args(&["--state-dir", "/srv/engine"]));
    let relative = parse_arguments(args(&["--state-dir", "engine"]));
    assert!(matches!(relative, Err(ArgumentError::RelativeStateDir)));
    assert_eq!(parsed.unwrap().state_directory, "/srv/engine");
}

#[test]
fn flags_may_come_in_any_order() {
    let one = parse(&["--state-dir", "C:\\a", "--normalisation", "true", "--log-file", "C:\\l"]).unwrap();
    let two = parse(&["--log-file", "C:\\l", "--normalisation", "true", "--state-dir", "C:\\a"]).unwrap();
    assert_eq!(one.state_directory, two.state_directory);
    assert_eq!(one.log_file, two.log_file);
    assert_eq!(one.normalisation, two.normalisation);
    assert_eq!(one.audio_cache_limit_bytes, two.audio_cache_limit_bytes);
}
