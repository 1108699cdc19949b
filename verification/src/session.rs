use crate::timing::{
    audio_unavailable_is_news, next_device_probe, next_reconnect_backoff, PlayerFailure,
    AUDIO_PROBE_BACKOFF_MIN_MS, RECONNECT_BACKOFF_MAX_MS, RECONNECT_BACKOFF_MIN_MS,
};
use vstd::prelude::*;

verus! {

/// Where the engine stands with the streaming service.
#[derive(Clone, Copy, Debug, PartialEq, Eq, Structural)]
pub enum AuthState {
    Authenticating,
    Ready,
    NeedsLogin,
    Error,
}

/// Why a cached authentication attempt failed.
pub enum AuthFailure {
    /// The service refused the credentials: a fresh login is needed.
    Rejected(String),
    /// The service could not be reached: the credentials may be fine.
    Unreachable(String),
}

/// Why a player could not be built.
pub enum PlaybackError {
    /// There is no output device to open.
    NoOutputDevice(String),
    /// A device exists but its open did not return.
    DeviceOpenBlocked(String),
    /// The player itself could not be built.
    Failed(String),
}

/// A built player, whatever it is made of, and the volume it starts at.
pub struct PlaybackHandles<H> {
    pub handles: H,
    pub volume_percent: u8,
}

/// A session the service accepted, with the player built for it or the
/// reason there is none.
pub struct ConnectedSession<S, H> {
    pub session: S,
    pub playback: Result<PlaybackHandles<H>, String>,
}

/// The answers that background authentication and player construction
/// send back to the engine, each stamped with the generation it started
/// under.
#[allow(inconsistent_fields)]
pub enum AuthSignal<S, H> {
    Complete { generation: u64, result: Result<ConnectedSession<S, H>, AuthFailure> },
    PlayerRebuilt { generation: u64, normalisation: bool, result: Result<PlaybackHandles<H>, PlaybackError> },
}

/// The machine has no usable output device: the message the state shows
/// and when (monotonic milliseconds) the next probe may run.
pub struct AudioUnavailable {
    pub message: String,
    pub retry_at: u64,
}

/// How the engine lets go of what plays now before installing something
/// new.
#[derive(Clone, Copy, Debug, PartialEq, Eq, Structural)]
pub enum Teardown {
    /// Nothing is let go.
    Keep,
    /// Stop the old player without retiring the listening row: the same
    /// play continues on the replacement.
    Handover,
    /// Retire the listening row and stop everything.
    Shutdown,
    /// Stop the old player only: its replacement is being installed.
    StopPlayer,
}

/// The outside work an authentication answer asks for, in order: let go of
/// the old playback, install the session and the player, push the volume
/// to them, and load the current row.
pub struct AuthOutcome<S, H> {
    /// Whether a state event is owed.
    pub changed: bool,
    pub teardown: Teardown,
    /// The session to install.
    pub session: Option<S>,
    /// The player to install; its events belong to the current generation.
    pub player: Option<H>,
    /// Push the state's volume to the new player's mixer and sink.
    pub apply_volume: bool,
    /// Load the current row, playing.
    pub load_current: bool,
    /// The player has to go: detach it and stop the listening clock, as the
    /// device is unavailable.
    pub detach_player: bool,
    /// Enter the logged-out state: tear playback down, clear the queue and
    /// prepare a fresh login. The state's message stands.
    pub needs_login: bool,
    /// The device failure is worth a log line.
    pub log_news: bool,
}

/// The engine's standing with the service and with its output device.
pub struct Session {
    /// Bumped whenever the player it belongs to changes; answers carrying an
    /// older one are stale.
    pub generation: u64,
    /// An authentication attempt is in flight.
    pub auth_running: bool,
    /// The generation the attempt in flight started under.
    pub auth_generation: u64,
    /// Playback was interrupted by a dying session and should resume on the
    /// replacement.
    pub resume_after_reconnect: bool,
    pub ready: bool,
    pub auth_state: AuthState,
    pub error: Option<String>,
    /// The volume, in percent.
    pub volume: u8,
    /// A queue row is current.
    pub has_queue: bool,
    /// The intent to play.
    pub playing: bool,
    /// The normalisation preference players are built with.
    pub normalisation: bool,
    /// When (monotonic milliseconds) the next reconnect may be attempted.
    pub next_reconnect: Option<u64>,
    pub reconnect_backoff_ms: u64,
    /// A cached attempt failed on transport rather than refusal.
    pub awaiting_transport_retry: bool,
    pub audio_unavailable: Option<AudioUnavailable>,
    pub audio_probe_backoff_ms: u64,
    /// The current row needs a fresh load before it can play.
    pub current_needs_load: bool,
}

/// An outcome that asks for nothing.
pub open spec fn quiet<S, H>(outcome: AuthOutcome<S, H>, changed: bool) -> bool {
    &&& outcome.changed == changed
    &&& outcome.teardown == Teardown::Keep
    &&& outcome.session is None
    &&& outcome.player is None
    &&& !outcome.apply_volume
    &&& !outcome.load_current
    &&& !outcome.detach_player
    &&& !outcome.needs_login
}

/// The doubled reconnect backoff, at most the ceiling.
pub open spec fn doubled_backoff(backoff_ms: u64) -> u64 {
    if 2 * backoff_ms <= RECONNECT_BACKOFF_MAX_MS {
        (2 * backoff_ms) as u64
    } else {
        RECONNECT_BACKOFF_MAX_MS
    }
}

/// A generation moved on by one, wrapping.
pub open spec fn next_generation(generation: u64) -> u64 {
    if generation == u64::MAX {
        0
    } else {
        (generation + 1) as u64
    }
}

/// `session` after the attempt stamped `attempt` is disowned at `now`: only
/// that attempt, if it is the one in flight, stops running, and a reconnect
/// on the shortest backoff is scheduled if none is; nothing else moves.
pub open spec fn abandoned(session: Session, attempt: u64, now: u64) -> Session {
    if session.auth_running && session.auth_generation == attempt {
        if session.next_reconnect is None {
            Session {
                auth_running: false,
                reconnect_backoff_ms: RECONNECT_BACKOFF_MIN_MS,
                next_reconnect: Some(after(now, RECONNECT_BACKOFF_MIN_MS)),
                ..session
            }
        } else {
            Session { auth_running: false, ..session }
        }
    } else {
        session
    }
}

impl Session {
    /// Hands the engine its retry back after an authentication attempt that
    /// will never be answered: only the attempt in flight is cleared, and a
    /// retry is armed if none is.
    pub fn abandon_cached_authentication(&mut self, attempt: u64, now: u64)
        ensures
            *final(self) == abandoned(*old(self), attempt, now),
    {
        if !self.auth_running || self.auth_generation != attempt {
            return;
        }
        self.auth_running = false;
        if self.next_reconnect.is_none() {
            self.reconnect_backoff_ms = RECONNECT_BACKOFF_MIN_MS;
            self.next_reconnect = Some(now.saturating_add(RECONNECT_BACKOFF_MIN_MS));
        }
    }

    /// Whether a rebuilt player answers the player this engine is waiting
    /// for: the session is ready, the generation is current, and it was
    /// built with the preference in force.
    pub fn player_rebuild_is_current(&self, generation: u64, normalisation: bool) -> (current: bool)
        ensures
            current == (self.ready && generation == self.generation && self.normalisation
                == normalisation),
    {
        self.ready && generation == self.generation && self.normalisation == normalisation
    }

    /// A player exists: the device failure is over and the next outage
    /// starts at the short backoff.
    pub fn clear_audio_unavailable(&mut self)
        ensures
            *final(self) == (Session {
                audio_unavailable: None,
                audio_probe_backoff_ms: AUDIO_PROBE_BACKOFF_MIN_MS,
                ..*old(self)
            }),
    {
        self.audio_unavailable = None;
        self.audio_probe_backoff_ms = AUDIO_PROBE_BACKOFF_MIN_MS;
    }

    /// The session's side of losing the output device at `now`: the
    /// generation moves on so the old player's events are stale, the
    /// message is shown, and the next probe is armed on the failure's
    /// ladder. Answers whether the message is news (differs from the one in
    /// force). The intent to play is kept.
    pub fn enter_audio_unavailable(&mut self, message: String, failure: PlayerFailure, now: u64) -> (news: bool)
        ensures
            news == !(old(self).audio_unavailable matches Some(previous) && previous.message@
                == message@),
            final(self).generation == next_generation(old(self).generation),
            final(self).error matches Some(shown) && shown@ == message@,
            final(self).audio_unavailable matches Some(u) && u.message@ == message@ && u.retry_at
                == after(now, min_wait(old(self).audio_probe_backoff_ms, failure)),
            final(self).playing == old(self).playing,
            final(self).ready == old(self).ready,
            final(self).auth_state == old(self).auth_state,
            final(self).current_needs_load == old(self).has_queue,
            final(self).has_queue == old(self).has_queue,
            final(self).auth_running == old(self).auth_running,
            final(self).auth_generation == old(self).auth_generation,
            final(self).resume_after_reconnect == old(self).resume_after_reconnect,
            final(self).next_reconnect == old(self).next_reconnect,
            final(self).reconnect_backoff_ms == old(self).reconnect_backoff_ms,
            final(self).awaiting_transport_retry == old(self).awaiting_transport_retry,
            final(self).volume == old(self).volume,
            final(self).normalisation == old(self).normalisation,
    {
        let news = match &self.audio_unavailable {
            Some(previous) => audio_unavailable_is_news(Some(previous.message.as_str()), message.as_str()),
            None => audio_unavailable_is_news(None, message.as_str()),
        };
        self.current_needs_load = self.has_queue;
        self.generation = self.generation.wrapping_add(1);
        self.error = Some(message.clone());
        let wait = next_device_probe(&mut self.audio_probe_backoff_ms, failure);
        self.audio_unavailable = Some(AudioUnavailable { message, retry_at: now.saturating_add(wait) });
        news
    }

    /// The session's side of being signed out: not ready, no intent to
    /// play or to resume, no reconnect pending, no device failure, no
    /// message, nothing current.
    pub fn enter_needs_login(&mut self)
        ensures
            !final(self).ready,
            final(self).auth_state == AuthState::NeedsLogin,
            !final(self).playing,
            !final(self).has_queue,
            !final(self).current_needs_load,
            !final(self).resume_after_reconnect,
            final(self).next_reconnect is None,
            !final(self).awaiting_transport_retry,
            final(self).audio_unavailable is None,
            final(self).audio_probe_backoff_ms == AUDIO_PROBE_BACKOFF_MIN_MS,
            final(self).error is None,
            final(self).generation == old(self).generation,
            final(self).auth_running == old(self).auth_running,
            final(self).volume == old(self).volume,
    {
        self.ready = false;
        self.auth_state = AuthState::NeedsLogin;
        self.playing = false;
        self.has_queue = false;
        self.current_needs_load = false;
        self.resume_after_reconnect = false;
        self.next_reconnect = None;
        self.awaiting_transport_retry = false;
        self.clear_audio_unavailable();
        self.error = None;
    }
}

/// The monotonic time `ms` milliseconds after `now`, saturating.
pub open spec fn after(now: u64, ms: u64) -> u64 {
    if now + ms > u64::MAX {
        u64::MAX
    } else {
        (now + ms) as u64
    }
}

/// The message shown when a rebuilt player could not be built.
pub open spec fn rebuild_failed_message(reason: Seq<char>) -> Seq<char> {
    "could not rebuild the audio player: "@ + reason
}

/// The message shown when the player thread ended under a live session.
pub open spec fn player_stopped_message() -> Seq<char> {
    "the local audio player stopped unexpectedly; request status to retry"@
}

/// The first wait of a device probe ladder from `backoff_ms`.
pub open spec fn min_wait(backoff_ms: u64, failure: PlayerFailure) -> u64 {
    if backoff_ms <= failure.ceiling_spec() {
        backoff_ms
    } else {
        failure.ceiling_spec()
    }
}

/// An outcome that lets the device go, asking for nothing else.
pub open spec fn detaches<S, H>(outcome: AuthOutcome<S, H>) -> bool {
    &&& outcome.changed
    &&& outcome.teardown == Teardown::Keep
    &&& outcome.session is None
    &&& outcome.player is None
    &&& !outcome.apply_volume
    &&& !outcome.load_current
    &&& outcome.detach_player
    &&& !outcome.needs_login
}

/// The session's side of a device failure with `message` at `now`.
pub open spec fn after_device_failure(old: Session, new: Session, message: Seq<char>, failure: PlayerFailure, now: u64) -> bool {
    &&& new.generation == next_generation(old.generation)
    &&& new.error matches Some(shown) && shown@ == message
    &&& new.audio_unavailable matches Some(u) && u.message@ == message && u.retry_at == after(
        now,
        min_wait(old.audio_probe_backoff_ms, failure),
    )
    &&& new.playing == old.playing
    &&& new.ready == old.ready
    &&& new.auth_state == old.auth_state
}

/// The message a rebuilt player's construction failure is shown with.
fn rebuild_failure(reason: String) -> (message: String)
    ensures
        message@ == rebuild_failed_message(reason@),
{
    let mut message = "could not rebuild the audio player: ".to_owned();
    message.append(reason.as_str());
    message
}

impl Session {
    /// Applies the answer of a background authentication or player build at
    /// `now`. A stale answer only hands back the attempt it belonged to. A
    /// session the service accepted is installed with its player (or with
    /// the device failure that left it without one); a refusal signs out; an
    /// unreachable service arms the next attempt on a doubled backoff. A
    /// rebuilt player replaces the old one under a new generation, keeping
    /// the volume and the intent to play.
    pub fn on_auth_signal<S, H>(&mut self, signal: AuthSignal<S, H>, now: u64) -> (outcome: AuthOutcome<S, H>)
        ensures
            match signal {
                AuthSignal::Complete { generation, result } => if generation != old(self).generation {
                    &&& quiet(outcome, false)
                    &&& *final(self) == abandoned(*old(self), generation, now)
                } else {
                    &&& !final(self).auth_running
                    &&& outcome.changed
                    &&& match result {
                        Ok(connected) => {
                            &&& outcome.teardown == (if old(self).resume_after_reconnect {
                                Teardown::Handover
                            } else {
                                Teardown::Shutdown
                            })
                            &&& outcome.session == Some(connected.session)
                            &&& !outcome.needs_login
                            &&& final(self).ready
                            &&& final(self).auth_state == AuthState::Ready
                            &&& !final(self).resume_after_reconnect
                            &&& final(self).next_reconnect is None
                            &&& final(self).reconnect_backoff_ms == RECONNECT_BACKOFF_MIN_MS
                            &&& !final(self).awaiting_transport_retry
                            &&& match connected.playback {
                                Ok(handles) => {
                                    &&& outcome.player == Some(handles.handles)
                                    &&& !outcome.detach_player
                                    &&& final(self).audio_unavailable is None
                                    &&& final(self).error is None
                                    &&& final(self).volume == (if old(self).has_queue {
                                        old(self).volume
                                    } else {
                                        handles.volume_percent
                                    })
                                    &&& outcome.apply_volume == old(self).has_queue
                                    &&& old(self).has_queue ==> final(self).current_needs_load
                                        && final(self).playing == old(self).resume_after_reconnect
                                    &&& outcome.load_current == (old(self).has_queue && old(self).resume_after_reconnect)
                                },
                                Err(message) => {
                                    &&& outcome.player is None
                                    &&& outcome.detach_player
                                    &&& !outcome.load_current
                                    &&& final(self).error matches Some(shown) && shown@ == message@
                                    &&& final(self).audio_unavailable is Some
                                },
                            }
                        },
                        Err(AuthFailure::Rejected(message)) => {
                            &&& outcome.needs_login
                            &&& outcome.session is None
                            &&& outcome.player is None
                            &&& !outcome.load_current
                            &&& final(self).auth_state == AuthState::NeedsLogin
                            &&& !final(self).ready
                            &&& !final(self).playing
                            &&& !final(self).has_queue
                            &&& final(self).error matches Some(shown) && shown@ == message@
                        },
                        Err(AuthFailure::Unreachable(message)) => {
                            &&& quiet(outcome, true)
                            &&& !final(self).ready
                            &&& final(self).auth_state == AuthState::Authenticating
                            &&& final(self).error matches Some(shown) && shown@ == message@
                            &&& final(self).reconnect_backoff_ms == doubled_backoff(
                                old(self).reconnect_backoff_ms,
                            )
                            &&& final(self).next_reconnect == Some(
                                after(now, doubled_backoff(old(self).reconnect_backoff_ms)),
                            )
                            &&& final(self).awaiting_transport_retry
                            &&& final(self).has_queue == old(self).has_queue
                        },
                    }
                },
                AuthSignal::PlayerRebuilt { generation, normalisation, result } => if !(old(self).ready && generation == old(self).generation && old(self).normalisation
                    == normalisation) {
                    &&& quiet(outcome, false)
                    &&& *final(self) == *old(self)
                } else {
                    match result {
                        Ok(handles) => {
                            &&& outcome.changed
                            &&& outcome.teardown == Teardown::StopPlayer
                            &&& outcome.session is None
                            &&& outcome.player == Some(handles.handles)
                            &&& outcome.apply_volume
                            &&& !outcome.detach_player
                            &&& !outcome.needs_login
                            &&& outcome.load_current == old(self).playing
                            &&& final(self).generation == next_generation(old(self).generation)
                            &&& final(self).volume == old(self).volume
                            &&& final(self).playing == old(self).playing
                            &&& final(self).error is None
                            &&& final(self).audio_unavailable is None
                            &&& final(self).current_needs_load == old(self).has_queue
                        },
                        Err(PlaybackError::NoOutputDevice(message)) => detaches(outcome)
                            && after_device_failure(
                            *old(self),
                            *final(self),
                            message@,
                            PlayerFailure::Ordinary,
                            now,
                        ),
                        Err(PlaybackError::DeviceOpenBlocked(message)) => detaches(outcome)
                            && after_device_failure(
                            *old(self),
                            *final(self),
                            message@,
                            PlayerFailure::Blocked,
                            now,
                        ),
                        Err(PlaybackError::Failed(reason)) => detaches(outcome)
                            && after_device_failure(
                            *old(self),
                            *final(self),
                            rebuild_failed_message(reason@),
                            PlayerFailure::Ordinary,
                            now,
                        ),
                    }
                },
            },
    {
        match signal {
            AuthSignal::Complete { generation, result } => {
                if generation != self.generation {
                    self.abandon_cached_authentication(generation, now);
                    return AuthOutcome {
                        changed: false,
                        teardown: Teardown::Keep,
                        session: None,
                        player: None,
                        apply_volume: false,
                        load_current: false,
                        detach_player: false,
                        needs_login: false,
                        log_news: false,
                    };
                }
                self.auth_running = false;
                match result {
                    Ok(connected) => {
                        let had_queue = self.has_queue;
                        let restored_volume = self.volume;
                        let resume = had_queue && self.resume_after_reconnect;
                        let teardown = if self.resume_after_reconnect {
                            Teardown::Handover
                        } else {
                            Teardown::Shutdown
                        };
                        self.current_needs_load = self.has_queue;
                        self.resume_after_reconnect = false;
                        self.ready = true;
                        self.auth_state = AuthState::Ready;
                        self.next_reconnect = None;
                        self.reconnect_backoff_ms = RECONNECT_BACKOFF_MIN_MS;
                        self.awaiting_transport_retry = false;
                        match connected.playback {
                            Ok(handles) => {
                                self.clear_audio_unavailable();
                                self.volume = if had_queue {
                                    restored_volume
                                } else {
                                    handles.volume_percent
                                };
                                self.error = None;
                                if had_queue {
                                    self.current_needs_load = true;
                                    self.playing = resume;
                                }
                                AuthOutcome {
                                    changed: true,
                                    teardown,
                                    session: Some(connected.session),
                                    player: Some(handles.handles),
                                    apply_volume: had_queue,
                                    load_current: resume,
                                    detach_player: false,
                                    needs_login: false,
                                    log_news: false,
                                }
                            },
                            Err(message) => {
                                let news = self.enter_audio_unavailable(
                                    message,
                                    PlayerFailure::Ordinary,
                                    now,
                                );
                                AuthOutcome {
                                    changed: true,
                                    teardown,
                                    session: Some(connected.session),
                                    player: None,
                                    apply_volume: false,
                                    load_current: false,
                                    detach_player: true,
                                    needs_login: false,
                                    log_news: news,
                                }
                            },
                        }
                    },
                    Err(AuthFailure::Rejected(message)) => {
                        self.enter_needs_login();
                        self.error = Some(message);
                        AuthOutcome {
                            changed: true,
                            teardown: Teardown::Shutdown,
                            session: None,
                            player: None,
                            apply_volume: false,
                            load_current: false,
                            detach_player: false,
                            needs_login: true,
                            log_news: false,
                        }
                    },
                    Err(AuthFailure::Unreachable(message)) => {
                        self.ready = false;
                        self.auth_state = AuthState::Authenticating;
                        self.error = Some(message);
                        self.reconnect_backoff_ms = next_reconnect_backoff(self.reconnect_backoff_ms);
                        self.next_reconnect = Some(now.saturating_add(self.reconnect_backoff_ms));
                        self.awaiting_transport_retry = true;
                        AuthOutcome {
                            changed: true,
                            teardown: Teardown::Keep,
                            session: None,
                            player: None,
                            apply_volume: false,
                            load_current: false,
                            detach_player: false,
                            needs_login: false,
                            log_news: false,
                        }
                    },
                }
            },
            AuthSignal::PlayerRebuilt { generation, normalisation, result } => {
                if !self.player_rebuild_is_current(generation, normalisation) {
                    return AuthOutcome {
                        changed: false,
                        teardown: Teardown::Keep,
                        session: None,
                        player: None,
                        apply_volume: false,
                        load_current: false,
                        detach_player: false,
                        needs_login: false,
                        log_news: false,
                    };
                }
                let failure = match result {
                    Ok(handles) => {
                        self.clear_audio_unavailable();
                        let was_playing = self.playing;
                        self.generation = self.generation.wrapping_add(1);
                        self.current_needs_load = self.has_queue;
                        self.error = None;
                        return AuthOutcome {
                            changed: true,
                            teardown: Teardown::StopPlayer,
                            session: None,
                            player: Some(handles.handles),
                            apply_volume: true,
                            load_current: was_playing,
                            detach_player: false,
                            needs_login: false,
                            log_news: false,
                        };
                    },
                    Err(PlaybackError::NoOutputDevice(message)) => (message, PlayerFailure::Ordinary),
                    Err(PlaybackError::DeviceOpenBlocked(message)) => (message, PlayerFailure::Blocked),
                    Err(PlaybackError::Failed(reason)) => (rebuild_failure(reason), PlayerFailure::Ordinary),
                };
                let (message, kind) = failure;
                let news = self.enter_audio_unavailable(message, kind, now);
                AuthOutcome {
                    changed: true,
                    teardown: Teardown::Keep,
                    session: None,
                    player: None,
                    apply_volume: false,
                    load_current: false,
                    detach_player: true,
                    needs_login: false,
                    log_news: news,
                }
            },
        }
    }

    /// The player thread of generation `generation` ended. Under a live
    /// session with the current player that is an error the user can retry
    /// from; anything else is stale. Answers whether the state changed.
    pub fn on_player_closed(&mut self, generation: u64) -> (changed: bool)
        ensures
            changed == (generation == old(self).generation && old(self).ready),
            !changed ==> *final(self) == *old(self),
            changed ==> {
                &&& !final(self).ready
                &&& final(self).auth_state == AuthState::Error
                &&& !final(self).playing
                &&& final(self).error matches Some(shown) && shown@ == player_stopped_message()
                &&& final(self).generation == old(self).generation
                &&& final(self).current_needs_load == old(self).current_needs_load
            },
    {
        if generation != self.generation || !self.ready {
            return false;
        }
        self.ready = false;
        self.auth_state = AuthState::Error;
        self.playing = false;
        self.error = Some(
            "the local audio player stopped unexpectedly; request status to retry".to_owned(),
        );
        proof {
            reveal_strlit("the local audio player stopped unexpectedly; request status to retry");
        }
        true
    }
}

/// How long a probe may spend building a player before another may start,
/// in milliseconds.
pub const AUDIO_START_TIMEOUT_MS: u64 = 10_000;

/// What the session heartbeat decided.
#[derive(Clone, Copy, Debug, PartialEq, Eq, Structural)]
pub enum HealthVerdict {
    /// Nothing to do.
    Quiet,
    /// The session just died: a reconnect is scheduled and the state says
    /// so.
    Scheduled,
    /// The scheduled reconnect is due: start a cached authentication,
    /// resuming playback on the replacement when asked.
    Reconnect { resume: bool },
}

/// The message shown while a dead session is being replaced.
pub open spec fn reconnecting_message() -> Seq<char> {
    "the Spotify connection dropped; reconnecting"@
}

/// The message shown while the default output changes.
pub open spec fn output_switch_message() -> Seq<char> {
    "the default audio output changed; switching playback"@
}

impl Session {
    /// The session heartbeat at `now`, `dead` saying whether the installed
    /// session went invalid. An attempt in flight is left to answer. A
    /// healthy session ends any backoff. The first sight of a dead session
    /// (or of an armed transport retry) schedules a reconnect, keeping the
    /// intent to resume a playing queue; once due, the reconnect starts and
    /// the next wait doubles.
    pub fn tick_session_health(&mut self, dead: bool, now: u64) -> (verdict: HealthVerdict)
        ensures
            old(self).auth_running ==> verdict == HealthVerdict::Quiet && *final(self) == *old(self),
            !old(self).auth_running && !dead && !(old(self).awaiting_transport_retry && old(self).next_reconnect is Some) ==> {
                &&& verdict == HealthVerdict::Quiet
                &&& final(self).next_reconnect is None
                &&& final(self).reconnect_backoff_ms == RECONNECT_BACKOFF_MIN_MS
            },
            !old(self).auth_running && (dead || (old(self).awaiting_transport_retry && old(self).next_reconnect is Some)) ==> match old(self).next_reconnect {
                None => {
                    &&& verdict == HealthVerdict::Scheduled
                    &&& final(self).next_reconnect == Some(after(now, old(self).reconnect_backoff_ms))
                    &&& final(self).resume_after_reconnect == (old(self).playing && old(self).has_queue)
                    &&& !final(self).ready
                    &&& final(self).error matches Some(shown) && shown@ == reconnecting_message()
                },
                Some(due) => if now < due {
                    verdict == HealthVerdict::Quiet && *final(self) == *old(self)
                } else {
                    &&& verdict == HealthVerdict::Reconnect { resume: old(self).resume_after_reconnect }
                    &&& final(self).reconnect_backoff_ms == doubled_backoff(old(self).reconnect_backoff_ms)
                    &&& final(self).next_reconnect == Some(
                        after(now, doubled_backoff(old(self).reconnect_backoff_ms)),
                    )
                },
            },
    {
        if self.auth_running {
            return HealthVerdict::Quiet;
        }
        let retry_armed = self.awaiting_transport_retry && self.next_reconnect.is_some();
        if !dead && !retry_armed {
            self.next_reconnect = None;
            self.reconnect_backoff_ms = RECONNECT_BACKOFF_MIN_MS;
            return HealthVerdict::Quiet;
        }
        match self.next_reconnect {
            None => {
                self.next_reconnect = Some(now.saturating_add(self.reconnect_backoff_ms));
                self.resume_after_reconnect = self.playing && self.has_queue;
                self.ready = false;
                self.error = Some("the Spotify connection dropped; reconnecting".to_owned());
                proof {
                    reveal_strlit("the Spotify connection dropped; reconnecting");
                }
                HealthVerdict::Scheduled
            },
            Some(due) => {
                if now < due {
                    return HealthVerdict::Quiet;
                }
                self.reconnect_backoff_ms = next_reconnect_backoff(self.reconnect_backoff_ms);
                self.next_reconnect = Some(now.saturating_add(self.reconnect_backoff_ms));
                HealthVerdict::Reconnect { resume: self.resume_after_reconnect }
            },
        }
    }

    /// Whether the device probe should run at `now`: the device is
    /// unavailable, its retry is due, and there is a session to build a
    /// player against.
    pub fn probe_due(&self, has_session: bool, now: u64) -> (due: bool)
        ensures
            due == (self.audio_unavailable matches Some(u) && now >= u.retry_at && has_session),
    {
        match &self.audio_unavailable {
            Some(unavailable) => now >= unavailable.retry_at && has_session,
            None => false,
        }
    }

    /// The due probe at `now`, `device_present` saying whether the machine
    /// lists a default output. With none, the next probe waits on the same
    /// ladder and nothing is built. With one, the probe holds the clock for
    /// as long as a build may take and answers the generation the player is
    /// to be built under.
    pub fn probe_device(&mut self, device_present: bool, now: u64) -> (build: Option<u64>)
        requires
            old(self).audio_unavailable is Some,
        ensures
            !device_present ==> {
                &&& build is None
                &&& final(self).audio_unavailable is Some
                &&& final(self).audio_unavailable->0.retry_at == after(
                    now,
                    min_wait(old(self).audio_probe_backoff_ms, PlayerFailure::Ordinary),
                )
            },
            device_present ==> {
                &&& build == Some(old(self).generation)
                &&& final(self).audio_unavailable is Some
                &&& final(self).audio_unavailable->0.retry_at == after(now, AUDIO_START_TIMEOUT_MS)
                &&& final(self).audio_probe_backoff_ms == old(self).audio_probe_backoff_ms
            },
            final(self).generation == old(self).generation,
            final(self).error == old(self).error,
            final(self).playing == old(self).playing,
            final(self).audio_unavailable matches Some(u) && u.message@ == old(self).audio_unavailable->0.message@,
    {
        let retry_at = if device_present {
            now.saturating_add(AUDIO_START_TIMEOUT_MS)
        } else {
            let wait = next_device_probe(&mut self.audio_probe_backoff_ms, PlayerFailure::Ordinary);
            now.saturating_add(wait)
        };
        match self.audio_unavailable.take() {
            Some(unavailable) => {
                self.audio_unavailable = Some(AudioUnavailable { message: unavailable.message, retry_at });
            },
            None => {},
        }
        if device_present {
            Some(self.generation)
        } else {
            None
        }
    }

    /// The default output changed under a live session at `now`: the player
    /// goes as if the device were lost, and the probe runs at once. Answers
    /// whether anything changed.
    pub fn on_default_output_changed(&mut self, has_session: bool, now: u64) -> (changed: bool)
        ensures
            changed == (old(self).ready && has_session),
            !changed ==> *final(self) == *old(self),
            changed ==> {
                &&& final(self).generation == next_generation(old(self).generation)
                &&& final(self).error matches Some(shown) && shown@ == output_switch_message()
                &&& final(self).audio_unavailable matches Some(u) && u.retry_at == now
                &&& final(self).playing == old(self).playing
            },
    {
        if !self.ready || !has_session {
            return false;
        }
        let message = "the default audio output changed; switching playback".to_owned();
        proof {
            reveal_strlit("the default audio output changed; switching playback");
        }
        self.enter_audio_unavailable(message, PlayerFailure::Ordinary, now);
        match self.audio_unavailable.take() {
            Some(unavailable) => {
                self.audio_unavailable = Some(AudioUnavailable { message: unavailable.message, retry_at: now });
            },
            None => {},
        }
        true
    }
}

impl Session {
    /// The synchronous half of a cached authentication: the attempt is in
    /// flight under a new generation (making every event of the old player
    /// stale), the session is not ready, and the message is cleared. Unless
    /// the active playback is to be preserved across the reconnect, the
    /// intent to play and to resume is dropped too. Answers the attempt's
    /// generation.
    pub fn begin_cached_authentication(&mut self, preserve_active_playback: bool) -> (generation: u64)
        ensures
            generation == next_generation(old(self).generation),
            final(self).generation == generation,
            final(self).auth_running,
            final(self).auth_generation == generation,
            !final(self).ready,
            final(self).auth_state == AuthState::Authenticating,
            final(self).error is None,
            final(self).playing == (old(self).playing && preserve_active_playback),
            final(self).resume_after_reconnect == (old(self).resume_after_reconnect
                && preserve_active_playback),
            final(self).has_queue == old(self).has_queue,
    {
        if !preserve_active_playback {
            self.resume_after_reconnect = false;
            self.playing = false;
        }
        self.auth_running = true;
        self.generation = self.generation.wrapping_add(1);
        self.auth_generation = self.generation;
        self.ready = false;
        self.auth_state = AuthState::Authenticating;
        self.error = None;
        self.generation
    }

    /// Whether a login request starts a flow: not while a session is live,
    /// nor while a flow is already running.
    pub fn login_starts_flow(&self) -> (starts: bool)
        ensures
            starts == (self.auth_state != AuthState::Ready && !self.auth_running),
    {
        self.auth_state != AuthState::Ready && !self.auth_running
    }

    /// The synchronous half of an interactive login, once its callback port
    /// is bound: the flow is in flight under a new generation, and nothing
    /// plays. Answers the flow's generation.
    pub fn begin_login_flow(&mut self) -> (generation: u64)
        ensures
            generation == next_generation(old(self).generation),
            final(self).generation == generation,
            final(self).auth_running,
            final(self).auth_generation == generation,
            !final(self).ready,
            final(self).auth_state == AuthState::Authenticating,
            !final(self).playing,
            final(self).error is None,
    {
        self.auth_running = true;
        self.generation = self.generation.wrapping_add(1);
        self.auth_generation = self.generation;
        self.ready = false;
        self.auth_state = AuthState::Authenticating;
        self.playing = false;
        self.error = None;
        self.generation
    }

    /// Signs out: any attempt in flight is disowned (its answer arrives under
    /// an older generation and is stale) and the session is signed out.
    pub fn logout(&mut self)
        ensures
            !final(self).auth_running,
            final(self).generation == next_generation(old(self).generation),
            final(self).auth_state == AuthState::NeedsLogin,
            !final(self).ready,
            !final(self).playing,
            !final(self).has_queue,
            final(self).error is None,
    {
        self.auth_running = false;
        self.generation = self.generation.wrapping_add(1);
        self.enter_needs_login();
    }
}

/// What a change of the normalisation preference asks for.
#[derive(Clone, Copy, Debug, PartialEq, Eq, Structural)]
pub enum NormalisationStep {
    /// The preference already had that value: nothing changed.
    Unchanged,
    /// The preference changed; no live player is rebuilt (the engine is not
    /// ready, or no session is installed), and whatever builds the next
    /// player reads it.
    Recorded,
    /// The preference changed under a live session: build a new player with
    /// it, answering under `generation`.
    Rebuild { generation: u64 },
}

/// Why the engine cannot play now, if it cannot: the authentication stage
/// while not ready, else the missing output device while no player is
/// installed.
pub open spec fn readiness_fault(session: Session, has_player: bool) -> Option<Seq<char>> {
    if !session.ready {
        Some(
            match session.auth_state {
                AuthState::Authenticating => "Spotify authentication is still in progress"@,
                AuthState::NeedsLogin => "Spotify login is required; use the Log in button in Settings"@,
                AuthState::Error => match session.error {
                    Some(message) => message@,
                    None => "Spotify authentication failed"@,
                },
                AuthState::Ready => "the local audio player is unavailable"@,
            },
        )
    } else if has_player {
        None
    } else {
        Some(
            match session.audio_unavailable {
                Some(unavailable) => unavailable.message@,
                None => "the local audio player is unavailable"@,
            },
        )
    }
}

impl Session {
    /// Answers whether a playback command can run, `has_player` saying
    /// whether a player is installed; the error says what stands in the way.
    pub fn ensure_ready(&self, has_player: bool) -> (ready: Result<(), String>)
        ensures
            match ready {
                Ok(()) => readiness_fault(*self, has_player) is None,
                Err(message) => readiness_fault(*self, has_player) == Some(message@),
            },
    {
        if !self.ready {
            let message = match self.auth_state {
                AuthState::Authenticating => {
                    let text = "Spotify authentication is still in progress".to_owned();
                    proof {
                        reveal_strlit("Spotify authentication is still in progress");
                    }
                    text
                },
                AuthState::NeedsLogin => {
                    let text = "Spotify login is required; use the Log in button in Settings".to_owned();
                    proof {
                        reveal_strlit("Spotify login is required; use the Log in button in Settings");
                    }
                    text
                },
                AuthState::Error => match &self.error {
                    Some(text) => text.clone(),
                    None => {
                        let text = "Spotify authentication failed".to_owned();
                        proof {
                            reveal_strlit("Spotify authentication failed");
                        }
                        text
                    },
                },
                AuthState::Ready => {
                    let text = "the local audio player is unavailable".to_owned();
                    proof {
                        reveal_strlit("the local audio player is unavailable");
                    }
                    text
                },
            };
            return Err(message);
        }
        if has_player {
            return Ok(());
        }
        match &self.audio_unavailable {
            Some(unavailable) => Err(unavailable.message.clone()),
            None => {
                let text = "the local audio player is unavailable".to_owned();
                proof {
                    reveal_strlit("the local audio player is unavailable");
                }
                Err(text)
            },
        }
    }

    /// Sets the normalisation preference, `has_session` saying whether a
    /// session is installed. A change under a ready engine with a session
    /// rebuilds the player against that session; otherwise the preference
    /// waits for whatever builds the next player.
    pub fn set_normalisation(&mut self, enabled: bool, has_session: bool) -> (step: NormalisationStep)
        ensures
            *final(self) == (Session { normalisation: enabled, ..*old(self) }),
            step == if old(self).normalisation == enabled {
                NormalisationStep::Unchanged
            } else if !old(self).ready || !has_session {
                NormalisationStep::Recorded
            } else {
                NormalisationStep::Rebuild { generation: old(self).generation }
            },
    {
        let previous = self.normalisation;
        self.normalisation = enabled;
        if previous == enabled {
            return NormalisationStep::Unchanged;
        }
        if !self.ready || !has_session {
            return NormalisationStep::Recorded;
        }
        NormalisationStep::Rebuild { generation: self.generation }
    }
}

/// The refusal of a volume outside 0 to 100 percent.
pub open spec fn volume_range_message() -> Seq<char> {
    "volume percent must be between 0 and 100"@
}

/// The last error after a command succeeded: cleared, unless the machine has
/// no output device, which no command brings back.
pub open spec fn error_after_success(session: Session) -> Option<String> {
    if session.audio_unavailable is None {
        None
    } else {
        session.error
    }
}

impl Session {
    /// Sets the volume to `percent`. Refuses a value over 100. A volume
    /// travels on its own lane, so a success never asks for a full state:
    /// the answer is `Ok(false)` whether or not the volume moved, and a
    /// caller that sees it move applies it to the mixer, writes the volume
    /// line and defers the cache write.
    pub fn set_volume(&mut self, percent: u8) -> (changed: Result<bool, String>)
        ensures
            percent > 100 ==> *final(self) == *old(self),
            percent > 100 ==> (changed matches Err(message) && message@ == volume_range_message()),
            percent <= 100 && old(self).volume == percent ==> *final(self) == *old(self)
                && changed == Ok::<bool, String>(false),
            percent <= 100 && old(self).volume != percent ==> changed == Ok::<bool, String>(false)
                && *final(self) == (Session {
                volume: percent,
                error: error_after_success(*old(self)),
                ..*old(self)
            }),
    {
        if percent > 100 {
            let message = "volume percent must be between 0 and 100".to_owned();
            proof {
                reveal_strlit("volume percent must be between 0 and 100");
            }
            return Err(message);
        }
        if self.volume == percent {
            return Ok(false);
        }
        self.volume = percent;
        if self.audio_unavailable.is_none() {
            self.error = None;
        }
        Ok(false)
    }
}

/// Moving the generation on never lands back on it, so an answer stamped
/// with the generation an attempt started under is stale once a logout, a
/// new attempt or a rebuild has moved it on.
pub proof fn lemma_a_new_generation_differs(attempt_generation: u64)
    ensures
        next_generation(attempt_generation) != attempt_generation,
{
}

/// However many reconnects fail, the wait between them never passes the
/// ceiling.
pub proof fn lemma_reconnect_backoff_is_capped(backoff_ms: u64)
    ensures
        doubled_backoff(backoff_ms) <= RECONNECT_BACKOFF_MAX_MS,
        backoff_ms <= RECONNECT_BACKOFF_MAX_MS / 2 ==> doubled_backoff(backoff_ms) == 2 * backoff_ms,
{
}


impl Session {
    /// A session that has not authenticated yet: nothing in flight, no
    /// error, no queue, at `volume` percent with the normalisation
    /// preference `normalisation`, and every backoff at its minimum.
    pub fn new(volume: u8, normalisation: bool) -> (session: Session)
        ensures
            session.generation == 0,
            !session.auth_running,
            session.auth_generation == 0,
            !session.resume_after_reconnect,
            !session.ready,
            session.auth_state == AuthState::Authenticating,
            session.error is None,
            session.volume == volume,
            !session.has_queue,
            !session.playing,
            session.normalisation == normalisation,
            session.next_reconnect is None,
            session.reconnect_backoff_ms == RECONNECT_BACKOFF_MIN_MS,
            !session.awaiting_transport_retry,
            session.audio_unavailable is None,
            session.audio_probe_backoff_ms == AUDIO_PROBE_BACKOFF_MIN_MS,
            !session.current_needs_load,
    {
        Session {
            generation: 0,
            auth_running: false,
            auth_generation: 0,
            resume_after_reconnect: false,
            ready: false,
            auth_state: AuthState::Authenticating,
            error: None,
            volume,
            has_queue: false,
            playing: false,
            normalisation,
            next_reconnect: None,
            reconnect_backoff_ms: RECONNECT_BACKOFF_MIN_MS,
            awaiting_transport_retry: false,
            audio_unavailable: None,
            audio_probe_backoff_ms: AUDIO_PROBE_BACKOFF_MIN_MS,
            current_needs_load: false,
        }
    }
}


impl Session {
    /// Shuts the engine down: any attempt in flight is disowned, answers
    /// still travelling become stale, and the engine is neither ready nor
    /// playing.
    pub fn shutdown(&mut self)
        ensures
            *final(self) == (Session {
                auth_running: false,
                generation: next_generation(old(self).generation),
                ready: false,
                playing: false,
                ..*old(self)
            }),
    {
        self.auth_running = false;
        self.generation = self.generation.wrapping_add(1);
        self.ready = false;
        self.playing = false;
    }
}


/// Why there is no session to browse with, by authentication stage.
pub open spec fn no_session_message(session: Session) -> Seq<char> {
    match session.auth_state {
        AuthState::Authenticating => "Spotify authentication is still in progress"@,
        AuthState::NeedsLogin => "Spotify login is required; use the Log in button in Settings"@,
        AuthState::Error => match session.error {
            Some(message) => message@,
            None => "Spotify authentication failed"@,
        },
        AuthState::Ready => "the Spotify session is unavailable"@,
    }
}

impl Session {
    /// A copy of the installed service session for browse work, which needs
    /// no player; without one, the authentication stage says why.
    pub fn browse_session_clone<S: Clone>(&self, installed: &Option<S>) -> (browse: Result<S, String>)
        ensures
            browse is Ok <==> installed is Some,
            browse matches Err(message) ==> message@ == no_session_message(*self),
    {
        match installed {
            Some(session) => Ok(session.clone()),
            None => {
                let message = match self.auth_state {
                    AuthState::Authenticating => {
                        let text = "Spotify authentication is still in progress".to_owned();
                        proof {
                            reveal_strlit("Spotify authentication is still in progress");
                        }
                        text
                    },
                    AuthState::NeedsLogin => {
                        let text = "Spotify login is required; use the Log in button in Settings".to_owned();
                        proof {
                            reveal_strlit("Spotify login is required; use the Log in button in Settings");
                        }
                        text
                    },
                    AuthState::Error => match &self.error {
                        Some(text) => text.clone(),
                        None => {
                            let text = "Spotify authentication failed".to_owned();
                            proof {
                                reveal_strlit("Spotify authentication failed");
                            }
                            text
                        },
                    },
                    AuthState::Ready => {
                        let text = "the Spotify session is unavailable".to_owned();
                        proof {
                            reveal_strlit("the Spotify session is unavailable");
                        }
                        text
                    },
                };
                Err(message)
            },
        }
    }
}

} // verus!
