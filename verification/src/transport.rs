use crate::model::LoopRange;
use crate::timing::{end_of_track_is_genuine, ABNORMAL_END_REMAINDER_MS};
use vstd::prelude::*;

verus! {

/// What the player reports about the track it is handling. The track is
/// named by its URI, or `None` when the player's id has no URI form.
pub enum TransportEvent {
    /// The player numbered its next play request.
    PlayRequestIdChanged { play_request_id: u64 },
    Loading { play_request_id: u64, track_uri: Option<String>, position_ms: u32 },
    Playing { play_request_id: u64, track_uri: Option<String>, position_ms: u32 },
    Paused { play_request_id: u64, track_uri: Option<String>, position_ms: u32 },
    PositionChanged { play_request_id: u64, track_uri: Option<String>, position_ms: u32 },
    PositionCorrection { play_request_id: u64, track_uri: Option<String>, position_ms: u32 },
    Seeked { play_request_id: u64, track_uri: Option<String>, position_ms: u32 },
    EndOfTrack { play_request_id: u64, track_uri: Option<String> },
    Unavailable { play_request_id: u64, track_uri: Option<String> },
    Stopped { play_request_id: u64, track_uri: Option<String> },
    /// Anything else the player says, which the transport ignores.
    Other,
}

/// What the audio pipeline reports, stamped with the revision of the
/// pipeline that produced it.
pub enum AudioSignal {
    /// The first packet of the current load reached the output.
    Output { revision: u64 },
    /// The audible playhead reached the start of the loop it is to repeat.
    LoopBoundary { position_ms: u32, revision: u64 },
    /// The output stopped taking audio mid-write.
    OutputStalled { revision: u64 },
}

/// What the transport asks the engine around it to do after an event.
#[derive(Clone, Copy, Debug, PartialEq, Eq, Structural)]
pub enum TransportAction {
    Nothing,
    /// Begin (or resume) the listening-history row of the current track.
    StartListening,
    /// Stop the listening clock: the player paused on its own.
    PauseListening,
    /// Retire the listening-history row: the player stopped.
    FinalizeListening,
    /// Treat the current load as failed.
    FailCurrentLoad,
    /// Load the current track again at the current loop pass.
    ReloadAtLoopPass { start_playing: bool },
    /// Seek the current source to the loop's start for the next pass.
    SeekAtLoopPass { position_ms: u32 },
    /// Move on to the next row, as at the end of a track.
    Advance,
    /// Count a failed preload against the service.
    RecordPreloadFailure,
    /// Note an event the transport refused.
    LogIgnored,
    /// The output stopped draining: give up the player, as when the device
    /// is missing, and keep the intent to play.
    OutputStalled,
}

/// What the engine observed about the track when the player says it ended.
pub struct EndContext {
    /// How far into the current track's compiled timeline the playhead is.
    pub played_ms: u32,
    /// The length of the current track's compiled timeline.
    pub compiled_duration_ms: u32,
    /// The current track's loop, if it has one.
    pub current_loop: Option<LoopRange>,
}

/// The transport's view of the current load: which play request and row it
/// belongs to, and the playhead as the engine reports it.
pub struct Transport {
    /// The player's current play request.
    pub play_request_id: Option<u64>,
    /// The URI of the current queue row, if there is one.
    pub current_uri: Option<String>,
    pub playing: bool,
    pub position_ms: u32,
    pub duration_ms: u32,
    /// The position last reported and when (monotonic milliseconds).
    pub position_anchor: Option<(u32, u64)>,
    /// The message the state carries, if any.
    pub error: Option<String>,
    /// The player reported the current load unavailable.
    pub loading_failed: bool,
    /// A loop jump was asked for and not yet confirmed by the player.
    pub loop_jump_pending: bool,
    /// A playing seek is between its pause and its play.
    pub seek_in_flight: bool,
    /// The decoder reached its end while a loop boundary was still draining.
    pub loop_decoder_eof: bool,
    /// One-based audible pass through the current loop.
    pub loop_pass: u32,
    /// The revision the audio signals must carry to be about this pipeline.
    pub audio_revision: u64,
    /// The current load has produced audio.
    pub current_load_produced_audio: bool,
    /// The machine has no usable output device.
    pub audio_unavailable: bool,
}

/// Whether an event is about the current load: the player's current play
/// request and the current row's URI.
pub open spec fn current_event(t: Transport, play_request_id: u64, track_uri: Option<String>) -> bool {
    &&& t.play_request_id == Some(play_request_id)
    &&& t.current_uri is Some
    &&& track_uri is Some
    &&& track_uri->0@ == t.current_uri->0@
}

/// A reported position clamped to the row's duration.
pub open spec fn clamped(position_ms: u32, duration_ms: u32) -> u32 {
    if position_ms <= duration_ms {
        position_ms
    } else {
        duration_ms
    }
}

/// `t` with its playhead set to `position_ms` (clamped) and anchored at
/// `now`.
pub open spec fn positioned(t: Transport, position_ms: u32, now: u64) -> Transport {
    Transport {
        position_ms: clamped(position_ms, t.duration_ms),
        position_anchor: Some((clamped(position_ms, t.duration_ms), now)),
        ..t
    }
}

/// Whether an end of track reported for the current load is a track that
/// finished rather than one that broke: the load produced audio, and either
/// a loop is active or what is left of the compiled timeline is within the
/// abnormal-end remainder. A load that never produced audio did not finish,
/// wherever its playhead is.
pub open spec fn genuine_end(t: Transport, end: EndContext) -> bool {
    t.current_load_produced_audio && (end.current_loop is Some || (if end.compiled_duration_ms
        >= end.played_ms {
        end.compiled_duration_ms - end.played_ms
    } else {
        0
    }) <= ABNORMAL_END_REMAINDER_MS)
}

/// What a transport event does: the next state, whether a state event is
/// owed, and what the engine must do.
pub open spec fn transport_step(t: Transport, event: TransportEvent, end: EndContext, now: u64) -> (
    Transport,
    bool,
    TransportAction,
) {
    match event {
        TransportEvent::PlayRequestIdChanged { play_request_id } => (
            Transport { play_request_id: Some(play_request_id), ..t },
            false,
            TransportAction::Nothing,
        ),
        TransportEvent::Loading { play_request_id, track_uri, position_ms } => if current_event(
            t,
            play_request_id,
            track_uri,
        ) {
            (
                positioned(
                    Transport { loading_failed: false, loop_jump_pending: false, error: None, ..t },
                    position_ms,
                    now,
                ),
                true,
                TransportAction::Nothing,
            )
        } else {
            (t, false, TransportAction::Nothing)
        },
        TransportEvent::Playing { play_request_id, track_uri, position_ms } => if current_event(
            t,
            play_request_id,
            track_uri,
        ) {
            (
                positioned(
                    Transport {
                        seek_in_flight: false,
                        loading_failed: false,
                        loop_jump_pending: false,
                        playing: true,
                        error: None,
                        ..t
                    },
                    position_ms,
                    now,
                ),
                !t.playing || t.error is Some,
                TransportAction::StartListening,
            )
        } else {
            (t, false, TransportAction::LogIgnored)
        },
        TransportEvent::Paused { play_request_id, track_uri, position_ms } => if current_event(
            t,
            play_request_id,
            track_uri,
        ) {
            if t.seek_in_flight {
                (t, false, TransportAction::Nothing)
            } else {
                (
                    positioned(
                        Transport { loading_failed: false, playing: false, ..t },
                        position_ms,
                        now,
                    ),
                    t.playing || t.position_ms != clamped(position_ms, t.duration_ms),
                    if t.playing {
                        TransportAction::PauseListening
                    } else {
                        TransportAction::Nothing
                    },
                )
            }
        } else {
            (t, false, TransportAction::LogIgnored)
        },
        TransportEvent::PositionChanged { play_request_id, track_uri, position_ms } => moved(
            t,
            play_request_id,
            track_uri,
            position_ms,
            now,
        ),
        TransportEvent::PositionCorrection { play_request_id, track_uri, position_ms } => moved(
            t,
            play_request_id,
            track_uri,
            position_ms,
            now,
        ),
        TransportEvent::Seeked { play_request_id, track_uri, position_ms } => moved(
            t,
            play_request_id,
            track_uri,
            position_ms,
            now,
        ),
        TransportEvent::EndOfTrack { play_request_id, track_uri } => if current_event(
            t,
            play_request_id,
            track_uri,
        ) {
            if !genuine_end(t, end) {
                (t, true, TransportAction::FailCurrentLoad)
            } else if end.current_loop is Some && t.loop_pass < end.current_loop->0.play_count {
                if t.loop_jump_pending {
                    (
                        positioned(t, end.current_loop->0.start_ms, now),
                        true,
                        TransportAction::ReloadAtLoopPass { start_playing: t.playing },
                    )
                } else {
                    (Transport { loop_decoder_eof: true, ..t }, false, TransportAction::Nothing)
                }
            } else {
                (t, true, TransportAction::Advance)
            }
        } else {
            (t, false, TransportAction::LogIgnored)
        },
        TransportEvent::Unavailable { play_request_id, track_uri } => if current_event(
            t,
            play_request_id,
            track_uri,
        ) {
            (t, true, TransportAction::FailCurrentLoad)
        } else if t.play_request_id == Some(play_request_id) {
            (t, false, TransportAction::RecordPreloadFailure)
        } else {
            (t, false, TransportAction::LogIgnored)
        },
        TransportEvent::Stopped { play_request_id, track_uri } => if current_event(
            t,
            play_request_id,
            track_uri,
        ) {
            (Transport { playing: false, ..t }, true, TransportAction::FinalizeListening)
        } else {
            (t, false, TransportAction::LogIgnored)
        },
        TransportEvent::Other => (t, false, TransportAction::Nothing),
    }
}

/// A reported position: news only when it differs from the one held.
pub open spec fn moved(t: Transport, play_request_id: u64, track_uri: Option<String>, position_ms: u32, now: u64) -> (
    Transport,
    bool,
    TransportAction,
) {
    if current_event(t, play_request_id, track_uri) {
        (
            positioned(t, position_ms, now),
            t.position_ms != clamped(position_ms, t.duration_ms),
            TransportAction::Nothing,
        )
    } else {
        (t, false, TransportAction::Nothing)
    }
}

/// What an audio signal does: the next state, whether a state event is
/// owed, and what the engine must do. Signals from another pipeline
/// revision are dropped.
pub open spec fn audio_step(t: Transport, signal: AudioSignal, current_loop: Option<LoopRange>, now: u64) -> (
    Transport,
    bool,
    TransportAction,
) {
    match signal {
        AudioSignal::Output { revision } => if revision != t.audio_revision
            || t.current_load_produced_audio {
            (t, false, TransportAction::Nothing)
        } else {
            (
                positioned(Transport { current_load_produced_audio: true, ..t }, t.position_ms, now),
                true,
                TransportAction::Nothing,
            )
        },
        AudioSignal::LoopBoundary { position_ms, revision } => if revision != t.audio_revision
            || current_loop is None || current_loop->0.start_ms != position_ms || t.loop_pass
            >= current_loop->0.play_count {
            (t, false, TransportAction::Nothing)
        } else {
            let jumped = Transport {
                loop_pass: (t.loop_pass + 1) as u32,
                loop_jump_pending: true,
                ..t
            };
            if t.loop_decoder_eof {
                (
                    positioned(jumped, position_ms, now),
                    true,
                    TransportAction::ReloadAtLoopPass { start_playing: t.playing },
                )
            } else {
                (jumped, true, TransportAction::SeekAtLoopPass { position_ms })
            }
        },
        AudioSignal::OutputStalled { revision } => if revision != t.audio_revision
            || t.audio_unavailable {
            (t, false, TransportAction::Nothing)
        } else {
            (
                Transport {
                    playing: t.current_uri is Some && (t.playing || t.current_load_produced_audio),
                    ..t
                },
                true,
                TransportAction::OutputStalled,
            )
        },
    }
}

/// Whether two optional URIs name the same track, both present.
fn same_uri(reported: &Option<String>, current: &Option<String>) -> (same: bool)
    ensures
        same == (reported is Some && current is Some && reported->0@ == current->0@),
{
    match (reported, current) {
        (Some(a), Some(b)) => *a == *b,
        _ => false,
    }
}

impl Transport {
    /// The playhead never runs past the row's end.
    pub open spec fn inv(&self) -> bool {
        self.position_ms <= self.duration_ms
    }

    /// Whether an event is about the current load.
    pub fn is_current_event(&self, play_request_id: u64, track_uri: &Option<String>) -> (current: bool)
        ensures
            current == current_event(*self, play_request_id, *track_uri),
    {
        match self.play_request_id {
            Some(id) => id == play_request_id && same_uri(track_uri, &self.current_uri),
            None => false,
        }
    }

    /// Records an authoritative playback position, clamped to the row's
    /// duration, and anchors the projection at `now`.
    pub fn update_position(&mut self, position_ms: u32, now: u64)
        ensures
            *final(self) == positioned(*old(self), position_ms, now),
    {
        let clamped = if position_ms <= self.duration_ms {
            position_ms
        } else {
            self.duration_ms
        };
        self.position_ms = clamped;
        self.position_anchor = Some((clamped, now));
    }

    /// The state a failed load or loop jump leaves: not playing, with the
    /// failure as the state's message.
    pub fn load_failed(&mut self, error: String)
        ensures
            *final(self) == (Transport { playing: false, error: Some(error), ..*old(self) }),
    {
        self.playing = false;
        self.error = Some(error);
    }

    /// Applies one player event at `now`, with what the engine observed
    /// about the track's end, and answers whether a state event is owed and
    /// what the engine must do.
    pub fn on_player_event(&mut self, event: TransportEvent, end: EndContext, now: u64) -> (reaction: (
        bool,
        TransportAction,
    ))
        ensures
            ({
                let (next, emit, action) = transport_step(*old(self), event, end, now);
                *final(self) == next && reaction == (emit, action)
            }),
            old(self).inv() ==> final(self).inv(),
    {
        match event {
            TransportEvent::PlayRequestIdChanged { play_request_id } => {
                self.play_request_id = Some(play_request_id);
                (false, TransportAction::Nothing)
            },
            TransportEvent::Loading { play_request_id, track_uri, position_ms } => {
                if !self.is_current_event(play_request_id, &track_uri) {
                    return (false, TransportAction::Nothing);
                }
                self.loading_failed = false;
                self.loop_jump_pending = false;
                self.error = None;
                self.update_position(position_ms, now);
                (true, TransportAction::Nothing)
            },
            TransportEvent::Playing { play_request_id, track_uri, position_ms } => {
                if !self.is_current_event(play_request_id, &track_uri) {
                    return (false, TransportAction::LogIgnored);
                }
                self.seek_in_flight = false;
                self.loading_failed = false;
                self.loop_jump_pending = false;
                let was_playing = self.playing;
                let was_failed = self.error.is_some();
                self.playing = true;
                self.error = None;
                self.update_position(position_ms, now);
                (!was_playing || was_failed, TransportAction::StartListening)
            },
            TransportEvent::Paused { play_request_id, track_uri, position_ms } => {
                if !self.is_current_event(play_request_id, &track_uri) {
                    return (false, TransportAction::LogIgnored);
                }
                if self.seek_in_flight {
                    return (false, TransportAction::Nothing);
                }
                self.loading_failed = false;
                let was_playing = self.playing;
                let clamped = if position_ms <= self.duration_ms {
                    position_ms
                } else {
                    self.duration_ms
                };
                let position_moved = self.position_ms != clamped;
                self.playing = false;
                self.update_position(position_ms, now);
                let action = if was_playing {
                    TransportAction::PauseListening
                } else {
                    TransportAction::Nothing
                };
                (was_playing || position_moved, action)
            },
            TransportEvent::PositionChanged { play_request_id, track_uri, position_ms } => {
                self.report_position(play_request_id, &track_uri, position_ms, now)
            },
            TransportEvent::PositionCorrection { play_request_id, track_uri, position_ms } => {
                self.report_position(play_request_id, &track_uri, position_ms, now)
            },
            TransportEvent::Seeked { play_request_id, track_uri, position_ms } => {
                self.report_position(play_request_id, &track_uri, position_ms, now)
            },
            TransportEvent::EndOfTrack { play_request_id, track_uri } => {
                if !self.is_current_event(play_request_id, &track_uri) {
                    return (false, TransportAction::LogIgnored);
                }
                let loop_active = match end.current_loop {
                    Some(_) => true,
                    None => false,
                };
                if !end_of_track_is_genuine(
                    self.current_load_produced_audio,
                    loop_active,
                    end.played_ms,
                    end.compiled_duration_ms,
                ) {
                    return (true, TransportAction::FailCurrentLoad);
                }
                match end.current_loop {
                    Some(range) => {
                        if self.loop_pass < range.play_count {
                            if self.loop_jump_pending {
                                let start_playing = self.playing;
                                self.update_position(range.start_ms, now);
                                return (true, TransportAction::ReloadAtLoopPass { start_playing });
                            }
                            self.loop_decoder_eof = true;
                            return (false, TransportAction::Nothing);
                        }
                    },
                    None => {},
                }
                (true, TransportAction::Advance)
            },
            TransportEvent::Unavailable { play_request_id, track_uri } => {
                if self.is_current_event(play_request_id, &track_uri) {
                    return (true, TransportAction::FailCurrentLoad);
                }
                match self.play_request_id {
                    Some(id) => {
                        if id == play_request_id {
                            return (false, TransportAction::RecordPreloadFailure);
                        }
                    },
                    None => {},
                }
                (false, TransportAction::LogIgnored)
            },
            TransportEvent::Stopped { play_request_id, track_uri } => {
                if !self.is_current_event(play_request_id, &track_uri) {
                    return (false, TransportAction::LogIgnored);
                }
                self.playing = false;
                (true, TransportAction::FinalizeListening)
            },
            TransportEvent::Other => (false, TransportAction::Nothing),
        }
    }

    /// A position the player reports for the current load.
    fn report_position(&mut self, play_request_id: u64, track_uri: &Option<String>, position_ms: u32, now: u64) -> (reaction: (
        bool,
        TransportAction,
    ))
        ensures
            ({
                let (next, emit, action) = moved(*old(self), play_request_id, *track_uri, position_ms, now);
                *final(self) == next && reaction == (emit, action)
            }),
    {
        if !self.is_current_event(play_request_id, track_uri) {
            return (false, TransportAction::Nothing);
        }
        let clamped = if position_ms <= self.duration_ms {
            position_ms
        } else {
            self.duration_ms
        };
        let position_moved = self.position_ms != clamped;
        self.update_position(position_ms, now);
        (position_moved, TransportAction::Nothing)
    }

    /// Applies one audio signal at `now`, given the current track's loop,
    /// and answers whether a state event is owed and what the engine must
    /// do.
    pub fn on_audio_signal(&mut self, signal: AudioSignal, current_loop: Option<LoopRange>, now: u64) -> (reaction: (
        bool,
        TransportAction,
    ))
        ensures
            ({
                let (next, emit, action) = audio_step(*old(self), signal, current_loop, now);
                *final(self) == next && reaction == (emit, action)
            }),
            old(self).inv() ==> final(self).inv(),
    {
        match signal {
            AudioSignal::Output { revision } => {
                if revision != self.audio_revision || self.current_load_produced_audio {
                    return (false, TransportAction::Nothing);
                }
                self.current_load_produced_audio = true;
                let position = self.position_ms;
                self.update_position(position, now);
                (true, TransportAction::Nothing)
            },
            AudioSignal::LoopBoundary { position_ms, revision } => {
                if revision != self.audio_revision {
                    return (false, TransportAction::Nothing);
                }
                let range = match current_loop {
                    Some(range) => range,
                    None => {
                        return (false, TransportAction::Nothing);
                    },
                };
                if range.start_ms != position_ms || self.loop_pass >= range.play_count {
                    return (false, TransportAction::Nothing);
                }
                self.loop_pass = self.loop_pass + 1;
                self.loop_jump_pending = true;
                if self.loop_decoder_eof {
                    let start_playing = self.playing;
                    self.update_position(position_ms, now);
                    (true, TransportAction::ReloadAtLoopPass { start_playing })
                } else {
                    (true, TransportAction::SeekAtLoopPass { position_ms })
                }
            },
            AudioSignal::OutputStalled { revision } => {
                if revision != self.audio_revision || self.audio_unavailable {
                    return (false, TransportAction::Nothing);
                }
                self.playing = self.current_uri.is_some() && (self.playing
                    || self.current_load_produced_audio);
                (true, TransportAction::OutputStalled)
            },
        }
    }
}

/// The play request and track an event is about, for the events that name
/// one.
pub open spec fn event_target(event: TransportEvent) -> Option<(u64, Option<String>)> {
    match event {
        TransportEvent::Loading { play_request_id, track_uri, .. } => Some((play_request_id, track_uri)),
        TransportEvent::Playing { play_request_id, track_uri, .. } => Some((play_request_id, track_uri)),
        TransportEvent::Paused { play_request_id, track_uri, .. } => Some((play_request_id, track_uri)),
        TransportEvent::PositionChanged { play_request_id, track_uri, .. } => Some(
            (play_request_id, track_uri),
        ),
        TransportEvent::PositionCorrection { play_request_id, track_uri, .. } => Some(
            (play_request_id, track_uri),
        ),
        TransportEvent::Seeked { play_request_id, track_uri, .. } => Some((play_request_id, track_uri)),
        TransportEvent::EndOfTrack { play_request_id, track_uri } => Some((play_request_id, track_uri)),
        TransportEvent::Unavailable { play_request_id, track_uri } => Some((play_request_id, track_uri)),
        TransportEvent::Stopped { play_request_id, track_uri } => Some((play_request_id, track_uri)),
        _ => None,
    }
}

/// An event about a load that is not the current one moves nothing and
/// owes no state: the engine cannot be steered by a player it has moved on
/// from.
pub proof fn lemma_stale_events_change_nothing(t: Transport, event: TransportEvent, end: EndContext, now: u64)
    requires
        event_target(event) matches Some(target) && !current_event(t, target.0, target.1),
    ensures
        transport_step(t, event, end, now).0 == t,
        !transport_step(t, event, end, now).1,
{
}

/// The transient pause of a playing seek is swallowed: it neither moves
/// the transport nor owes a state event.
pub proof fn lemma_seek_pause_is_swallowed(t: Transport, play_request_id: u64, track_uri: Option<String>, position_ms: u32, end: EndContext, now: u64)
    requires
        t.seek_in_flight,
        current_event(t, play_request_id, track_uri),
    ensures
        transport_step(t, TransportEvent::Paused { play_request_id, track_uri, position_ms }, end, now)
            == (t, false, TransportAction::Nothing),
{
}

/// The first audio of a load is news once: the same signal again changes
/// nothing.
pub proof fn lemma_first_audio_is_news_once(t: Transport, revision: u64, current_loop: Option<LoopRange>, now: u64, later: u64)
    ensures
        ({
            let once = audio_step(t, AudioSignal::Output { revision }, current_loop, now).0;
            audio_step(once, AudioSignal::Output { revision }, current_loop, later) == (
                once,
                false,
                TransportAction::Nothing,
            )
        }),
{
}

/// A loop is played at most its count of passes: a boundary signal never
/// takes the pass past the loop's play count.
pub proof fn lemma_loop_passes_are_bounded(t: Transport, signal: AudioSignal, current_loop: Option<LoopRange>, now: u64)
    requires
        current_loop matches Some(range) && t.loop_pass <= range.play_count,
    ensures
        audio_step(t, signal, current_loop, now).0.loop_pass <= current_loop->0.play_count,
{
}

/// Why a transport command is refused.
#[derive(Clone, Copy, Debug, PartialEq, Eq, Structural)]
pub enum TransportError {
    /// The queue has no current row.
    NoCurrentTrack,
}

/// How Play reaches the player.
#[derive(Clone, Copy, Debug, PartialEq, Eq, Structural)]
pub enum PlayStep {
    /// No output device: the intent is kept and the row marked unloaded, so
    /// playback starts when a device appears.
    Deferred,
    /// There is no live load to resume: load the current row, playing;
    /// from its start when it had simply run off its end.
    Load { restart: bool },
    /// Tell the player to resume.
    Resume,
}

/// How Pause reaches the player.
#[derive(Clone, Copy, Debug, PartialEq, Eq, Structural)]
pub enum PauseStep {
    /// No output device: nothing is audible, only the intent changes.
    Silent,
    /// Tell the player to pause first.
    Player,
}

/// How a seek reaches the player.
#[derive(Clone, Copy, Debug, PartialEq, Eq, Structural)]
pub enum SeekStep {
    /// The decoder already ended, or the load failed: load the row again at
    /// the new position with this intent.
    Reload { start_playing: bool },
    /// No load exists yet: the new position is simply where it will start.
    Installed,
    /// Pause the player, seek, and play again when `resume`.
    Player { resume: bool },
}

/// The pass through the loop a position belongs to: the final pass at or
/// after the loop's end, the first before it.
pub open spec fn pass_for(current_loop: Option<LoopRange>, position_ms: u32) -> u32 {
    match current_loop {
        Some(range) => if position_ms >= range.end_ms {
            if range.play_count >= 1 {
                range.play_count
            } else {
                1
            }
        } else {
            1
        },
        None => 1,
    }
}

/// The pass through the loop a position belongs to.
pub fn loop_pass_for_position(current_loop: Option<LoopRange>, position_ms: u32) -> (pass: u32)
    ensures
        pass == pass_for(current_loop, position_ms),
{
    match current_loop {
        Some(range) => {
            if position_ms >= range.end_ms {
                if range.play_count >= 1 {
                    range.play_count
                } else {
                    1
                }
            } else {
                1
            }
        },
        None => 1,
    }
}

impl Transport {
    /// What Play has to do, given whether the current row still needs its
    /// first load: refused without a current row; deferred without an
    /// output device; a fresh load when the decoder ended, the row is
    /// unloaded, its load failed, or it ran off its end; a resume otherwise.
    pub fn play_plan(&self, current_needs_load: bool) -> (plan: Result<PlayStep, TransportError>)
        ensures
            self.current_uri is None ==> plan == Err::<PlayStep, TransportError>(TransportError::NoCurrentTrack),
            self.current_uri is Some && self.audio_unavailable ==> plan == Ok::<PlayStep, TransportError>(PlayStep::Deferred),
            self.current_uri is Some && !self.audio_unavailable ==> plan == Ok::<PlayStep, TransportError>(
                if self.loop_decoder_eof || current_needs_load || self.loading_failed || (self.duration_ms > 0
                    && self.position_ms >= self.duration_ms) {
                    PlayStep::Load { restart: !self.loading_failed && !current_needs_load }
                } else {
                    PlayStep::Resume
                },
            ),
    {
        if self.current_uri.is_none() {
            return Err(TransportError::NoCurrentTrack);
        }
        if self.audio_unavailable {
            return Ok(PlayStep::Deferred);
        }
        let reload = self.loop_decoder_eof || current_needs_load || self.loading_failed || (
        self.duration_ms > 0 && self.position_ms >= self.duration_ms);
        if reload {
            Ok(PlayStep::Load { restart: !self.loading_failed && !current_needs_load })
        } else {
            Ok(PlayStep::Resume)
        }
    }

    /// The transport once Play went through at `now`: playing, anchored
    /// where it stands, and without a message. A deferred play only records
    /// the intent.
    pub fn played(&mut self, step: PlayStep, now: u64)
        ensures
            step == PlayStep::Deferred ==> *final(self) == (Transport { playing: true, ..*old(self) }),
            step != PlayStep::Deferred ==> *final(self) == positioned(
                Transport { playing: true, error: None, ..*old(self) },
                old(self).position_ms,
                now,
            ),
    {
        self.playing = true;
        if step == PlayStep::Deferred {
            return;
        }
        let position = self.position_ms;
        self.update_position(position, now);
        self.error = None;
    }

    /// What Pause has to do: refused without a current row; silent without
    /// an output device; the player otherwise.
    pub fn pause_plan(&self) -> (plan: Result<PauseStep, TransportError>)
        ensures
            self.current_uri is None ==> plan == Err::<PauseStep, TransportError>(TransportError::NoCurrentTrack),
            self.current_uri is Some ==> plan == Ok::<PauseStep, TransportError>(
                if self.audio_unavailable {
                    PauseStep::Silent
                } else {
                    PauseStep::Player
                },
            ),
    {
        if self.current_uri.is_none() {
            return Err(TransportError::NoCurrentTrack);
        }
        if self.audio_unavailable {
            Ok(PauseStep::Silent)
        } else {
            Ok(PauseStep::Player)
        }
    }

    /// The transport once Pause went through at `now`: not playing, anchored
    /// where it stands. A pause the player was told of also supersedes any
    /// seek in flight and clears the message.
    pub fn paused(&mut self, step: PauseStep, now: u64)
        ensures
            step == PauseStep::Silent ==> *final(self) == positioned(
                Transport { playing: false, ..*old(self) },
                old(self).position_ms,
                now,
            ),
            step == PauseStep::Player ==> *final(self) == positioned(
                Transport { playing: false, seek_in_flight: false, error: None, ..*old(self) },
                old(self).position_ms,
                now,
            ),
    {
        self.playing = false;
        if step == PauseStep::Player {
            self.seek_in_flight = false;
            self.error = None;
        }
        let position = self.position_ms;
        self.update_position(position, now);
    }

    /// A user seek to `position_ms` in source time: clamped to the row,
    /// starting the loop pass over from where it lands, then carried out as
    /// [`Transport::seek_at_loop_pass`] carries it out.
    pub fn seek_source(&mut self, position_ms: u32, current_loop: Option<LoopRange>, current_needs_load: bool, now: u64) -> (plan: Result<SeekStep, TransportError>)
        ensures
            (*final(self), plan) == seek_step(
                pass_reset(*old(self), current_loop, clamped(position_ms, old(self).duration_ms)),
                clamped(position_ms, old(self).duration_ms),
                current_needs_load,
                now,
            ),
    {
        let clamped = if position_ms <= self.duration_ms {
            position_ms
        } else {
            self.duration_ms
        };
        self.loop_pass = loop_pass_for_position(current_loop, clamped);
        self.loop_jump_pending = false;
        self.seek_at_loop_pass(clamped, current_needs_load, now)
    }

    /// A seek within the current loop pass: refused without a current row;
    /// a reload when the decoder ended or the load failed; just a new start
    /// position when nothing is loaded; otherwise the player seeks, and a
    /// playing seek holds its transient pause open.
    pub fn seek_at_loop_pass(&mut self, position_ms: u32, current_needs_load: bool, now: u64) -> (plan: Result<SeekStep, TransportError>)
        ensures
            (*final(self), plan) == seek_step(*old(self), position_ms, current_needs_load, now),
    {
        if self.current_uri.is_none() {
            return Err(TransportError::NoCurrentTrack);
        }
        if self.loop_decoder_eof {
            let start_playing = self.playing;
            self.update_position(position_ms, now);
            return Ok(SeekStep::Reload { start_playing });
        }
        if current_needs_load {
            self.update_position(position_ms, now);
            self.error = None;
            return Ok(SeekStep::Installed);
        }
        if self.loading_failed {
            let start_playing = self.playing;
            self.update_position(position_ms, now);
            return Ok(SeekStep::Reload { start_playing });
        }
        let was_playing = self.playing;
        self.seek_in_flight = was_playing;
        Ok(SeekStep::Player { resume: was_playing })
    }

    /// The transport once a seek reached its position at `now`.
    pub fn seeked(&mut self, position_ms: u32, now: u64)
        ensures
            *final(self) == positioned(Transport { error: None, ..*old(self) }, position_ms, now),
    {
        self.update_position(position_ms, now);
        self.error = None;
    }

    /// Whether the listener is waiting on audio: playing is intended, but
    /// the load has produced nothing yet or has failed.
    pub fn buffering(&self) -> (waiting: bool)
        ensures
            waiting == (self.playing && (self.loading_failed || !self.current_load_produced_audio)),
    {
        self.playing && (self.loading_failed || !self.current_load_produced_audio)
    }
}

/// Whether a state event must carry the queue rows: only when the queue
/// revision moved since the last state that carried them.
pub fn rows_due(emitted_revision: Option<u64>, revision: u64) -> (due: bool)
    ensures
        due == (emitted_revision != Some(revision)),
{
    match emitted_revision {
        Some(emitted) => emitted != revision,
        None => true,
    }
}


impl Transport {
    /// An idle transport: nothing loaded, paused at zero, no error, the
    /// first loop pass, and signals accepted only under `audio_revision`.
    pub fn new(audio_revision: u64) -> (transport: Transport)
        ensures
            transport.inv(),
            transport.play_request_id is None,
            transport.current_uri is None,
            !transport.playing,
            transport.position_ms == 0,
            transport.duration_ms == 0,
            transport.position_anchor is None,
            transport.error is None,
            !transport.loading_failed,
            !transport.loop_jump_pending,
            !transport.seek_in_flight,
            !transport.loop_decoder_eof,
            transport.loop_pass == 1,
            transport.audio_revision == audio_revision,
            !transport.current_load_produced_audio,
            !transport.audio_unavailable,
    {
        Transport {
            play_request_id: None,
            current_uri: None,
            playing: false,
            position_ms: 0,
            duration_ms: 0,
            position_anchor: None,
            error: None,
            loading_failed: false,
            loop_jump_pending: false,
            seek_in_flight: false,
            loop_decoder_eof: false,
            loop_pass: 1,
            audio_revision,
            current_load_produced_audio: false,
            audio_unavailable: false,
        }
    }
}


impl Transport {
    /// Keeps the loop pass across a rebuild at `position_ms` that is not a
    /// seek: at or past the end of `current_loop` the pass is the completed
    /// one; otherwise the pass in progress survives (and is at least the
    /// first).
    pub fn preserve_loop_pass_for_position(&mut self, current_loop: Option<LoopRange>, position_ms: u32)
        ensures
            *final(self) == (Transport {
                loop_pass: match current_loop {
                    Some(range) if position_ms >= range.end_ms => pass_for(current_loop, position_ms),
                    _ => if old(self).loop_pass >= 1 {
                        old(self).loop_pass
                    } else {
                        1
                    },
                },
                ..*old(self)
            }),
    {
        let past_end = match current_loop {
            Some(range) => position_ms >= range.end_ms,
            None => false,
        };
        if past_end {
            self.loop_pass = loop_pass_for_position(current_loop, position_ms);
        } else if self.loop_pass < 1 {
            self.loop_pass = 1;
        }
    }
}


/// What a seek to `position_ms` within the current loop pass makes of `t`,
/// and the plan it answers: refused without a current row; a reload when
/// the decoder ended or the load failed; just a new start position when
/// nothing is loaded; otherwise the player seeks, and a playing seek holds
/// its transient pause open.
pub open spec fn seek_step(t: Transport, position_ms: u32, current_needs_load: bool, now: u64) -> (Transport, Result<SeekStep, TransportError>) {
    if t.current_uri is None {
        (t, Err(TransportError::NoCurrentTrack))
    } else if t.loop_decoder_eof || (!current_needs_load && t.loading_failed) {
        (positioned(t, position_ms, now), Ok(SeekStep::Reload { start_playing: t.playing }))
    } else if current_needs_load {
        (positioned(Transport { error: None, ..t }, position_ms, now), Ok(SeekStep::Installed))
    } else {
        (Transport { seek_in_flight: t.playing, ..t }, Ok(SeekStep::Player { resume: t.playing }))
    }
}

/// `t` with the loop pass started over for a seek landing at `position_ms`
/// of a row with `current_loop`, and any pending loop jump dropped.
pub open spec fn pass_reset(t: Transport, current_loop: Option<LoopRange>, position_ms: u32) -> Transport {
    Transport { loop_pass: pass_for(current_loop, position_ms), loop_jump_pending: false, ..t }
}


/// What each player event about the current load does: playing starts
/// the transport at the reported (clamped) position and starts the
/// listening row; a pause that is not a seek's stops it there and pauses a
/// playing row; a stop stops it and finalizes the row; a refusal, or an
/// end of a load that never produced audio, is a failed load; a reported
/// position moves the playhead there.
pub proof fn lemma_current_events_move_the_transport(
    t: Transport,
    play_request_id: u64,
    track_uri: Option<String>,
    position_ms: u32,
    end: EndContext,
    now: u64,
)
    requires
        current_event(t, play_request_id, track_uri),
    ensures
        ({
            let at = if position_ms <= t.duration_ms {
                position_ms
            } else {
                t.duration_ms
            };
            let playing = transport_step(
                t,
                TransportEvent::Playing { play_request_id, track_uri, position_ms },
                end,
                now,
            );
            let paused = transport_step(
                t,
                TransportEvent::Paused { play_request_id, track_uri, position_ms },
                end,
                now,
            );
            let stopped = transport_step(t, TransportEvent::Stopped { play_request_id, track_uri }, end, now);
            let refused = transport_step(t, TransportEvent::Unavailable { play_request_id, track_uri }, end, now);
            let ended = transport_step(t, TransportEvent::EndOfTrack { play_request_id, track_uri }, end, now);
            let seeked = transport_step(
                t,
                TransportEvent::Seeked { play_request_id, track_uri, position_ms },
                end,
                now,
            );
            let reported = transport_step(
                t,
                TransportEvent::PositionChanged { play_request_id, track_uri, position_ms },
                end,
                now,
            );
            &&& playing.0.playing && playing.0.position_ms == at && playing.0.error is None
            &&& playing.2 == TransportAction::StartListening
            &&& !t.seek_in_flight ==> !paused.0.playing && paused.0.position_ms == at
            &&& !t.seek_in_flight && t.playing ==> paused.1 && paused.2 == TransportAction::PauseListening
            &&& !stopped.0.playing && stopped.1 && stopped.2 == TransportAction::FinalizeListening
            &&& stopped.0.position_ms == t.position_ms
            &&& refused.0 == t && refused.1 && refused.2 == TransportAction::FailCurrentLoad
            &&& !t.current_load_produced_audio ==> ended.0 == t && ended.1 && ended.2
                == TransportAction::FailCurrentLoad
            &&& seeked.0.position_ms == at && seeked.0.playing == t.playing
            &&& reported.0.position_ms == at && reported.0.playing == t.playing
            &&& reported.1 == (t.position_ms != at)
        }),
{
}

} // verus!
