use crate::timing::{
    at_preload_watermark, pruned, LoadBursts, UnavailableBurst, LOAD_RETRY_BACKOFF_MS,
    TRACK_CHANGE_BURST_MINIMUM, TRACK_CHANGE_BURST_WINDOW_MS, UNAVAILABLE_BURST_WINDOW_MS,
    UNAVAILABLE_STOP_LIMIT,
};
use crate::model::RepeatMode;
use crate::planner::{advanced, next_row, QueueError, QueuePlan};
use crate::track_uri::{parsed_uri, play_fault, playable_track_uri};
use crate::transport::{positioned, transport_step, EndContext, Transport, TransportAction, TransportEvent};
use librespot_core::SpotifyUri;
use vstd::prelude::*;

verus! {

/// The decimal digits of `n`, most significant first.
pub open spec fn decimal_digits(n: nat) -> Seq<char>
    decreases n,
{
    if n < 10 {
        seq![digit_char(n)]
    } else {
        decimal_digits(n / 10).push(digit_char(n % 10))
    }
}

/// The character of one decimal digit.
pub open spec fn digit_char(d: nat) -> char {
    if d == 0 {
        '0'
    } else if d == 1 {
        '1'
    } else if d == 2 {
        '2'
    } else if d == 3 {
        '3'
    } else if d == 4 {
        '4'
    } else if d == 5 {
        '5'
    } else if d == 6 {
        '6'
    } else if d == 7 {
        '7'
    } else if d == 8 {
        '8'
    } else {
        '9'
    }
}

/// One decimal digit as text.
fn digit(d: usize) -> (text: &'static str)
    requires
        d < 10,
    ensures
        text@ == seq![digit_char(d as nat)],
{
    proof {
        reveal_strlit("0");
        reveal_strlit("1");
        reveal_strlit("2");
        reveal_strlit("3");
        reveal_strlit("4");
        reveal_strlit("5");
        reveal_strlit("6");
        reveal_strlit("7");
        reveal_strlit("8");
        reveal_strlit("9");
    }
    if d == 0 {
        "0"
    } else if d == 1 {
        "1"
    } else if d == 2 {
        "2"
    } else if d == 3 {
        "3"
    } else if d == 4 {
        "4"
    } else if d == 5 {
        "5"
    } else if d == 6 {
        "6"
    } else if d == 7 {
        "7"
    } else if d == 8 {
        "8"
    } else {
        "9"
    }
}

/// `n` written in decimal.
pub fn decimal_text(n: usize) -> (text: String)
    ensures
        text@ == decimal_digits(n as nat),
    decreases n,
{
    let mut text = if n < 10 {
        String::new()
    } else {
        decimal_text(n / 10)
    };
    let last = digit(n % 10);
    let ghost before = text@;
    text.append(last);
    proof {
        if n < 10 {
            assert(text@ =~= seq![digit_char(n as nat)]);
        } else {
            assert(text@ =~= before.push(digit_char((n % 10) as nat)));
        }
    }
    text
}

/// What happens after the current load failed.
#[derive(Clone, Copy, Debug, PartialEq, Eq, Structural)]
pub enum LoadFailureVerdict {
    /// Paused: hold the failed row and let the owner choose.
    HoldPaused,
    /// A run of failures: the service is refusing this client, so stop.
    StopRun { consecutive: usize },
    /// Give the row one more attempt at `at_ms`.
    RetryAt { at_ms: u64 },
    /// Move on to the next eligible row, skipping a repeat of this one.
    Skip,
}

/// What a failed load leaves for the engine around the transport.
#[derive(Clone, Copy, Debug, PartialEq, Eq, Structural)]
pub struct FailedLoad {
    pub verdict: LoadFailureVerdict,
    /// An isolated failure may be a corrupt cache entry: evict the track's
    /// cached audio.
    pub evict_cache: bool,
}

/// The retry and preload bookkeeping of the current load.
pub struct LoadRecovery {
    /// When the current row should be loaded once more.
    pub retry_current_at: Option<u64>,
    /// The load in flight already is that retry.
    pub current_load_is_retry: bool,
    /// The next track's preload has been asked for.
    pub preload_armed: bool,
}

/// The verdict on a failed load: a paused engine holds the row; a run that
/// reached the stop limit stops; a first failure retries after the backoff;
/// a failed retry skips.
pub open spec fn verdict_for(burst: UnavailableBurst, playing: bool, is_retry: bool, now: u64) -> LoadFailureVerdict {
    if !playing {
        LoadFailureVerdict::HoldPaused
    } else if burst.consecutive >= UNAVAILABLE_STOP_LIMIT {
        LoadFailureVerdict::StopRun { consecutive: burst.consecutive }
    } else if !is_retry {
        LoadFailureVerdict::RetryAt {
            at_ms: if now + LOAD_RETRY_BACKOFF_MS > u64::MAX {
                u64::MAX
            } else {
                (now + LOAD_RETRY_BACKOFF_MS) as u64
            },
        }
    } else {
        LoadFailureVerdict::Skip
    }
}

/// The message a failed load first shows.
pub open spec fn unavailable_message(track_uri: Seq<char>) -> Seq<char> {
    "Spotify track is unavailable: "@ + track_uri
}

/// The message a stopped run of failures shows.
pub open spec fn stopped_run_message(consecutive: usize) -> Seq<char> {
    "Spotify refused audio for "@ + decimal_digits(consecutive as nat)
        + " tracks in a row; playback stopped"@
}

/// The message while a retry is pending.
pub open spec fn retrying_message() -> Seq<char> {
    "Spotify refused audio for this track; retrying"@
}

/// The message a verdict leaves in the state.
pub open spec fn failure_message(verdict: LoadFailureVerdict, track_uri: Seq<char>) -> Seq<char> {
    match verdict {
        LoadFailureVerdict::StopRun { consecutive } => stopped_run_message(consecutive),
        LoadFailureVerdict::RetryAt { .. } => retrying_message(),
        _ => unavailable_message(track_uri),
    }
}

/// Whether the transport `t1`, the burst record (`changes1`,
/// `unavailable1`) and the recovery `r1` are what a failed load of the row
/// `track_uri` at `now` makes of `t0`, (`changes0`, `unavailable0`) and
/// `r0`, `failed` saying what comes next: the failure is counted; the failed play
/// request and its audio signals are let go; the intent to play is kept
/// unless a run of failures stops playback; the message says what the
/// verdict is; a retry is scheduled on its verdict; nothing else moves.
pub open spec fn load_failed(
    t0: Transport,
    t1: Transport,
    changes0: Seq<u64>,
    unavailable0: Seq<u64>,
    changes1: Seq<u64>,
    unavailable1: Seq<u64>,
    r0: LoadRecovery,
    r1: LoadRecovery,
    track_uri: Seq<char>,
    now: u64,
    failed: FailedLoad,
) -> bool {
    &&& changes1 == pruned(changes0, now, TRACK_CHANGE_BURST_WINDOW_MS)
    &&& unavailable1 == pruned(unavailable0, now, UNAVAILABLE_BURST_WINDOW_MS).push(now)
    &&& failed.evict_cache == !(pruned(unavailable0, now, UNAVAILABLE_BURST_WINDOW_MS).len() >= 1
        || pruned(changes0, now, TRACK_CHANGE_BURST_WINDOW_MS).len() >= TRACK_CHANGE_BURST_MINIMUM)
    &&& failed.verdict == verdict_for(
        UnavailableBurst { clustered: !failed.evict_cache, consecutive: unavailable1.len() as usize },
        t0.playing,
        r0.current_load_is_retry,
        now,
    )
    &&& t1 == Transport {
        seek_in_flight: false,
        loading_failed: true,
        play_request_id: None,
        audio_revision: if t0.audio_revision == u64::MAX {
            0
        } else {
            (t0.audio_revision + 1) as u64
        },
        playing: t0.playing && !(failed.verdict is StopRun),
        error: t1.error,
        ..t0
    }
    &&& t1.error matches Some(shown) && shown@ == failure_message(failed.verdict, track_uri)
    &&& r1 == LoadRecovery {
        retry_current_at: match failed.verdict {
            LoadFailureVerdict::RetryAt { at_ms } => Some(at_ms),
            _ => r0.retry_current_at,
        },
        ..r0
    }
}

impl Transport {
    /// Handles a failed load of the current row, identified by `track_uri`,
    /// at `now`: the failure is counted, the failed play request is let go
    /// (its audio signals too), and the verdict decides what comes next. The
    /// intent to play is kept except when a run of failures stops playback.
    pub fn fail_current_load(&mut self, track_uri: &str, bursts: &mut LoadBursts, recovery: &mut LoadRecovery, now: u64) -> (failed: FailedLoad)
        ensures
            load_failed(
                *old(self),
                *final(self),
                old(bursts).recent_track_changes@,
                old(bursts).recent_unavailable@,
                final(bursts).recent_track_changes@,
                final(bursts).recent_unavailable@,
                *old(recovery),
                *final(recovery),
                track_uri@,
                now,
                failed,
            ),
    {
        let burst = bursts.record_unavailable(now);
        self.seek_in_flight = false;
        self.loading_failed = true;
        let mut message = "Spotify track is unavailable: ".to_owned();
        message.append(track_uri);
        self.error = Some(message);
        self.play_request_id = None;
        self.audio_revision = self.audio_revision.wrapping_add(1);
        let evict_cache = !burst.clustered;
        if !self.playing {
            return FailedLoad { verdict: LoadFailureVerdict::HoldPaused, evict_cache };
        }
        if burst.consecutive >= UNAVAILABLE_STOP_LIMIT {
            self.playing = false;
            let mut stopped = "Spotify refused audio for ".to_owned();
            stopped.append(decimal_text(burst.consecutive).as_str());
            stopped.append(" tracks in a row; playback stopped");
            self.error = Some(stopped);
            return FailedLoad {
                verdict: LoadFailureVerdict::StopRun { consecutive: burst.consecutive },
                evict_cache,
            };
        }
        if !recovery.current_load_is_retry {
            let at_ms = now.saturating_add(LOAD_RETRY_BACKOFF_MS);
            recovery.retry_current_at = Some(at_ms);
            self.error = Some("Spotify refused audio for this track; retrying".to_owned());
            return FailedLoad { verdict: LoadFailureVerdict::RetryAt { at_ms }, evict_cache };
        }
        FailedLoad { verdict: LoadFailureVerdict::Skip, evict_cache }
    }
}

/// What the playback heartbeat asks for.
#[derive(Clone, Copy, Debug, PartialEq, Eq, Structural)]
pub struct HealthTick {
    /// Audio is out: the failure run is over.
    pub clear_burst: bool,
    /// Preload the next track now.
    pub preload: bool,
    /// The pending retry is due: load the current row again, playing.
    pub retry: bool,
}

/// The playback heartbeat at `now`, with the playhead already projected:
/// audio ends a failure run; a playing track past its watermark arms the
/// preload once per load; a pending retry fires only while playing.
pub fn playback_health(transport: &Transport, failures_pending: bool, recovery: &mut LoadRecovery, now: u64) -> (tick: HealthTick)
    ensures
        tick.clear_burst == (transport.current_load_produced_audio && failures_pending),
        tick.preload == (!old(recovery).preload_armed && transport.playing && at_preload_watermark_spec(
            transport.position_ms,
            transport.duration_ms,
        )),
        final(recovery).preload_armed == (old(recovery).preload_armed || tick.preload),
        tick.retry == (old(recovery).retry_current_at matches Some(at) && now >= at
            && transport.playing),
        final(recovery).retry_current_at == old(recovery).retry_current_at,
        final(recovery).current_load_is_retry == old(recovery).current_load_is_retry,
{
    let clear_burst = transport.current_load_produced_audio && failures_pending;
    let mut preload = false;
    if !recovery.preload_armed && transport.playing && at_preload_watermark(
        transport.position_ms,
        transport.duration_ms,
    ) {
        recovery.preload_armed = true;
        preload = true;
    }
    let retry = match recovery.retry_current_at {
        Some(at) => now >= at && transport.playing,
        None => false,
    };
    HealthTick { clear_burst, preload, retry }
}

/// Whether the playhead is within the preload watermark of the end.
pub open spec fn at_preload_watermark_spec(position_ms: u32, duration_ms: u32) -> bool {
    duration_ms > 0 && (if duration_ms >= position_ms {
        duration_ms - position_ms
    } else {
        0
    }) <= (if crate::timing::PRELOAD_WATERMARK_MS <= duration_ms / 2 {
        crate::timing::PRELOAD_WATERMARK_MS as int
    } else {
        (duration_ms / 2) as int
    })
}

impl LoadRecovery {
    /// A fresh load owns every judgement the previous one left: nothing
    /// armed, no retry pending.
    pub fn fresh_load(&mut self)
        ensures
            final(self).retry_current_at is None,
            !final(self).current_load_is_retry,
            !final(self).preload_armed,
    {
        self.retry_current_at = None;
        self.current_load_is_retry = false;
        self.preload_armed = false;
    }
}


/// The URI a preload would ask for now: none until the preload is armed or
/// while loads are failing in a burst; otherwise the URI of the row
/// automatic playback moves to next, unless that row cannot be played.
pub fn preload_target(plan: &QueuePlan, recovery: &LoadRecovery, bursts: &LoadBursts) -> (target: Option<SpotifyUri>)
    requires
        plan.current_index matches Some(c) ==> c < usize::MAX,
        plan.current_index is Some && !plan.shuffle && plan.repeat == RepeatMode::Context
            ==> plan.queue@.len() > 0,
    ensures
        target is Some <==> {
            &&& recovery.preload_armed
            &&& bursts.recent_unavailable@.len() == 0
            &&& next_row(*plan) matches Some(next)
            &&& next < plan.queue@.len()
            &&& play_fault(plan.queue@[next as int]) is None
        },
        target matches Some(uri) ==> next_row(*plan) matches Some(next) && uri == parsed_uri(
            plan.queue@[next as int].uri@,
        ),
{
    if !recovery.preload_armed || bursts.recent_unavailable.len() > 0 {
        return None;
    }
    match plan.peek_next_index() {
        Some(next) => if next < plan.queue.len() {
            match playable_track_uri(&plan.queue[next]) {
                Ok(uri) => Some(uri),
                Err(_) => None,
            }
        } else {
            None
        },
        None => None,
    }
}


impl LoadRecovery {
    /// Nothing to retry and no preload asked for.
    pub fn new() -> (recovery: LoadRecovery)
        ensures
            recovery.retry_current_at is None,
            !recovery.current_load_is_retry,
            !recovery.preload_armed,
    {
        LoadRecovery { retry_current_at: None, current_load_is_retry: false, preload_armed: false }
    }
}


/// What moving the queue on does to the transport `t`, `plan` being the
/// queue after the move: a row to move to starts from its beginning, with
/// its duration and no message (the caller loads it with the intent to
/// play); none leaves playback stopped at the end of the row it was on; a
/// queue with no current row stops with that said.
pub open spec fn moved_on(t: Transport, after: Transport, plan: QueuePlan, moved: Result<Option<usize>, QueueError>, now: u64) -> bool {
    match moved {
        Ok(Some(i)) => after == positioned(
            Transport {
                error: None,
                duration_ms: if i < plan.queue@.len() {
                    plan.queue@[i as int].duration_ms
                } else {
                    t.duration_ms
                },
                ..t
            },
            0,
            now,
        ),
        Ok(None) => after == Transport { playing: false, ..positioned(t, t.duration_ms, now) },
        Err(_) => {
            &&& after == Transport { playing: false, error: after.error, ..t }
            &&& after.error matches Some(shown) && shown@ == "the queue has no current track"@
        },
    }
}

/// The recovery state after the queue moved on: a row moved to is loaded
/// fresh, so nothing is armed and no retry is pending; otherwise it stays.
pub open spec fn recovery_after_move(r: LoadRecovery, moved: Result<Option<usize>, QueueError>) -> LoadRecovery {
    if moved matches Ok(Some(_)) {
        LoadRecovery { retry_current_at: None, current_load_is_retry: false, preload_armed: false }
    } else {
        r
    }
}

/// Makes the transport and the recovery follow a move of the queue, as
/// [`moved_on`] and [`recovery_after_move`] say.
fn follow_move(transport: &mut Transport, recovery: &mut LoadRecovery, plan: &QueuePlan, moved: &Result<Option<usize>, QueueError>, now: u64)
    ensures
        moved_on(*old(transport), *final(transport), *plan, *moved, now),
        *final(recovery) == recovery_after_move(*old(recovery), *moved),
{
    match moved {
        Ok(Some(i)) => {
            transport.error = None;
            if *i < plan.queue.len() {
                transport.duration_ms = plan.queue[*i].duration_ms;
            }
            transport.update_position(0, now);
            recovery.fresh_load();
        },
        Ok(None) => {
            let end = transport.duration_ms;
            transport.update_position(end, now);
            transport.playing = false;
        },
        Err(_) => {
            transport.playing = false;
            let message = "the queue has no current track".to_owned();
            proof {
                reveal_strlit("the queue has no current track");
            }
            transport.error = Some(message);
        },
    }
}

/// Whether (`t1`, `p1`, the burst record, `r1`) and `settled` are what a
/// failed load of the row `track_uri` at `now`, settled against the queue,
/// makes of `t0` and `p0`: the failure as [`load_failed`] has it, and on a
/// skip verdict the queue moved past the row (see [`advanced`]) with the
/// transport following it (see [`moved_on`]) and, when a row follows, the
/// recovery cleared for its fresh load; otherwise the queue stays.
pub open spec fn settled_in_queue(
    t0: Transport,
    t1: Transport,
    p0: QueuePlan,
    p1: QueuePlan,
    changes0: Seq<u64>,
    unavailable0: Seq<u64>,
    changes1: Seq<u64>,
    unavailable1: Seq<u64>,
    r0: LoadRecovery,
    r1: LoadRecovery,
    track_uri: Seq<char>,
    now: u64,
    settled: (FailedLoad, Option<Result<Option<usize>, QueueError>>),
) -> bool {
    &&& settled.0.verdict is Skip <==> settled.1 is Some
    &&& exists|failed_transport: Transport, failed_recovery: LoadRecovery|
        {
            &&& load_failed(
                t0,
                failed_transport,
                changes0,
                unavailable0,
                changes1,
                unavailable1,
                r0,
                failed_recovery,
                track_uri,
                now,
                settled.0,
            )
            &&& match settled.1 {
                None => t1 == failed_transport && p1 == p0 && r1 == failed_recovery,
                Some(moved) => {
                    &&& advanced(p0, p1, false, true, moved)
                    &&& moved_on(failed_transport, t1, p1, moved, now)
                    &&& r1 == recovery_after_move(failed_recovery, moved)
                },
            }
        }
}

/// Handles a failed load of the current row, identified by `track_uri`,
/// at `now`, against the queue: the failure is settled as
/// [`Transport::fail_current_load`] settles it, and when its verdict is to
/// skip, the queue moves to the next row automatic playback chooses, past a
/// repeat-one row so the failed loader is not retried forever; a row to
/// move to is loaded fresh, so no retry stays pending. Answers the verdict
/// and, after a skip, what the move gave.
pub fn fail_current_load_in_queue(
    transport: &mut Transport,
    plan: &mut QueuePlan,
    track_uri: &str,
    bursts: &mut LoadBursts,
    recovery: &mut LoadRecovery,
    now: u64,
) -> (settled: (FailedLoad, Option<Result<Option<usize>, QueueError>>))
    requires
        old(plan).current_index matches Some(c) ==> c < usize::MAX,
        old(plan).current_index is Some && !old(plan).shuffle && old(plan).repeat
            == RepeatMode::Context ==> old(plan).queue@.len() > 0,
    ensures
        settled_in_queue(
            *old(transport),
            *final(transport),
            *old(plan),
            *final(plan),
            old(bursts).recent_track_changes@,
            old(bursts).recent_unavailable@,
            final(bursts).recent_track_changes@,
            final(bursts).recent_unavailable@,
            *old(recovery),
            *final(recovery),
            track_uri@,
            now,
            settled,
        ),
{
    let failed = transport.fail_current_load(track_uri, bursts, recovery, now);
    let ghost failed_transport = *transport;
    let ghost failed_recovery = *recovery;
    match failed.verdict {
        LoadFailureVerdict::Skip => {},
        _ => {
            return (failed, None);
        },
    }
    let moved = plan.advance_with_current_skip(false, true);
    follow_move(transport, recovery, plan, &moved, now);
    (failed, Some(moved))
}


/// What a player event came to once the queue had its say.
pub struct EventReaction {
    /// A state event is owed.
    pub emit: bool,
    /// What the transport asked for.
    pub action: TransportAction,
    /// A failed load, as settled against the queue.
    pub failed: Option<(FailedLoad, Option<Result<Option<usize>, QueueError>>)>,
    /// A finished track, as the queue moved on from it.
    pub advanced: Option<Result<Option<usize>, QueueError>>,
}

/// A player event handled against the queue: the transport reacts as
/// [`transport_step`] says. A failed load (the player refused the current
/// row, or an end of track that was no finish, such as one that never
/// produced audio) is settled against the queue at once, under the current
/// row's URI. A finished track moves the queue on to the row automatic
/// playback chooses after a natural end, and the transport and recovery
/// follow it; any other reaction leaves the queue alone.
pub fn on_player_event_in_queue(
    transport: &mut Transport,
    plan: &mut QueuePlan,
    bursts: &mut LoadBursts,
    recovery: &mut LoadRecovery,
    event: TransportEvent,
    end: EndContext,
    now: u64,
) -> (reaction: EventReaction)
    requires
        old(plan).current_index matches Some(c) ==> c < usize::MAX,
        old(plan).current_index is Some && !old(plan).shuffle && old(plan).repeat
            == RepeatMode::Context ==> old(plan).queue@.len() > 0,
    ensures
        ({
            let (stepped, emit, action) = transport_step(*old(transport), event, end, now);
            &&& reaction.emit == emit
            &&& reaction.action == action
            &&& action != TransportAction::FailCurrentLoad ==> reaction.failed is None
            &&& action != TransportAction::Advance ==> reaction.advanced is None
            &&& action != TransportAction::FailCurrentLoad && action != TransportAction::Advance
                ==> {
                &&& *final(transport) == stepped
                &&& *final(plan) == *old(plan)
                &&& final(bursts).recent_track_changes@ == old(bursts).recent_track_changes@
                &&& final(bursts).recent_unavailable@ == old(bursts).recent_unavailable@
                &&& *final(recovery) == *old(recovery)
            }
            &&& action == TransportAction::FailCurrentLoad ==> {
                &&& stepped.current_uri is Some
                &&& reaction.failed matches Some(settled) && settled_in_queue(
                    stepped,
                    *final(transport),
                    *old(plan),
                    *final(plan),
                    old(bursts).recent_track_changes@,
                    old(bursts).recent_unavailable@,
                    final(bursts).recent_track_changes@,
                    final(bursts).recent_unavailable@,
                    *old(recovery),
                    *final(recovery),
                    stepped.current_uri->0@,
                    now,
                    settled,
                )
            }
            &&& action == TransportAction::Advance ==> {
                &&& reaction.advanced matches Some(moved)
                &&& advanced(*old(plan), *final(plan), true, false, moved)
                &&& moved_on(stepped, *final(transport), *final(plan), moved, now)
                &&& *final(recovery) == recovery_after_move(*old(recovery), moved)
                &&& final(bursts).recent_track_changes@ == old(bursts).recent_track_changes@
                &&& final(bursts).recent_unavailable@ == old(bursts).recent_unavailable@
            }
        }),
{
    let (emit, action) = transport.on_player_event(event, end, now);
    if action == TransportAction::FailCurrentLoad {
        let uri = transport.current_uri.as_ref().unwrap().clone();
        let settled = fail_current_load_in_queue(transport, plan, uri.as_str(), bursts, recovery, now);
        return EventReaction { emit, action, failed: Some(settled), advanced: None };
    }
    if action == TransportAction::Advance {
        let moved = plan.advance_with_current_skip(true, false);
        follow_move(transport, recovery, plan, &moved, now);
        return EventReaction { emit, action, failed: None, advanced: Some(moved) };
    }
    EventReaction { emit, action, failed: None, advanced: None }
}

} // verus!
