use std::collections::VecDeque;
use std::time::{Duration, Instant, SystemTime};
use vstd::prelude::*;

verus! {

/// `std::time::Instant`, carried opaquely.
#[verifier::external_type_specification]
#[verifier::external_body]
pub struct ExInstant(Instant);

/// `std::time::SystemTime`, carried opaquely.
#[verifier::external_type_specification]
#[verifier::external_body]
pub struct ExSystemTime(SystemTime);

/// `Instant::now`: the monotonic clock's reading. Nothing is promised of it.
#[verifier::external_body]
pub(crate) fn instant_now() -> Instant {
    Instant::now()
}

/// `Instant::elapsed`: how long ago `since` was. Nothing is promised of it.
#[verifier::external_body]
fn instant_elapsed(since: &Instant) -> Duration {
    since.elapsed()
}

/// `Duration::as_millis`: the whole milliseconds of `duration`. The
/// contract states nothing, because a `Duration` is opaque here.
#[verifier::external_body]
fn duration_as_millis(duration: &Duration) -> u128 {
    duration.as_millis()
}

/// `SystemTime::now`: the wall clock. Nothing is promised of it.
#[verifier::external_body]
fn system_now() -> SystemTime {
    SystemTime::now()
}

/// `SystemTime::duration_since(UNIX_EPOCH)`, with the error (a clock set
/// before 1970) turned into `None`. Nothing is promised of the result.
#[verifier::external_body]
fn since_unix_epoch(time: &SystemTime) -> Option<Duration> {
    match time.duration_since(std::time::UNIX_EPOCH) {
        Ok(duration) => Some(duration),
        Err(_) => None,
    }
}

/// Minimum spacing between command-driven track changes, in milliseconds.
pub const TRACK_CHANGE_MIN_INTERVAL_MS: u64 = 250;

/// The window in which load starts count as a rapid burst, in milliseconds.
pub const TRACK_CHANGE_BURST_WINDOW_MS: u64 = 2_000;

/// How many recent load starts make a burst.
pub const TRACK_CHANGE_BURST_MINIMUM: usize = 2;

/// The window in which load failures belong to one run, in milliseconds.
pub const UNAVAILABLE_BURST_WINDOW_MS: u64 = 30_000;

/// How many failures in one run stop playback instead of skipping onward.
pub const UNAVAILABLE_STOP_LIMIT: usize = 3;

/// How long a failed row waits before it is loaded once more, in milliseconds.
pub const LOAD_RETRY_BACKOFF_MS: u64 = 3_000;

/// How much of a track may remain unplayed for its end to still be its end.
pub const ABNORMAL_END_REMAINDER_MS: u32 = 5_000;

/// How little of the current track may remain before its successor is
/// worth preloading.
pub const PRELOAD_WATERMARK_MS: u32 = 30_000;

/// The first automatic reconnect wait, and the ceiling it doubles up to.
pub const RECONNECT_BACKOFF_MIN_MS: u64 = 2_000;
pub const RECONNECT_BACKOFF_MAX_MS: u64 = 60_000;

/// The first output-device probe wait, and the ordinary ceiling.
pub const AUDIO_PROBE_BACKOFF_MIN_MS: u64 = 2_000;
pub const AUDIO_PROBE_BACKOFF_MAX_MS: u64 = 10_000;

/// The ceiling after an open that never returned.
pub const AUDIO_BLOCKED_PROBE_BACKOFF_MAX_MS: u64 = 300_000;

/// How long a changed volume sits still before it is written, in milliseconds.
pub const VOLUME_PERSIST_QUIET_MS: u64 = 1_000;

/// Why the engine has no player, which sizes its probe ladder.
#[derive(Clone, Copy, Debug, PartialEq, Eq, Structural)]
pub enum PlayerFailure {
    /// No device, a refused open, or a failed construction.
    Ordinary,
    /// A device whose open did not return.
    Blocked,
}

impl PlayerFailure {
    /// The longest wait, in milliseconds, this failure lets the ladder reach.
    pub fn ceiling(self) -> (ceiling_ms: u64)
        ensures
            ceiling_ms == match self {
                PlayerFailure::Ordinary => AUDIO_PROBE_BACKOFF_MAX_MS,
                PlayerFailure::Blocked => AUDIO_BLOCKED_PROBE_BACKOFF_MAX_MS,
            },
    {
        match self {
            PlayerFailure::Ordinary => AUDIO_PROBE_BACKOFF_MAX_MS,
            PlayerFailure::Blocked => AUDIO_BLOCKED_PROBE_BACKOFF_MAX_MS,
        }
    }
}

/// The smaller of two counts.
pub open spec fn min_u64(a: u64, b: u64) -> u64 {
    if a <= b {
        a
    } else {
        b
    }
}

/// Arms the next device probe: the wait is the current backoff clamped to
/// this failure's ceiling, and the backoff becomes twice that wait, clamped
/// again. Returns the wait in milliseconds.
pub fn next_device_probe(backoff_ms: &mut u64, failure: PlayerFailure) -> (wait_ms: u64)
    ensures
        wait_ms == min_u64(*old(backoff_ms), failure.ceiling_spec()),
        *final(backoff_ms) == min_u64(
            (2 * wait_ms) as u64,
            failure.ceiling_spec(),
        ),
        wait_ms <= failure.ceiling_spec(),
        *final(backoff_ms) <= failure.ceiling_spec(),
{
    let ceiling = failure.ceiling();
    let wait = if *backoff_ms < ceiling {
        *backoff_ms
    } else {
        ceiling
    };
    let doubled = wait * 2;
    *backoff_ms = if doubled < ceiling {
        doubled
    } else {
        ceiling
    };
    wait
}

impl PlayerFailure {
    /// The ceiling, in milliseconds, as a value of the specification.
    pub open spec fn ceiling_spec(self) -> u64 {
        match self {
            PlayerFailure::Ordinary => AUDIO_PROBE_BACKOFF_MAX_MS,
            PlayerFailure::Blocked => AUDIO_BLOCKED_PROBE_BACKOFF_MAX_MS,
        }
    }
}

/// The reconnect wait after one more failure: doubled, up to the ceiling.
pub fn next_reconnect_backoff(backoff_ms: u64) -> (next_ms: u64)
    ensures
        next_ms == if 2 * backoff_ms <= RECONNECT_BACKOFF_MAX_MS {
            2 * backoff_ms
        } else {
            RECONNECT_BACKOFF_MAX_MS as int
        },
{
    if backoff_ms > RECONNECT_BACKOFF_MAX_MS / 2 {
        RECONNECT_BACKOFF_MAX_MS
    } else {
        backoff_ms * 2
    }
}

/// How long to wait, in milliseconds, before the next command-driven track
/// change may start, at monotonic time `now`: nothing with no earlier change
/// or once `interval` has passed since it, the rest of the interval
/// otherwise. A clock that reads earlier than `last` counts as no time
/// passed.
pub fn track_change_wait(last: Option<u64>, now: u64, interval: u64) -> (wait: u64)
    ensures
        wait == match last {
            None => 0,
            Some(t) => {
                let elapsed = if now >= t {
                    now - t
                } else {
                    0
                };
                if interval >= elapsed {
                    (interval - elapsed) as u64
                } else {
                    0
                }
            },
        },
{
    match last {
        None => 0,
        Some(t) => {
            let elapsed = if now >= t {
                now - t
            } else {
                0
            };
            interval.saturating_sub(elapsed)
        },
    }
}

/// What the user is told when the output stopped draining mid-track.
pub fn audio_stalled_message() -> (message: String)
    ensures
        message@ == "the audio output stopped responding; playback resumes by itself when an output device is available"@,
{
    "the audio output stopped responding; playback resumes by itself when an output device is available".to_owned()
}

/// Whether entering the no-output-device state is worth a log line: only a
/// message that differs from the one already in force is news.
pub fn audio_unavailable_is_news(previous: Option<&str>, message: &str) -> (news: bool)
    ensures
        news == !(previous is Some && previous->0@ == message@),
{
    match previous {
        None => true,
        Some(p) => {
            let a = p.to_owned();
            let b = message.to_owned();
            !(a == b)
        },
    }
}

/// The whole milliseconds since the Unix epoch, at most `i64::MAX`; zero
/// for a clock set before 1970.
pub fn now_millis_from(since_epoch_ms: Option<u128>) -> (millis: i64)
    ensures
        millis == match since_epoch_ms {
            None => 0,
            Some(ms) => if ms > i64::MAX as u128 {
                i64::MAX
            } else {
                ms as i64
            },
        },
{
    match since_epoch_ms {
        None => 0,
        Some(ms) => if ms > i64::MAX as u128 {
            i64::MAX
        } else {
            ms as i64
        },
    }
}

/// The wall clock in whole milliseconds since the Unix epoch.
pub fn now_millis() -> (millis: i64)
    ensures
        millis >= 0,
{
    let millis = match since_unix_epoch(&system_now()) {
        Some(duration) => Some(duration_as_millis(&duration)),
        None => None,
    };
    now_millis_from(millis)
}

/// Milliseconds elapsed, given what the clock reported: zero with no start,
/// and zero when the count does not fit a `u64`.
pub fn elapsed_ms_from(elapsed: Option<u128>) -> (millis: u64)
    ensures
        millis == match elapsed {
            None => 0,
            Some(ms) => if ms > u64::MAX as u128 {
                0
            } else {
                ms as u64
            },
        },
{
    match elapsed {
        None => 0,
        Some(ms) => if ms > u64::MAX as u128 {
            0
        } else {
            ms as u64
        },
    }
}

/// Whole milliseconds since `since`; zero without a start.
pub fn elapsed_ms(since: Option<Instant>) -> (millis: u64)
    ensures
        since is None ==> millis == 0,
{
    let elapsed = match since {
        Some(start) => Some(duration_as_millis(&instant_elapsed(&start))),
        None => None,
    };
    elapsed_ms_from(elapsed)
}

/// The first queue revision of a process, from the wall clock's milliseconds
/// since the epoch (truncated to 64 bits): never zero, and one when the clock
/// is unreadable.
pub fn initial_queue_revision_from(since_epoch_ms: Option<u128>) -> (revision: u64)
    ensures
        revision == match since_epoch_ms {
            None => 1,
            Some(ms) => if ms as u64 == 0 {
                1
            } else {
                ms as u64
            },
        },
        revision >= 1,
{
    let millis: u64 = match since_epoch_ms {
        Some(ms) => ms as u64,
        None => 1,
    };
    if millis < 1 {
        1
    } else {
        millis
    }
}

/// The first queue revision of a process: the wall clock in milliseconds.
pub fn initial_queue_revision() -> (revision: u64)
    ensures
        revision >= 1,
{
    let millis = match since_unix_epoch(&system_now()) {
        Some(duration) => Some(duration_as_millis(&duration)),
        None => None,
    };
    initial_queue_revision_from(millis)
}

/// Whether the current track is close enough to its end to arm the
/// preload: within the watermark, capped at half the track.
pub fn at_preload_watermark(position_ms: u32, duration_ms: u32) -> (armed: bool)
    ensures
        armed == (duration_ms > 0 && (if duration_ms >= position_ms {
            duration_ms - position_ms
        } else {
            0
        }) <= (if PRELOAD_WATERMARK_MS <= duration_ms / 2 {
            PRELOAD_WATERMARK_MS as int
        } else {
            (duration_ms / 2) as int
        })),
{
    if duration_ms == 0 {
        return false;
    }
    let remaining = duration_ms.saturating_sub(position_ms);
    let half = duration_ms / 2;
    let floor = if PRELOAD_WATERMARK_MS <= half {
        PRELOAD_WATERMARK_MS
    } else {
        half
    };
    remaining <= floor
}

/// Whether an `EndOfTrack` is a track that finished: it produced audio,
/// and either a loop is active or what is left of the compiled timeline is
/// within [`ABNORMAL_END_REMAINDER_MS`].
pub fn end_of_track_is_genuine(
    produced_audio: bool,
    loop_active: bool,
    played_ms: u32,
    duration_ms: u32,
) -> (genuine: bool)
    ensures
        genuine == (produced_audio && (loop_active || (if duration_ms >= played_ms {
            duration_ms - played_ms
        } else {
            0
        }) <= ABNORMAL_END_REMAINDER_MS)),
{
    if !produced_audio {
        return false;
    }
    if loop_active {
        return true;
    }
    duration_ms.saturating_sub(played_ms) <= ABNORMAL_END_REMAINDER_MS
}

/// What one current-track load failure says about the run it belongs to.
#[derive(Clone, Copy, Debug, PartialEq, Eq, Structural)]
pub struct UnavailableBurst {
    /// Whether the failure is part of a cluster, so cached audio is kept.
    pub clustered: bool,
    /// Failures in the current run, this one included.
    pub consecutive: usize,
}

/// Whether a timestamp has left the window at `now`; a timestamp later than
/// `now` (a clock that went backwards) never expires.
pub open spec fn expired(when: u64, now: u64, window: u64) -> bool {
    now >= when && now - when > window
}

/// The timestamps left once the expired ones at the front are dropped.
pub open spec fn pruned(times: Seq<u64>, now: u64, window: u64) -> Seq<u64>
    decreases times.len(),
{
    if times.len() > 0 && expired(times[0], now, window) {
        pruned(times.drop_first(), now, window)
    } else {
        times
    }
}

/// Recent load starts and load failures, in monotonic milliseconds, oldest
/// first: what tells an isolated failure from a burst.
pub struct LoadBursts {
    pub recent_track_changes: VecDeque<u64>,
    pub recent_unavailable: VecDeque<u64>,
}

/// Drops timestamps older than `window` from the front of `times`.
pub fn prune_recent_times(times: &mut VecDeque<u64>, now: u64, window: u64)
    ensures
        final(times)@ == pruned(old(times)@, now, window),
{
    loop
        invariant
            pruned(times@, now, window) == pruned(old(times)@, now, window),
        decreases times@.len(),
    {
        if times.len() == 0 {
            return;
        }
        let when = times[0];
        let gone = now >= when && now - when > window;
        if !gone {
            return;
        }
        let ghost before = times@;
        times.pop_front();
        proof {
            assert(times@ =~= before.drop_first());
        }
    }
}

impl LoadBursts {
    /// No load starts and no failures.
    pub fn new() -> (bursts: Self)
        ensures
            bursts.recent_track_changes@.len() == 0,
            bursts.recent_unavailable@.len() == 0,
    {
        LoadBursts { recent_track_changes: VecDeque::new(), recent_unavailable: VecDeque::new() }
    }

    /// Records a real player load at `now`.
    pub fn note_track_change(&mut self, now: u64)
        ensures
            final(self).recent_track_changes@ == pruned(
                old(self).recent_track_changes@,
                now,
                TRACK_CHANGE_BURST_WINDOW_MS,
            ).push(now),
            final(self).recent_unavailable@ == old(self).recent_unavailable@,
    {
        prune_recent_times(&mut self.recent_track_changes, now, TRACK_CHANGE_BURST_WINDOW_MS);
        self.recent_track_changes.push_back(now);
    }

    /// Records a current-track load failure at `now`: it is clustered when
    /// another failure is still inside its window, or when enough loads
    /// started recently; the run counts this failure and those still inside
    /// the window.
    pub fn record_unavailable(&mut self, now: u64) -> (burst: UnavailableBurst)
        ensures
            final(self).recent_track_changes@ == pruned(
                old(self).recent_track_changes@,
                now,
                TRACK_CHANGE_BURST_WINDOW_MS,
            ),
            final(self).recent_unavailable@ == pruned(
                old(self).recent_unavailable@,
                now,
                UNAVAILABLE_BURST_WINDOW_MS,
            ).push(now),
            burst.clustered == (pruned(
                old(self).recent_unavailable@,
                now,
                UNAVAILABLE_BURST_WINDOW_MS,
            ).len() >= 1 || pruned(
                old(self).recent_track_changes@,
                now,
                TRACK_CHANGE_BURST_WINDOW_MS,
            ).len() >= TRACK_CHANGE_BURST_MINIMUM),
            burst.consecutive == final(self).recent_unavailable@.len(),
    {
        prune_recent_times(&mut self.recent_track_changes, now, TRACK_CHANGE_BURST_WINDOW_MS);
        prune_recent_times(&mut self.recent_unavailable, now, UNAVAILABLE_BURST_WINDOW_MS);
        let clustered = self.recent_unavailable.len() >= 1 || self.recent_track_changes.len()
            >= TRACK_CHANGE_BURST_MINIMUM;
        self.recent_unavailable.push_back(now);
        UnavailableBurst { clustered, consecutive: self.recent_unavailable.len() }
    }

    /// A load that produced audio ends the failure run.
    pub fn clear_unavailable_burst(&mut self)
        ensures
            final(self).recent_unavailable@.len() == 0,
            final(self).recent_track_changes@ == old(self).recent_track_changes@,
    {
        self.recent_unavailable.clear();
    }
}


/// Whether a volume that changed at `changed_at` (monotonic milliseconds),
/// if one is waiting to be written, has been quiet long enough at `now`.
pub fn volume_persist_due(changed_at: Option<u64>, now: u64) -> (due: bool)
    ensures
        due == (changed_at matches Some(at) && now >= at && now - at >= VOLUME_PERSIST_QUIET_MS),
{
    match changed_at {
        Some(at) => now >= at && now - at >= VOLUME_PERSIST_QUIET_MS,
        None => false,
    }
}

} // verus!
