use crate::planner::{next_revision, restore_is_stale, QueuePlan};
use crate::session::{next_generation, readiness_fault, AuthState, Session};
use crate::transport::Transport;
use vstd::prelude::*;

verus! {

/// The commands the engine's command loop answers itself, with what is read
/// before running them. Browse and edit requests are routed elsewhere.
#[derive(Clone, Copy, Debug, PartialEq, Eq, Structural)]
pub enum CommandKind {
    Status,
    GetHistory,
    ClearHistory,
    Login,
    Logout,
    SetNormalisation,
    RestoreQueue { only_if_preview: bool, preview_lease_id: u64 },
    PlayQueue,
    PreviewTrackEdit,
    PlayQueueIndex,
    Play,
    Pause,
    Next,
    Previous,
    Seek,
    SetVolume,
    SetShuffle,
    SetRepeat,
    SetPlaybackSpeed,
    AddQueue,
    AddQueueBatch,
    RemoveQueue,
    MoveQueue,
}

/// What the command loop does with a command before running it.
#[derive(Debug, PartialEq, Eq)]
pub enum CommandStep {
    /// Answer with the full state; first start a new authentication when
    /// `reauthenticate`.
    Status { reauthenticate: bool },
    /// Run the command's own handler, which needs no player.
    Handle,
    /// A guarded restore that lost its race: answer `Ok(false)` and change
    /// nothing.
    Stale,
    /// Refuse with this message: the command needs a player and there is
    /// none.
    Refuse(String),
    /// Run the command; when `paced`, first wait out the minimum interval
    /// between track changes.
    Dispatch { paced: bool },
}

/// The mathematical value of a [`CommandStep`].
pub enum CommandDecision {
    Status { reauthenticate: bool },
    Handle,
    Stale,
    Refuse(Seq<char>),
    Dispatch { paced: bool },
}

impl View for CommandStep {
    type V = CommandDecision;

    open spec fn view(&self) -> CommandDecision {
        match self {
            CommandStep::Status { reauthenticate } => CommandDecision::Status {
                reauthenticate: *reauthenticate,
            },
            CommandStep::Handle => CommandDecision::Handle,
            CommandStep::Stale => CommandDecision::Stale,
            CommandStep::Refuse(message) => CommandDecision::Refuse(message@),
            CommandStep::Dispatch { paced } => CommandDecision::Dispatch { paced: *paced },
        }
    }
}

/// The commands a machine with no output device can still be told: they
/// set what will play, not what plays now.
pub open spec fn device_free(command: CommandKind) -> bool {
    match command {
        CommandKind::Play | CommandKind::Pause | CommandKind::SetVolume | CommandKind::SetShuffle
        | CommandKind::SetRepeat | CommandKind::RestoreQueue { .. } => true,
        _ => false,
    }
}

/// Whether `command` runs without a player: the engine is ready, only the
/// output device is missing, and the command is one that needs none.
pub open spec fn runs_without_device(session: Session, command: CommandKind) -> bool {
    session.ready && session.audio_unavailable is Some && device_free(command)
}

/// The commands that change the track and so are paced.
pub open spec fn changes_track(command: CommandKind) -> bool {
    match command {
        CommandKind::PlayQueue | CommandKind::PreviewTrackEdit | CommandKind::PlayQueueIndex
        | CommandKind::Next | CommandKind::Previous => true,
        _ => false,
    }
}

/// What the command loop does with `command`, `installed_lease` being the lease of
/// the preview that is installed and `has_player` whether a player is.
/// Status answers at once (re-authenticating a failed session); the
/// history, login, logout and normalisation commands go to their own
/// handlers; a guarded restore that lost its race is a no-op decided before
/// readiness; a command that needs a player without one is refused with
/// the reason; the rest run, track changes paced.
pub open spec fn command_decision(session: Session, plan: QueuePlan, installed_lease: u64, command: CommandKind, has_player: bool) -> CommandDecision {
    match command {
        CommandKind::Status => CommandDecision::Status {
            reauthenticate: session.auth_state == AuthState::Error,
        },
        CommandKind::GetHistory | CommandKind::ClearHistory | CommandKind::Login
        | CommandKind::Logout | CommandKind::SetNormalisation => CommandDecision::Handle,
        _ => {
            let stale = match command {
                CommandKind::RestoreQueue { only_if_preview, preview_lease_id } => only_if_preview
                    && (!plan.preview_mode || preview_lease_id == 0 || installed_lease
                    != preview_lease_id),
                _ => false,
            };
            if stale {
                CommandDecision::Stale
            } else if !runs_without_device(session, command) && readiness_fault(
                session,
                has_player,
            ) is Some {
                CommandDecision::Refuse(readiness_fault(session, has_player)->0)
            } else {
                CommandDecision::Dispatch { paced: changes_track(command) }
            }
        },
    }
}

/// Decides what the command loop does with `command` before running it.
pub fn command_step(session: &Session, plan: &QueuePlan, installed_lease: u64, command: &CommandKind, has_player: bool) -> (step: CommandStep)
    ensures
        step@ == command_decision(*session, *plan, installed_lease, *command, has_player),
{
    match command {
        CommandKind::Status => {
            return CommandStep::Status {
                reauthenticate: match session.auth_state {
                    AuthState::Error => true,
                    _ => false,
                },
            };
        },
        CommandKind::GetHistory | CommandKind::ClearHistory | CommandKind::Login
        | CommandKind::Logout | CommandKind::SetNormalisation => {
            return CommandStep::Handle;
        },
        _ => {},
    }
    if let CommandKind::RestoreQueue { only_if_preview, preview_lease_id } = command {
        if restore_is_stale(*only_if_preview, plan.preview_mode, installed_lease, *preview_lease_id) {
            return CommandStep::Stale;
        }
    }
    let device_free = match command {
        CommandKind::Play | CommandKind::Pause | CommandKind::SetVolume | CommandKind::SetShuffle
        | CommandKind::SetRepeat | CommandKind::RestoreQueue { .. } => true,
        _ => false,
    };
    let without_device = session.ready && session.audio_unavailable.is_some() && device_free;
    if !without_device {
        match session.ensure_ready(has_player) {
            Err(message) => {
                return CommandStep::Refuse(message);
            },
            Ok(()) => {},
        }
    }
    let paced = match command {
        CommandKind::PlayQueue | CommandKind::PreviewTrackEdit | CommandKind::PlayQueueIndex
        | CommandKind::Next | CommandKind::Previous => true,
        _ => false,
    };
    CommandStep::Dispatch { paced }
}


/// Signs out everywhere: any attempt in flight is disowned and the session
/// needs a login (see [`Session::logout`]); the queue is emptied with
/// nothing current (see [`QueuePlan::enter_needs_login`]); playback stops
/// with the playhead and duration at zero.
pub fn log_out(session: &mut Session, plan: &mut QueuePlan, transport: &mut Transport)
    ensures
        !final(session).auth_running,
        final(session).generation == next_generation(old(session).generation),
        final(session).auth_state == AuthState::NeedsLogin,
        !final(session).ready,
        !final(session).playing,
        !final(session).has_queue,
        final(session).error is None,
        final(plan).queue@.len() == 0,
        final(plan).current_index is None,
        !final(plan).preview_mode,
        final(plan).shuffle_pool@.len() == 0,
        final(plan).history@.len() == 0,
        final(plan).queue_revision == next_revision(old(plan).queue_revision),
        final(plan).pool_valid(),
        *final(transport) == (Transport {
            playing: false,
            position_ms: 0,
            duration_ms: 0,
            ..*old(transport)
        }),
        final(transport).inv(),
{
    session.logout();
    plan.enter_needs_login();
    transport.playing = false;
    transport.position_ms = 0;
    transport.duration_ms = 0;
}

} // verus!
