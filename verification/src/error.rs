//! Why a daemon does not start, or stops.

use vstd::prelude::*;

use crate::protocol::optional_text;
use crate::reset::{ResetError, reset_error_text};

verus! {

/// An error of the daemon as a whole. Where another part of PAM failed, the
/// error carries its words.
pub enum DaemonError {
    AlreadyRunning,
    LaunchNotGranted,
    Handler,
    Identity(String),
    StaleState(String),
    Io,
    Model,
    Protocol,
    /// What a reset would delete is unknown, so that none is offered.
    Reset(ResetError),
    Store,
    Transport { message: String, recovery: Option<String> },
}

pub open spec fn daemon_error_text(error: DaemonError) -> Seq<char> {
    match error {
        DaemonError::AlreadyRunning => {
            "PAM daemon ownership is already claimed. Check it with `pam status`."@
        },
        DaemonError::LaunchNotGranted => {
            "The PAM daemon starts only from the control center. Open it with `pam gui`."@
        },
        DaemonError::Handler => "PAM daemon request handling failed."@,
        DaemonError::Identity(text) => text@,
        DaemonError::StaleState(_) => {
            "PAM daemon endpoint is stale. Restart PAM from the control center (`pam gui`)."@
        },
        DaemonError::Io => "PAM could not prepare its local runtime state."@,
        DaemonError::Model => "PAM could not start the embedded model runtime."@,
        DaemonError::Protocol => "PAM could not process a protocol message."@,
        DaemonError::Reset(error) => reset_error_text(error),
        DaemonError::Store => "PAM durable state is unavailable."@,
        DaemonError::Transport { message, .. } => message@,
    }
}

/// The command that helps, if one does.
pub open spec fn recovery_of(error: DaemonError) -> Option<Seq<char>> {
    match error {
        DaemonError::AlreadyRunning => Some("pam status"@),
        DaemonError::LaunchNotGranted | DaemonError::StaleState(_) => Some("pam gui"@),
        DaemonError::Transport { recovery, .. } => optional_text(recovery),
        _ => None,
    }
}

impl DaemonError {
    /// What the owner is told.
    pub fn message(&self) -> (text: String)
        ensures
            text@ == daemon_error_text(*self),
    {
        match self {
            DaemonError::AlreadyRunning => {
                "PAM daemon ownership is already claimed. Check it with `pam status`.".to_owned()
            },
            DaemonError::LaunchNotGranted => {
                "The PAM daemon starts only from the control center. Open it with `pam gui`.".to_owned()
            },
            DaemonError::Handler => "PAM daemon request handling failed.".to_owned(),
            DaemonError::Identity(text) => text.clone(),
            DaemonError::StaleState(_) => {
                "PAM daemon endpoint is stale. Restart PAM from the control center (`pam gui`).".to_owned()
            },
            DaemonError::Io => "PAM could not prepare its local runtime state.".to_owned(),
            DaemonError::Model => "PAM could not start the embedded model runtime.".to_owned(),
            DaemonError::Protocol => "PAM could not process a protocol message.".to_owned(),
            DaemonError::Reset(error) => error.message(),
            DaemonError::Store => "PAM durable state is unavailable.".to_owned(),
            DaemonError::Transport { message, .. } => message.clone(),
        }
    }

    /// The command that helps, if one does.
    pub fn recovery_action(&self) -> (command: Option<String>)
        ensures
            optional_text(command) == recovery_of(*self),
    {
        match self {
            DaemonError::AlreadyRunning => Some("pam status".to_owned()),
            DaemonError::LaunchNotGranted | DaemonError::StaleState(_) => Some(
                "pam gui".to_owned(),
            ),
            DaemonError::Transport { recovery, .. } => match recovery {
                Some(text) => Some(text.clone()),
                None => None,
            },
            _ => None,
        }
    }
}

/// Decides whether the daemon may start: only with a grant of the control
/// center, which was good for this one launch.
pub fn check_launch(granted: bool) -> (result: Result<(), DaemonError>)
    ensures
        match result {
            Ok(_) => granted,
            Err(error) => !granted && error is LaunchNotGranted,
        },
{
    if granted {
        Ok(())
    } else {
        Err(DaemonError::LaunchNotGranted)
    }
}

/// An error that a command can clear names the command: a daemon that runs already
/// is to be looked at, and one that did not come from the control center or
/// left its endpoint behind is to be started from there. What the transport
/// knows is passed on. Nothing else has a command.
pub proof fn law_recoveries_fit_the_error(error: DaemonError)
    ensures
        !(error is Transport) ==> {
            &&& recovery_of(error) == Some("pam status"@) <==> error is AlreadyRunning
            &&& recovery_of(error) == Some("pam gui"@) <==> error is LaunchNotGranted
                || error is StaleState
            &&& recovery_of(error) is None <==> !(error is AlreadyRunning)
                && !(error is LaunchNotGranted) && !(error is StaleState)
        },
        error matches DaemonError::Transport { message, recovery } ==> recovery_of(error)
            == optional_text(recovery) && daemon_error_text(error) == message@,
        error matches DaemonError::Identity(text) ==> daemon_error_text(error) == text@,
{
    reveal_strlit("pam status");
    reveal_strlit("pam gui");
    assert("pam status"@.len() == 10);
    assert("pam gui"@.len() == 7);
}

/// Errors in the daemon's own words can be told apart by them.
pub proof fn law_daemon_errors_have_their_own_words(error: DaemonError)
    requires
        !(error is Identity),
        !(error is Reset),
        !(error is Transport),
    ensures
        daemon_error_text(error)
            == "PAM daemon ownership is already claimed. Check it with `pam status`."@
            <==> error is AlreadyRunning,
        daemon_error_text(error)
            == "The PAM daemon starts only from the control center. Open it with `pam gui`."@
            <==> error is LaunchNotGranted,
        daemon_error_text(error) == "PAM daemon request handling failed."@ <==> error is Handler,
        daemon_error_text(error)
            == "PAM daemon endpoint is stale. Restart PAM from the control center (`pam gui`)."@
            <==> error is StaleState,
        daemon_error_text(error) == "PAM could not prepare its local runtime state."@
            <==> error is Io,
        daemon_error_text(error) == "PAM could not start the embedded model runtime."@
            <==> error is Model,
        daemon_error_text(error) == "PAM could not process a protocol message."@
            <==> error is Protocol,
        daemon_error_text(error) == "PAM durable state is unavailable."@ <==> error is Store,
{
    reveal_strlit("PAM daemon ownership is already claimed. Check it with `pam status`.");
    reveal_strlit("The PAM daemon starts only from the control center. Open it with `pam gui`.");
    reveal_strlit("PAM daemon request handling failed.");
    reveal_strlit("PAM daemon endpoint is stale. Restart PAM from the control center (`pam gui`).");
    reveal_strlit("PAM could not prepare its local runtime state.");
    reveal_strlit("PAM could not start the embedded model runtime.");
    reveal_strlit("PAM could not process a protocol message.");
    reveal_strlit("PAM durable state is unavailable.");
    assert("PAM daemon ownership is already claimed. Check it with `pam status`."@.len() == 68);
    assert("The PAM daemon starts only from the control center. Open it with `pam gui`."@.len()
        == 75);
    assert("PAM daemon request handling failed."@.len() == 35);
    assert("PAM daemon endpoint is stale. Restart PAM from the control center (`pam gui`)."@.len()
        == 78);
    assert("PAM could not prepare its local runtime state."@.len() == 46);
    assert("PAM could not start the embedded model runtime."@.len() == 47);
    assert("PAM could not process a protocol message."@.len() == 41);
    assert("PAM durable state is unavailable."@.len() == 33);
}

} // verus!
