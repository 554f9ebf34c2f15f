//! The daemon's place on its host: its runtime directory, its socket, and the
//! claim that no other daemon runs.

use vstd::prelude::*;

use crate::error::DaemonError;
use crate::paths::{
    begins_with, components, is_absolute, parent, path_components, path_is_absolute, path_parent,
    path_starts_with,
};
use crate::split::texts;
use crate::text::same_text;

verus! {

/// What to do about the socket path.
pub enum EndpointAction {
    Proceed,
    /// Remove what an earlier daemon left there.
    RemoveSocket,
    Refuse(DaemonError),
}

/// `action` is right for a socket path.
pub open spec fn prepares_endpoint(
    socket_exists: bool,
    recover: bool,
    action: EndpointAction,
) -> bool {
    match action {
        EndpointAction::Proceed => !socket_exists,
        EndpointAction::RemoveSocket => socket_exists && recover,
        EndpointAction::Refuse(error) => {
            &&& socket_exists && !recover
            &&& error matches DaemonError::StaleState(reason) && reason@
                == "Unix socket path already exists"@
        },
    }
}

/// Decides about a socket path that may be in use. What is there is removed
/// only where the owner asked for recovery.
pub fn prepare_endpoint(socket_exists: bool, recover: bool) -> (action: EndpointAction)
    ensures
        prepares_endpoint(socket_exists, recover, action),
{
    if !socket_exists {
        EndpointAction::Proceed
    } else if recover {
        EndpointAction::RemoveSocket
    } else {
        EndpointAction::Refuse(
            DaemonError::StaleState("Unix socket path already exists".to_owned()),
        )
    }
}

/// Why the runtime directory is not used.
#[derive(Clone, Copy, Debug, PartialEq, Eq, Structural)]
pub enum RuntimeRefusal {
    NotAbsolute,
    NoParent,
    NoFinalComponent,
    OwnershipElsewhere,
    OtherOwner,
    Accessible,
}

pub open spec fn runtime_refusal_text(refusal: RuntimeRefusal) -> Seq<char> {
    match refusal {
        RuntimeRefusal::NotAbsolute => "daemon runtime directory must be absolute"@,
        RuntimeRefusal::NoParent => "daemon runtime directory must have a parent"@,
        RuntimeRefusal::NoFinalComponent => "daemon runtime directory must have a final component"@,
        RuntimeRefusal::OwnershipElsewhere => {
            "daemon ownership path must be a direct runtime-directory child"@
        },
        RuntimeRefusal::OtherOwner => "daemon runtime directory is owned by another user"@,
        RuntimeRefusal::Accessible => "daemon runtime directory is accessible by another user"@,
    }
}

impl RuntimeRefusal {
    pub fn text(self) -> (text: &'static str)
        ensures
            text@ == runtime_refusal_text(self),
    {
        match self {
            RuntimeRefusal::NotAbsolute => "daemon runtime directory must be absolute",
            RuntimeRefusal::NoParent => "daemon runtime directory must have a parent",
            RuntimeRefusal::NoFinalComponent => {
                "daemon runtime directory must have a final component"
            },
            RuntimeRefusal::OwnershipElsewhere => {
                "daemon ownership path must be a direct runtime-directory child"
            },
            RuntimeRefusal::OtherOwner => "daemon runtime directory is owned by another user",
            RuntimeRefusal::Accessible => {
                "daemon runtime directory is accessible by another user"
            },
        }
    }
}

/// Why a path cannot be the runtime directory, if it cannot.
pub open spec fn runtime_path_refusal(path: Seq<char>) -> Option<RuntimeRefusal> {
    if !is_absolute(path) {
        Some(RuntimeRefusal::NotAbsolute)
    } else if parent(path) is None {
        Some(RuntimeRefusal::NoParent)
    } else if components(path).last() == ".."@ {
        Some(RuntimeRefusal::NoFinalComponent)
    } else {
        None
    }
}

/// Judges the path of the runtime directory.
pub fn check_runtime_path(path: &str) -> (result: Result<(), RuntimeRefusal>)
    ensures
        match result {
            Ok(_) => runtime_path_refusal(path@) is None,
            Err(refusal) => runtime_path_refusal(path@) == Some(refusal),
        },
{
    if !path_is_absolute(path) {
        return Err(RuntimeRefusal::NotAbsolute);
    }
    if path_parent(path).is_none() {
        return Err(RuntimeRefusal::NoParent);
    }
    let parts = path_components(path);
    assert(texts(parts@).len() == parts@.len());
    let count = parts.len();
    assert(components(path@)[count - 1] == parts@[count - 1]@);
    if same_text(parts[count - 1].as_str(), "..") {
        return Err(RuntimeRefusal::NoFinalComponent);
    }
    Ok(())
}

/// `path` is an entry of `directory`.
pub open spec fn is_direct_child(path: Seq<char>, directory: Seq<char>) -> bool {
    begins_with(path, directory) && components(path).len() == components(directory).len() + 1
}

/// Judges the path of the ownership claim.
pub fn check_ownership_path(path: &str, runtime_dir: &str) -> (result: Result<(), RuntimeRefusal>)
    ensures
        match result {
            Ok(_) => is_direct_child(path@, runtime_dir@),
            Err(refusal) => !is_direct_child(path@, runtime_dir@) && refusal
                == RuntimeRefusal::OwnershipElsewhere,
        },
{
    let parts = path_components(path);
    let first = path_components(runtime_dir);
    assert(texts(parts@).len() == parts@.len());
    assert(texts(first@).len() == first@.len());
    if path_starts_with(path, runtime_dir) && parts.len() > first.len() && parts.len()
        - first.len() == 1 {
        Ok(())
    } else {
        Err(RuntimeRefusal::OwnershipElsewhere)
    }
}

/// Whether a directory of this owner and mode can be the runtime directory.
pub open spec fn runtime_access_of(owner: u32, user: u32, mode: u32) -> Result<
    (),
    RuntimeRefusal,
> {
    if owner != user {
        Err(RuntimeRefusal::OtherOwner)
    } else if mode & 0o077 != 0 {
        Err(RuntimeRefusal::Accessible)
    } else {
        Ok(())
    }
}

/// Judges the owner of the runtime directory, and its mode once it was
/// narrowed: nobody else may get in.
pub fn check_runtime_access(owner: u32, user: u32, mode: u32) -> (result: Result<
    (),
    RuntimeRefusal,
>)
    ensures
        result == runtime_access_of(owner, user, mode),
{
    if owner != user {
        return Err(RuntimeRefusal::OtherOwner);
    }
    if mode & 0o077 != 0 {
        return Err(RuntimeRefusal::Accessible);
    }
    Ok(())
}

/// What the attempt to claim the ownership lock came to.
#[derive(Clone, Copy, Debug, PartialEq, Eq, Structural)]
pub enum LockAttempt {
    Locked,
    HeldElsewhere,
    Failed,
}

/// Judges the attempt: one daemon at a time.
pub fn claim_ownership(attempt: LockAttempt) -> (result: Result<(), DaemonError>)
    ensures
        match attempt {
            LockAttempt::Locked => result is Ok,
            LockAttempt::HeldElsewhere => result is Err && result->Err_0
                == DaemonError::AlreadyRunning,
            LockAttempt::Failed => result is Err && result->Err_0 == DaemonError::Io,
        },
{
    match attempt {
        LockAttempt::Locked => Ok(()),
        LockAttempt::HeldElsewhere => Err(DaemonError::AlreadyRunning),
        LockAttempt::Failed => Err(DaemonError::Io),
    }
}

/// A runtime directory is the user's own and closed to the group and to all
/// others, whatever else its mode says.
pub proof fn law_runtime_directories_are_private(owner: u32, user: u32, mode: u32)
    ensures
        runtime_access_of(owner, user, mode) is Ok <==> owner == user && mode & 0o070 == 0 && mode
            & 0o007 == 0,
        runtime_access_of(owner, user, mode) == Err::<(), RuntimeRefusal>(
            RuntimeRefusal::OtherOwner,
        ) <==> owner != user,
        owner == user && mode & 0o700 == mode ==> runtime_access_of(owner, user, mode) is Ok,
{
    assert(mode & 0o077 == 0 <==> mode & 0o070 == 0 && mode & 0o007 == 0) by (bit_vector);
    assert(mode & 0o700 == mode ==> mode & 0o077 == 0) by (bit_vector);
}

/// A runtime directory is named in full, is not the root, and ends in a name.
pub proof fn law_runtime_directories_are_named_in_full(path: Seq<char>)
    ensures
        runtime_path_refusal(path) is None <==> is_absolute(path) && parent(path) is Some
            && components(path).last() != ".."@,
        runtime_path_refusal(path) == Some(RuntimeRefusal::NotAbsolute) <==> !is_absolute(path),
        runtime_path_refusal(path) == Some(RuntimeRefusal::NoParent) <==> is_absolute(path)
            && parent(path) is None,
        is_absolute(path) <==> path.len() > 0 && path[0] == '/',
{
}

/// A claim lies in its directory: it has every component of the directory, and one
/// more.
pub proof fn law_claims_lie_in_their_directory(path: Seq<char>, directory: Seq<char>)
    requires
        is_direct_child(path, directory),
    ensures
        components(path).drop_last() == components(directory),
        !is_direct_child(directory, path),
{
    assert(components(path).drop_last() =~= components(directory));
}

/// Each refusal says which rule a runtime directory breaks.
pub proof fn law_runtime_refusals_have_their_own_words(refusal: RuntimeRefusal)
    ensures
        runtime_refusal_text(refusal) == "daemon runtime directory must be absolute"@ <==> refusal
            == RuntimeRefusal::NotAbsolute,
        runtime_refusal_text(refusal) == "daemon runtime directory must have a parent"@ <==> refusal
            == RuntimeRefusal::NoParent,
        runtime_refusal_text(refusal) == "daemon runtime directory must have a final component"@
            <==> refusal == RuntimeRefusal::NoFinalComponent,
        runtime_refusal_text(refusal)
            == "daemon ownership path must be a direct runtime-directory child"@ <==> refusal
            == RuntimeRefusal::OwnershipElsewhere,
        runtime_refusal_text(refusal) == "daemon runtime directory is owned by another user"@
            <==> refusal == RuntimeRefusal::OtherOwner,
        runtime_refusal_text(refusal) == "daemon runtime directory is accessible by another user"@
            <==> refusal == RuntimeRefusal::Accessible,
{
    reveal_strlit("daemon runtime directory must be absolute");
    reveal_strlit("daemon runtime directory must have a parent");
    reveal_strlit("daemon runtime directory must have a final component");
    reveal_strlit("daemon ownership path must be a direct runtime-directory child");
    reveal_strlit("daemon runtime directory is owned by another user");
    reveal_strlit("daemon runtime directory is accessible by another user");
    assert("daemon runtime directory must be absolute"@.len() == 41);
    assert("daemon runtime directory must have a parent"@.len() == 43);
    assert("daemon runtime directory must have a final component"@.len() == 52);
    assert("daemon ownership path must be a direct runtime-directory child"@.len() == 62);
    assert("daemon runtime directory is owned by another user"@.len() == 49);
    assert("daemon runtime directory is accessible by another user"@.len() == 54);
}

/// A socket that is there is never used and removed only where recovery was asked
/// for; without it the daemon does not start.
pub proof fn law_sockets_are_removed_when_asked(
    socket_exists: bool,
    recover: bool,
    action: EndpointAction,
)
    requires
        prepares_endpoint(socket_exists, recover, action),
    ensures
        action is RemoveSocket <==> socket_exists && recover,
        action is Proceed <==> !socket_exists,
        action is Refuse <==> socket_exists && !recover,
        action matches EndpointAction::Refuse(error) ==> error is StaleState,
{
}

} // verus!
