//! Tiered reset of PAM's durable state.
//!
//! Two rules hold everywhere here, because a reset that deletes the wrong
//! directory cannot be undone. Every path is joined from single components
//! below one root that no caller supplies. And nothing is removed that is not
//! strictly inside that root.

pub mod factory;
pub mod items;
pub mod tiers;
pub mod tree;
pub mod walk;

use vstd::prelude::*;

use crate::paths::{
    begins_with, climbs, components, is_normal, join_path, joined, lemma_components_joined,
    lemma_parent_of_joined, lemma_plain_segment, parent, path_climbs, path_components, path_parent,
    path_starts_with, paths_equal, same_path,
};
use crate::protocol::{FailureCode, optional_text};
use crate::split::texts;
use crate::text::{
    concat2, concat3, concat4, decimal, decimal_text, has_prefix, lemma_decimal_is_injective,
    same_text,
};

verus! {

// Errors

/// What to do about a daemon that still owns the store.
pub const DAEMON_RUNNING_RECOVERY: &'static str =
    "Stop PAM first -- quit the running `pam daemon`, or press Stop in the PAM control center -- then run the reset again.";

/// What to do about a reset that was not confirmed.
pub const CONFIRMATION_RECOVERY: &'static str =
    "Re-run with --dry-run to see exactly what would go, then with --yes to perform it.";

/// Why a reset refuses or fails. Where another part of PAM failed, the error
/// carries its words.
pub enum ResetError {
    DataDirectory(String),
    Store(String),
    Filesystem { path: String, reason: String },
    /// A path outside the data root, which was not touched.
    OutsideRoot(String),
    Credentials(String),
    DaemonRunning,
    Interrupted,
}

pub open spec fn reset_error_text(error: ResetError) -> Seq<char> {
    match error {
        ResetError::DataDirectory(reason) => "PAM could not resolve its data directory: "@
            + reason@,
        ResetError::Store(reason) => "durable state was unavailable: "@ + reason@,
        ResetError::Filesystem { path, reason } => "could not remove "@ + path@ + ": "@ + reason@,
        ResetError::OutsideRoot(path) => "refused to touch "@ + path@
            + " because it is outside PAM's data directory"@,
        ResetError::Credentials(reason) => "the credential store was unavailable: "@ + reason@,
        ResetError::DaemonRunning => "a running daemon still owns PAM's durable state"@,
        ResetError::Interrupted => "the reset was interrupted before it ran"@,
    }
}

pub open spec fn reset_recovery(error: ResetError) -> Option<Seq<char>> {
    match error {
        ResetError::DaemonRunning => Some(DAEMON_RUNNING_RECOVERY@),
        ResetError::Filesystem { path, .. } => Some(
            "Close any program holding "@ + path@ + ", then run the reset again."@,
        ),
        ResetError::OutsideRoot(_) => Some(
            "Reset refused a path outside PAM's data directory and changed nothing. Report this."@,
        ),
        ResetError::Credentials(_) => Some(
            "Unlock the login keychain and allow PAM to access its credentials, then run the reset again."@,
        ),
        ResetError::DataDirectory(_) | ResetError::Store(_) | ResetError::Interrupted => None,
    }
}

/// The code that an error is classed under.
pub open spec fn reset_failure_code(error: ResetError) -> FailureCode {
    match error {
        ResetError::OutsideRoot(_) => FailureCode::InvalidRequest,
        ResetError::DaemonRunning => FailureCode::LeaseConflict,
        _ => FailureCode::Internal,
    }
}

impl ResetError {
    /// What the owner is told.
    pub fn message(&self) -> (text: String)
        ensures
            text@ == reset_error_text(*self),
    {
        match self {
            ResetError::DataDirectory(reason) => concat2(
                "PAM could not resolve its data directory: ",
                reason.as_str(),
            ),
            ResetError::Store(reason) => concat2(
                "durable state was unavailable: ",
                reason.as_str(),
            ),
            ResetError::Filesystem { path, reason } => concat4(
                "could not remove ",
                path.as_str(),
                ": ",
                reason.as_str(),
            ),
            ResetError::OutsideRoot(path) => concat3(
                "refused to touch ",
                path.as_str(),
                " because it is outside PAM's data directory",
            ),
            ResetError::Credentials(reason) => concat2(
                "the credential store was unavailable: ",
                reason.as_str(),
            ),
            ResetError::DaemonRunning => {
                "a running daemon still owns PAM's durable state".to_owned()
            },
            ResetError::Interrupted => "the reset was interrupted before it ran".to_owned(),
        }
    }

    /// The next step that clears the refusal, where there is one.
    pub fn recovery(&self) -> (text: Option<String>)
        ensures
            optional_text(text) == reset_recovery(*self),
    {
        match self {
            ResetError::DaemonRunning => Some(DAEMON_RUNNING_RECOVERY.to_owned()),
            ResetError::Filesystem { path, .. } => Some(
                concat3(
                    "Close any program holding ",
                    path.as_str(),
                    ", then run the reset again.",
                ),
            ),
            ResetError::OutsideRoot(_) => Some(
                "Reset refused a path outside PAM's data directory and changed nothing. Report this.".to_owned(),
            ),
            ResetError::Credentials(_) => Some(
                "Unlock the login keychain and allow PAM to access its credentials, then run the reset again.".to_owned(),
            ),
            _ => None,
        }
    }

    /// How the error is classed for a caller.
    pub fn failure_code(&self) -> (code: FailureCode)
        ensures
            code == reset_failure_code(*self),
    {
        match self {
            ResetError::OutsideRoot(_) => FailureCode::InvalidRequest,
            ResetError::DaemonRunning => FailureCode::LeaseConflict,
            _ => FailureCode::Internal,
        }
    }
}

// Paths

pub const STATE_FILE: &'static str = "state.sqlite3";

pub const SETTINGS_FILE: &'static str = "settings.json";

pub const CALLERS_DIRECTORY: &'static str = "callers";

pub const EVIDENCE_DIRECTORY: &'static str = "evidence";

pub const LOGS_DIRECTORY: &'static str = "logs";

pub const RUNTIME_DIRECTORY: &'static str = "runtime";

/// The directory that holds the flow library.
pub const FLOW_LIBRARY_PARENT: &'static str = ".pam";

/// The flow library, in its directory.
pub const FLOW_LIBRARY_NAME: &'static str = "flows";

pub const RECEIPT_PREFIX: &'static str = "pam-reset-receipt-";

/// `segment` is one component, and names an entry.
pub open spec fn is_single(segment: Seq<char>) -> bool {
    components(segment).len() == 1 && is_normal(components(segment)[0])
}

/// `target` is strictly inside `root`, and does not climb on the way.
pub open spec fn is_within(root: Seq<char>, target: Seq<char>) -> bool {
    &&& !same_path(target, root)
    &&& begins_with(target, root)
    &&& !climbs(target)
}

/// Refuses a segment that is more, or less, than one component. `context` is
/// the path that the refusal names.
pub fn ensure_single_component(segment: &str, context: &str) -> (result: Result<(), ResetError>)
    ensures
        match result {
            Ok(_) => is_single(segment@),
            Err(error) => !is_single(segment@) && (error matches ResetError::OutsideRoot(path)
                && path@ == context@),
        },
{
    let parts = path_components(segment);
    assert(texts(parts@).len() == parts@.len());
    if parts.len() == 1 {
        assert(components(segment@)[0] == parts@[0]@);
        if !same_text(parts[0].as_str(), "/") && !same_text(parts[0].as_str(), ".") && !same_text(
            parts[0].as_str(),
            "..",
        ) {
            return Ok(());
        }
    }
    Err(ResetError::OutsideRoot(context.to_owned()))
}

/// Refuses a path that is not strictly inside the root. The root itself is
/// emptied and never removed.
pub fn ensure_within(root: &str, target: &str) -> (result: Result<(), ResetError>)
    ensures
        match result {
            Ok(_) => is_within(root@, target@),
            Err(error) => !is_within(root@, target@) && (
            error matches ResetError::OutsideRoot(path) && path@ == target@),
        },
{
    if paths_equal(target, root) || !path_starts_with(target, root) || path_climbs(target) {
        return Err(ResetError::OutsideRoot(target.to_owned()));
    }
    Ok(())
}

/// An entry of the root, or of anything inside it, is inside the root.
pub proof fn law_entries_are_within(root: Seq<char>, directory: Seq<char>, segment: Seq<char>)
    requires
        !climbs(root),
        directory == root || is_within(root, directory),
        is_single(segment),
    ensures
        is_within(root, joined(directory, segment)),
{
    lemma_components_joined(directory, segment);
    let all = components(joined(directory, segment));
    let first = components(root);
    assert(all.take(first.len() as int) =~= components(directory).take(first.len() as int));
    if directory == root {
        assert(components(directory).take(first.len() as int) =~= first);
    }
    assert forall|i: int| 0 <= i < all.len() implies #[trigger] all[i] != ".."@ by {
        if i < components(directory).len() {
            assert(all[i] == components(directory)[i]);
        } else {
            assert(all[i] == components(segment)[0]);
        }
    }
}

/// Where a reset may read and remove: below one resolved directory.
#[derive(Clone, Debug, PartialEq, Eq)]
pub struct ResetPaths {
    pub root: String,
}

pub open spec fn flow_library_of(root: Seq<char>) -> Seq<char> {
    joined(joined(root, FLOW_LIBRARY_PARENT@), FLOW_LIBRARY_NAME@)
}

pub open spec fn receipt_name(now_ms: u64) -> Seq<char> {
    RECEIPT_PREFIX@ + decimal(now_ms as nat) + ".txt"@
}

impl ResetPaths {
    /// The root as the file system resolves it; as it is given where the file
    /// system does not know it, and there is nothing to remove.
    pub fn rooted(root: String, resolved: Option<String>) -> (paths: ResetPaths)
        ensures
            paths.root == (match resolved {
                Some(path) => path,
                None => root,
            }),
    {
        match resolved {
            Some(path) => ResetPaths { root: path },
            None => ResetPaths { root },
        }
    }

    /// The root that the state database is in. It is still to be resolved.
    pub fn for_state_path(state_path: &str) -> (paths: Result<ResetPaths, ResetError>)
        ensures
            match paths {
                Ok(found) => parent(state_path@) == Some(found.root@) && found.root@.len() > 0,
                Err(error) => {
                    &&& parent(state_path@) is None || parent(state_path@) == Some(
                        Seq::<char>::empty(),
                    )
                    &&& error matches ResetError::OutsideRoot(path) && path@ == state_path@
                },
            },
    {
        match path_parent(state_path) {
            Some(root) => {
                if root.as_str().is_empty() {
                    assert(root@ =~= Seq::<char>::empty());
                    Err(ResetError::OutsideRoot(state_path.to_owned()))
                } else {
                    Ok(ResetPaths { root })
                }
            },
            None => Err(ResetError::OutsideRoot(state_path.to_owned())),
        }
    }

    /// The data root. Its contents are removed; it is not.
    pub fn root(&self) -> (root: &str)
        ensures
            root@ == self.root@,
    {
        self.root.as_str()
    }

    /// The state database.
    pub fn state_path(&self) -> (path: String)
        ensures
            path@ == joined(self.root@, STATE_FILE@),
    {
        join_path(self.root.as_str(), STATE_FILE)
    }

    /// An entry of the root.
    pub fn child(&self, segment: &str) -> (path: Result<String, ResetError>)
        ensures
            match path {
                Ok(found) => is_single(segment@) && found@ == joined(self.root@, segment@),
                Err(error) => !is_single(segment@) && (
                error matches ResetError::OutsideRoot(named) && named@ == joined(
                    self.root@,
                    segment@,
                )),
            },
    {
        let child = join_path(self.root.as_str(), segment);
        match ensure_single_component(segment, child.as_str()) {
            Ok(_) => Ok(child),
            Err(error) => Err(error),
        }
    }

    /// The flow library.
    pub fn flow_library(&self) -> (path: String)
        ensures
            path@ == flow_library_of(self.root@),
    {
        let parent = join_path(self.root.as_str(), FLOW_LIBRARY_PARENT);
        join_path(parent.as_str(), FLOW_LIBRARY_NAME)
    }

    /// Where the receipt of a factory reset goes: beside the root and not in
    /// it, so that the reset does not remove its own record.
    pub fn receipt_path(&self, now_ms: u64) -> (path: Result<String, ResetError>)
        ensures
            match (path, parent(self.root@)) {
                (Ok(found), Some(beside)) => beside.len() > 0 && found@ == joined(
                    beside,
                    receipt_name(now_ms),
                ),
                (Err(error), beside) => {
                    &&& beside is None || beside == Some(Seq::<char>::empty())
                    &&& error matches ResetError::OutsideRoot(named) && named@ == self.root@
                },
                _ => false,
            },
    {
        match path_parent(self.root.as_str()) {
            Some(beside) => {
                if beside.as_str().is_empty() {
                    assert(beside@ =~= Seq::<char>::empty());
                    return Err(ResetError::OutsideRoot(self.root.clone()));
                }
                let moment = decimal_text(now_ms);
                let name = concat3(RECEIPT_PREFIX, moment.as_str(), ".txt");
                Ok(join_path(beside.as_str(), name.as_str()))
            },
            None => Err(ResetError::OutsideRoot(self.root.clone())),
        }
    }
}

/// The state database of a root leads back to that root.
pub proof fn law_state_paths_lead_back(root: Seq<char>)
    requires
        root.len() > 0,
    ensures
        parent(joined(root, STATE_FILE@)) matches Some(found) && found.len() > 0 && same_path(
            found,
            root,
        ),
{
    reveal_strlit("state.sqlite3");
    reveal_strlit("/");
    reveal_strlit(".");
    reveal_strlit("..");
    assert(STATE_FILE@.len() == 13);
    lemma_plain_segment(STATE_FILE@);
    lemma_parent_of_joined(root, STATE_FILE@);
}

/// A caller can tell by its code that a reset was refused for a path outside the
/// data root or for a running daemon; all else is internal. A next step is
/// named wherever the owner can take one, and names the path that is in the
/// way.
pub proof fn law_refused_resets_say_what_to_do(error: ResetError)
    ensures
        reset_failure_code(error) == FailureCode::InvalidRequest <==> error is OutsideRoot,
        reset_failure_code(error) == FailureCode::LeaseConflict <==> error is DaemonRunning,
        reset_failure_code(error) == FailureCode::Internal <==> !(error is OutsideRoot) && !(
        error is DaemonRunning),
        reset_recovery(error) is None <==> error is DataDirectory || error is Store
            || error is Interrupted,
        error is DaemonRunning ==> reset_recovery(error) == Some(DAEMON_RUNNING_RECOVERY@),
        error matches ResetError::Filesystem { path, reason } ==> reset_recovery(error) == Some(
            "Close any program holding "@ + path@ + ", then run the reset again."@,
        ) && reset_error_text(error) == "could not remove "@ + path@ + ": "@ + reason@,
        error matches ResetError::OutsideRoot(path) ==> reset_error_text(error)
            == "refused to touch "@ + path@ + " because it is outside PAM's data directory"@,
        error is Credentials ==> reset_recovery(error) == Some(
            "Unlock the login keychain and allow PAM to access its credentials, then run the reset again."@,
        ),
{
}

/// What is inside a root starts as the root does, goes on, and never climbs; so a
/// root is not inside itself, and of two paths at most one is inside the other.
pub proof fn law_inside_is_below(root: Seq<char>, target: Seq<char>, i: int)
    requires
        is_within(root, target),
    ensures
        components(target).len() > components(root).len(),
        0 <= i < components(root).len() ==> components(target)[i] == components(root)[i],
        0 <= i < components(target).len() ==> components(target)[i] != ".."@,
        !is_within(root, root),
        !is_within(target, root),
{
    let first = components(root).len() as int;
    let all = components(target);
    if 0 <= i < first {
        assert(all.take(first)[i] == all[i]);
    }
    if all.len() == first {
        assert(all =~= components(root));
    }
}

/// Two receipts of different moments have different names, and each says what it
/// is.
pub proof fn law_receipts_are_told_apart(now_ms: u64, other_ms: u64)
    ensures
        receipt_name(now_ms) == receipt_name(other_ms) ==> now_ms == other_ms,
        has_prefix(receipt_name(now_ms), "pam-reset-receipt-"@),
{
    let name = receipt_name(now_ms);
    let other = receipt_name(other_ms);
    let start = RECEIPT_PREFIX@;
    let number = decimal(now_ms as nat);
    let other_number = decimal(other_ms as nat);
    assert(name.take(start.len() as int) =~= start);
    if name == other {
        assert(name.len() == start.len() + number.len() + ".txt"@.len());
        assert(other.len() == start.len() + other_number.len() + ".txt"@.len());
        let end: int = (start.len() + number.len()) as int;
        assert(number =~= name.subrange(start.len() as int, end));
        assert(other_number =~= other.subrange(start.len() as int, end));
        lemma_decimal_is_injective(now_ms as nat, other_ms as nat);
    }
}

/// What a reset looks for goes by these names.
pub proof fn law_the_root_is_laid_out(root: Seq<char>)
    ensures
        STATE_FILE@ == "state.sqlite3"@,
        SETTINGS_FILE@ == "settings.json"@,
        CALLERS_DIRECTORY@ == "callers"@,
        EVIDENCE_DIRECTORY@ == "evidence"@,
        LOGS_DIRECTORY@ == "logs"@,
        RUNTIME_DIRECTORY@ == "runtime"@,
        flow_library_of(root) == joined(joined(root, ".pam"@), "flows"@),
{
}

} // verus!
