//! Running one bounded child process: what is kept of its output, when it is
//! stopped, and what its end means.

use vstd::prelude::*;

use super::machine::{CommandEnd, FingerprintCheck, LeaseWait, StoreFault};
use crate::bytes::append_prefix;
use crate::paths::{paths_equal, same_path};

verus! {

/// The most output that a flow command may produce.
pub const MAX_COMMAND_OUTPUT_BYTES: usize = 262_144;

/// The most output that a workspace listing may produce.
pub const MAX_WORKSPACE_LIST_BYTES: usize = 8_388_608;

// Output

/// Why the output of a child is not exactly what it wrote.
#[derive(Clone, Copy, Debug, PartialEq, Eq, Structural)]
pub enum OutputCollectionError {
    Io,
    Overflow,
    Incomplete,
}

/// The bytes that fit below `limit` after `held` bytes.
pub open spec fn room(held: nat, limit: nat) -> nat {
    if held < limit {
        (limit - held) as nat
    } else {
        0
    }
}

/// What is kept of `chunk`: as much of it as still fits.
pub open spec fn kept(chunk: Seq<u8>, held: nat, limit: nat) -> Seq<u8> {
    if chunk.len() <= room(held, limit) {
        chunk
    } else {
        chunk.take(room(held, limit) as int)
    }
}

/// Appends what fits of `chunk`, and reports an overflow when not all of it
/// does.
pub fn append_output(output: &mut Vec<u8>, chunk: &[u8], output_limit: usize) -> (result: Result<
    (),
    OutputCollectionError,
>)
    ensures
        final(output)@ == old(output)@ + kept(chunk@, old(output)@.len(), output_limit as nat),
        result == (if chunk@.len() <= room(old(output)@.len(), output_limit as nat) {
            Ok::<(), OutputCollectionError>(())
        } else {
            Err::<(), OutputCollectionError>(OutputCollectionError::Overflow)
        }),
{
    let remaining = output_limit.saturating_sub(output.len());
    assert(chunk@.take(chunk@.len() as int) =~= chunk@);
    if chunk.len() > remaining {
        append_prefix(output, chunk, remaining);
        Err(OutputCollectionError::Overflow)
    } else {
        append_prefix(output, chunk, chunk.len());
        Ok(())
    }
}

/// All chunks in a row.
pub open spec fn joined_chunks(chunks: Seq<Seq<u8>>) -> Seq<u8>
    decreases chunks.len(),
{
    if chunks.len() == 0 {
        seq![]
    } else {
        joined_chunks(chunks.drop_last()) + chunks.last()
    }
}

/// The output after the chunks were appended one by one.
pub open spec fn captured(chunks: Seq<Seq<u8>>, limit: nat) -> Seq<u8>
    decreases chunks.len(),
{
    if chunks.len() == 0 {
        seq![]
    } else {
        let held = captured(chunks.drop_last(), limit);
        held + kept(chunks.last(), held.len(), limit)
    }
}

/// Some append reported an overflow.
pub open spec fn overflowed(chunks: Seq<Seq<u8>>, limit: nat) -> bool
    decreases chunks.len(),
{
    chunks.len() > 0 && (overflowed(chunks.drop_last(), limit) || chunks.last().len() > room(
        captured(chunks.drop_last(), limit).len(),
        limit,
    ))
}

/// Captured output is the beginning of what the child wrote, never exceeds the
/// limit, and is all of it exactly when no overflow was reported.
pub proof fn law_output_is_an_exact_prefix(chunks: Seq<Seq<u8>>, limit: nat)
    ensures
        ({
            let written = joined_chunks(chunks);
            let output = captured(chunks, limit);
            &&& output.len() <= limit
            &&& output.len() <= written.len()
            &&& output == written.take(output.len() as int)
            &&& overflowed(chunks, limit) <==> written.len() > limit
            &&& !overflowed(chunks, limit) ==> output == written
            &&& overflowed(chunks, limit) ==> output.len() == limit
        }),
    decreases chunks.len(),
{
    if chunks.len() == 0 {
        assert(captured(chunks, limit) =~= joined_chunks(chunks).take(0));
    } else {
        let before = chunks.drop_last();
        law_output_is_an_exact_prefix(before, limit);
        let held = captured(before, limit);
        let written = joined_chunks(chunks);
        let output = captured(chunks, limit);
        assert(output =~= written.take(output.len() as int)) by {
            if overflowed(before, limit) {
                assert(kept(chunks.last(), held.len(), limit) =~= Seq::<u8>::empty()
                    || chunks.last().len() == 0);
            }
        }
        if !overflowed(chunks, limit) {
            assert(output =~= written);
        }
    }
}

// Stopping

/// How draining the pipes ended.
#[derive(Clone, Copy, Debug, PartialEq, Eq, Structural)]
pub enum DrainEnd {
    Drained,
    Overflow,
    ReadFailed,
    TimedOut,
}

/// How joining the pipe readers ended.
#[derive(Clone, Copy, Debug, PartialEq, Eq, Structural)]
pub enum ReadersEnd {
    Joined,
    Failed,
    TimedOut,
}

/// How reaping the killed child ended.
#[derive(Clone, Copy, Debug, PartialEq, Eq, Structural)]
pub enum ReapEnd {
    Reaped,
    Failed,
    TimedOut,
}

/// The first problem of draining, joining and reaping, in this order.
pub open spec fn collection(drain: DrainEnd, readers: ReadersEnd, reap: ReapEnd) -> Result<
    (),
    OutputCollectionError,
> {
    if drain == DrainEnd::Overflow {
        Err(OutputCollectionError::Overflow)
    } else if drain != DrainEnd::Drained || readers != ReadersEnd::Joined {
        Err(OutputCollectionError::Incomplete)
    } else {
        match reap {
            ReapEnd::Reaped => Ok(()),
            ReapEnd::Failed => Err(OutputCollectionError::Io),
            ReapEnd::TimedOut => Err(OutputCollectionError::Incomplete),
        }
    }
}

/// Judges how terminating a child and collecting its output went.
pub fn collection_result(drain: DrainEnd, readers: ReadersEnd, reap: ReapEnd) -> (result: Result<
    (),
    OutputCollectionError,
>)
    ensures
        result == collection(drain, readers, reap),
{
    match drain {
        DrainEnd::Overflow => Err(OutputCollectionError::Overflow),
        DrainEnd::ReadFailed | DrainEnd::TimedOut => Err(OutputCollectionError::Incomplete),
        DrainEnd::Drained => match readers {
            ReadersEnd::Joined => match reap {
                ReapEnd::Reaped => Ok(()),
                ReapEnd::Failed => Err(OutputCollectionError::Io),
                ReapEnd::TimedOut => Err(OutputCollectionError::Incomplete),
            },
            _ => Err(OutputCollectionError::Incomplete),
        },
    }
}

/// Why a child is being terminated.
#[derive(Clone, Copy, Debug, PartialEq, Eq, Structural)]
pub enum StopReason {
    Exited { success: bool },
    WaitFailed,
    Overflow,
    ReadFailed,
    Deadline,
    Cancelled,
    StaleLease,
    LeaseFailed(StoreFault),
}

/// What running a command gave: an ending, or an error of the host or store.
#[derive(Clone, Copy, Debug, PartialEq, Eq, Structural)]
pub enum CommandResult {
    Ended(CommandEnd),
    Io,
    Fault(StoreFault),
}

/// What came of the last action.
#[derive(Clone, Copy, Debug, PartialEq, Eq)]
pub enum CommandEvent {
    Spawned(bool),
    /// The child still runs.
    Running,
    /// The child ended by itself.
    Exited { success: bool },
    /// The child's state could not be read.
    WaitFailed,
    /// A chunk of output was appended.
    Appended(Result<(), OutputCollectionError>),
    /// A pipe could not be read.
    ReadFailed,
    /// Every pipe is closed.
    OutputClosed,
    Deadline,
    /// The lease was renewed and the request polled.
    Lease(LeaseWait),
    LeaseFailed(StoreFault),
    Collected(Result<(), OutputCollectionError>),
}

/// Work to perform before the next event.
#[derive(Clone, Copy, Debug, PartialEq, Eq, Structural)]
pub enum CommandStep {
    Spawn,
    /// Ask whether the child has ended.
    TryWait,
    /// Wait for output, the deadline or the heartbeat.
    Select,
    TerminateAndCollect,
    Return(CommandResult),
    Ignore,
}

/// What the command runner is waiting for.
#[derive(Clone, Copy, Debug, PartialEq, Eq, Structural)]
pub enum CommandPhase {
    Launching,
    Polling,
    Selecting,
    Stopping(StopReason),
    Done,
}

/// The meaning of a stopped child whose output was collected.
pub open spec fn conclusion(
    reason: StopReason,
    collected: Result<(), OutputCollectionError>,
) -> CommandResult {
    match reason {
        StopReason::WaitFailed => CommandResult::Io,
        StopReason::Overflow => CommandResult::Ended(CommandEnd::OutputLimit),
        StopReason::ReadFailed => CommandResult::Ended(CommandEnd::CaptureFailed),
        StopReason::Cancelled => CommandResult::Ended(CommandEnd::Cancelled),
        StopReason::StaleLease => CommandResult::Ended(CommandEnd::StaleLease),
        StopReason::LeaseFailed(fault) => CommandResult::Fault(fault),
        StopReason::Exited { .. } | StopReason::Deadline => match collected {
            Err(OutputCollectionError::Overflow) => CommandResult::Ended(CommandEnd::OutputLimit),
            Err(OutputCollectionError::Incomplete) => {
                CommandResult::Ended(CommandEnd::CaptureFailed)
            },
            Err(OutputCollectionError::Io) => CommandResult::Io,
            Ok(()) => match reason {
                StopReason::Exited { success } => {
                    CommandResult::Ended(CommandEnd::Completed { success })
                },
                _ => CommandResult::Ended(CommandEnd::TimedOut),
            },
        },
    }
}

pub open spec fn stopping(reason: StopReason) -> (CommandPhase, CommandStep) {
    (CommandPhase::Stopping(reason), CommandStep::TerminateAndCollect)
}

/// The rule of the command runner.
pub open spec fn spec_command_step(phase: CommandPhase, event: CommandEvent) -> (
    CommandPhase,
    CommandStep,
) {
    match (phase, event) {
        (CommandPhase::Launching, CommandEvent::Spawned(spawned)) => if spawned {
            (CommandPhase::Polling, CommandStep::TryWait)
        } else {
            (
                CommandPhase::Done,
                CommandStep::Return(CommandResult::Ended(CommandEnd::LaunchFailed)),
            )
        },
        (CommandPhase::Polling, CommandEvent::Running) => (
            CommandPhase::Selecting,
            CommandStep::Select,
        ),
        (CommandPhase::Polling, CommandEvent::Exited { success }) => stopping(
            StopReason::Exited { success },
        ),
        (CommandPhase::Polling, CommandEvent::WaitFailed) => stopping(StopReason::WaitFailed),
        (CommandPhase::Selecting, CommandEvent::Appended(appended)) => if appended is Ok {
            (CommandPhase::Polling, CommandStep::TryWait)
        } else {
            stopping(StopReason::Overflow)
        },
        (CommandPhase::Selecting, CommandEvent::OutputClosed) => (
            CommandPhase::Polling,
            CommandStep::TryWait,
        ),
        (CommandPhase::Selecting, CommandEvent::ReadFailed) => stopping(StopReason::ReadFailed),
        (CommandPhase::Selecting, CommandEvent::Deadline) => stopping(StopReason::Deadline),
        (CommandPhase::Selecting, CommandEvent::Lease(wait)) => match wait {
            LeaseWait::Ready => (CommandPhase::Polling, CommandStep::TryWait),
            LeaseWait::Cancelled => stopping(StopReason::Cancelled),
            LeaseWait::StaleLease => stopping(StopReason::StaleLease),
        },
        (CommandPhase::Selecting, CommandEvent::LeaseFailed(fault)) => stopping(
            StopReason::LeaseFailed(fault),
        ),
        (CommandPhase::Stopping(reason), CommandEvent::Collected(collected)) => (
            CommandPhase::Done,
            CommandStep::Return(conclusion(reason, collected)),
        ),
        _ => (phase, CommandStep::Ignore),
    }
}

fn conclude(reason: StopReason, collected: Result<(), OutputCollectionError>) -> (result:
    CommandResult)
    ensures
        result == conclusion(reason, collected),
{
    match reason {
        StopReason::WaitFailed => CommandResult::Io,
        StopReason::Overflow => CommandResult::Ended(CommandEnd::OutputLimit),
        StopReason::ReadFailed => CommandResult::Ended(CommandEnd::CaptureFailed),
        StopReason::Cancelled => CommandResult::Ended(CommandEnd::Cancelled),
        StopReason::StaleLease => CommandResult::Ended(CommandEnd::StaleLease),
        StopReason::LeaseFailed(fault) => CommandResult::Fault(fault),
        StopReason::Exited { .. } | StopReason::Deadline => match collected {
            Err(OutputCollectionError::Overflow) => CommandResult::Ended(CommandEnd::OutputLimit),
            Err(OutputCollectionError::Incomplete) => {
                CommandResult::Ended(CommandEnd::CaptureFailed)
            },
            Err(OutputCollectionError::Io) => CommandResult::Io,
            Ok(()) => match reason {
                StopReason::Exited { success } => {
                    CommandResult::Ended(CommandEnd::Completed { success })
                },
                _ => CommandResult::Ended(CommandEnd::TimedOut),
            },
        },
    }
}

fn stop(reason: StopReason) -> (next: (CommandPhase, CommandStep))
    ensures
        next == stopping(reason),
{
    (CommandPhase::Stopping(reason), CommandStep::TerminateAndCollect)
}

/// Decides what follows `event` while a command runs.
pub fn command_step(phase: CommandPhase, event: CommandEvent) -> (next: (CommandPhase, CommandStep))
    ensures
        next == spec_command_step(phase, event),
{
    match (phase, event) {
        (CommandPhase::Launching, CommandEvent::Spawned(spawned)) => {
            if spawned {
                (CommandPhase::Polling, CommandStep::TryWait)
            } else {
                (
                    CommandPhase::Done,
                    CommandStep::Return(CommandResult::Ended(CommandEnd::LaunchFailed)),
                )
            }
        },
        (CommandPhase::Polling, CommandEvent::Running) => (
            CommandPhase::Selecting,
            CommandStep::Select,
        ),
        (CommandPhase::Polling, CommandEvent::Exited { success }) => stop(
            StopReason::Exited { success },
        ),
        (CommandPhase::Polling, CommandEvent::WaitFailed) => stop(StopReason::WaitFailed),
        (CommandPhase::Selecting, CommandEvent::Appended(appended)) => match appended {
            Ok(()) => (CommandPhase::Polling, CommandStep::TryWait),
            Err(_) => stop(StopReason::Overflow),
        },
        (CommandPhase::Selecting, CommandEvent::OutputClosed) => (
            CommandPhase::Polling,
            CommandStep::TryWait,
        ),
        (CommandPhase::Selecting, CommandEvent::ReadFailed) => stop(StopReason::ReadFailed),
        (CommandPhase::Selecting, CommandEvent::Deadline) => stop(StopReason::Deadline),
        (CommandPhase::Selecting, CommandEvent::Lease(wait)) => match wait {
            LeaseWait::Ready => (CommandPhase::Polling, CommandStep::TryWait),
            LeaseWait::Cancelled => stop(StopReason::Cancelled),
            LeaseWait::StaleLease => stop(StopReason::StaleLease),
        },
        (CommandPhase::Selecting, CommandEvent::LeaseFailed(fault)) => stop(
            StopReason::LeaseFailed(fault),
        ),
        (CommandPhase::Stopping(reason), CommandEvent::Collected(collected)) => (
            CommandPhase::Done,
            CommandStep::Return(conclude(reason, collected)),
        ),
        _ => (phase, CommandStep::Ignore),
    }
}

/// Whether the output of a command counts as a listing: only where the command
/// ended by itself, in success and with its output captured whole.
pub fn listing_is_complete(result: CommandResult) -> (complete: bool)
    ensures
        complete <==> result == CommandResult::Ended(CommandEnd::Completed { success: true }),
{
    match result {
        CommandResult::Ended(CommandEnd::Completed { success }) => success,
        _ => false,
    }
}

/// Phase and step after `events`, starting with the spawn.
pub open spec fn command_run(events: Seq<CommandEvent>) -> (CommandPhase, CommandStep)
    decreases events.len(),
{
    if events.len() == 0 {
        (CommandPhase::Launching, CommandStep::Spawn)
    } else {
        spec_command_step(command_run(events.drop_last()).0, events.last())
    }
}

/// No child outlives its run: every return but a failed launch comes right
/// after the child was terminated and its output collected.
pub proof fn law_children_are_terminated(events: Seq<CommandEvent>, result: CommandResult)
    requires
        command_run(events).1 == CommandStep::Return(result),
        result != CommandResult::Ended(CommandEnd::LaunchFailed),
    ensures
        events.len() > 0,
        command_run(events.drop_last()).0 is Stopping,
        events.last() is Collected,
{
}

/// A completed or timed-out command hands over all of its output: neither is
/// returned unless the collection was complete.
pub proof fn law_evidence_is_complete(events: Seq<CommandEvent>, end: CommandEnd)
    requires
        command_run(events).1 == CommandStep::Return(CommandResult::Ended(end)),
        end is Completed || end == CommandEnd::TimedOut,
    ensures
        events.len() > 0,
        events.last() matches CommandEvent::Collected(collected) && collected is Ok,
{
}

/// A listing is whole: it counts only where the child itself exited in success
/// and every byte it wrote was collected.
pub proof fn law_listings_are_whole(events: Seq<CommandEvent>)
    requires
        command_run(events).1 == CommandStep::Return(
            CommandResult::Ended(CommandEnd::Completed { success: true }),
        ),
    ensures
        events.len() > 0,
        command_run(events.drop_last()).0 == CommandPhase::Stopping(
            StopReason::Exited { success: true },
        ),
        events.last() matches CommandEvent::Collected(collected) && collected is Ok,
{
}

// The workspace around a command

/// What names a directory on its file system.
#[derive(Clone, Copy, Debug, PartialEq, Eq, Structural)]
pub struct DirectoryIdentity {
    pub first: u64,
    pub second: u64,
}

/// What a path currently leads to.
#[derive(Clone, Copy, Debug, PartialEq, Eq, Structural)]
pub struct DirectoryFacts {
    pub is_symlink: bool,
    pub is_directory: bool,
    pub identity: DirectoryIdentity,
}

/// The path still leads to the pinned directory, and not through a link.
pub open spec fn still_leads_to(facts: Option<DirectoryFacts>, pinned: DirectoryIdentity) -> bool {
    facts matches Some(found) && !found.is_symlink && found.is_directory && found.identity == pinned
}

/// Whether the root and its repository are still the pinned directories.
pub fn path_identity_holds(
    root: Option<DirectoryFacts>,
    git: Option<DirectoryFacts>,
    root_identity: DirectoryIdentity,
    git_identity: DirectoryIdentity,
) -> (holds: bool)
    ensures
        holds <==> still_leads_to(root, root_identity) && still_leads_to(git, git_identity),
{
    match (root, git) {
        (Some(root), Some(git)) => {
            !root.is_symlink && !git.is_symlink && root.is_directory && git.is_directory
                && root.identity == root_identity && git.identity == git_identity
        },
        _ => false,
    }
}

/// Whether a prepared command may be spawned in the pinned workspace.
pub fn may_spawn_in_workspace(
    working_directory: &str,
    canonical_root: &str,
    identity_holds: bool,
) -> (allowed: bool)
    ensures
        allowed <==> same_path(working_directory@, canonical_root@) && identity_holds,
{
    paths_equal(working_directory, canonical_root) && identity_holds
}

/// The end of a command in a workspace that must not change under it.
pub open spec fn checked_end(
    end: CommandEnd,
    identity_after_run: bool,
    check: FingerprintCheck,
    identity_after_check: bool,
) -> CommandEnd {
    if !(end is Completed) {
        end
    } else if !identity_after_run {
        CommandEnd::WorkspaceChanged
    } else {
        match check {
            FingerprintCheck::Accepted => if identity_after_check {
                end
            } else {
                CommandEnd::WorkspaceChanged
            },
            FingerprintCheck::Changed => CommandEnd::WorkspaceChanged,
            FingerprintCheck::Cancelled => CommandEnd::Cancelled,
            FingerprintCheck::StaleLease => CommandEnd::StaleLease,
        }
    }
}

/// Judges a command after the workspace was looked at again. A completed
/// command counts only if the workspace still has the accepted fingerprint.
pub fn workspace_command_end(
    end: CommandEnd,
    identity_after_run: bool,
    check: FingerprintCheck,
    identity_after_check: bool,
) -> (judged: CommandEnd)
    ensures
        judged == checked_end(end, identity_after_run, check, identity_after_check),
        judged is Completed ==> judged == end && identity_after_run && identity_after_check
            && check == FingerprintCheck::Accepted,
{
    match end {
        CommandEnd::Completed { .. } => {
            if !identity_after_run {
                CommandEnd::WorkspaceChanged
            } else {
                match check {
                    FingerprintCheck::Accepted => {
                        if identity_after_check {
                            end
                        } else {
                            CommandEnd::WorkspaceChanged
                        }
                    },
                    FingerprintCheck::Changed => CommandEnd::WorkspaceChanged,
                    FingerprintCheck::Cancelled => CommandEnd::Cancelled,
                    FingerprintCheck::StaleLease => CommandEnd::StaleLease,
                }
            }
        },
        _ => end,
    }
}

// What a run of a child comes to

/// The event is an answer to the step.
pub open spec fn command_fits(step: CommandStep, event: CommandEvent) -> bool {
    match event {
        CommandEvent::Spawned(_) => step == CommandStep::Spawn,
        CommandEvent::Running | CommandEvent::Exited { .. } | CommandEvent::WaitFailed => step
            == CommandStep::TryWait,
        CommandEvent::Collected(_) => step == CommandStep::TerminateAndCollect,
        _ => step == CommandStep::Select,
    }
}

/// Every event answers what was asked before it.
pub open spec fn command_told(events: Seq<CommandEvent>) -> bool
    decreases events.len(),
{
    events.len() == 0 || (command_told(events.drop_last()) && command_fits(
        command_run(events.drop_last()).1,
        events.last(),
    ))
}

/// The event ends the run of a child that was started.
pub open spec fn stops_the_child(event: CommandEvent) -> bool {
    ||| event is Exited
    ||| event == CommandEvent::WaitFailed
    ||| event matches CommandEvent::Appended(appended) && appended is Err
    ||| event == CommandEvent::ReadFailed
    ||| event == CommandEvent::Deadline
    ||| event == CommandEvent::Lease(LeaseWait::Cancelled)
    ||| event == CommandEvent::Lease(LeaseWait::StaleLease)
    ||| event is LeaseFailed
}

spec fn reason_for(event: CommandEvent) -> StopReason {
    match event {
        CommandEvent::Exited { success } => StopReason::Exited { success },
        CommandEvent::WaitFailed => StopReason::WaitFailed,
        CommandEvent::Appended(_) => StopReason::Overflow,
        CommandEvent::ReadFailed => StopReason::ReadFailed,
        CommandEvent::Deadline => StopReason::Deadline,
        CommandEvent::Lease(LeaseWait::Cancelled) => StopReason::Cancelled,
        CommandEvent::LeaseFailed(fault) => StopReason::LeaseFailed(fault),
        _ => StopReason::StaleLease,
    }
}

spec fn command_waits(phase: CommandPhase, step: CommandStep) -> bool {
    match phase {
        CommandPhase::Launching => step == CommandStep::Spawn,
        CommandPhase::Polling => step == CommandStep::TryWait,
        CommandPhase::Selecting => step == CommandStep::Select,
        CommandPhase::Stopping(_) => step == CommandStep::TerminateAndCollect,
        CommandPhase::Done => step is Return,
    }
}

proof fn lemma_command_told(events: Seq<CommandEvent>)
    requires
        command_told(events),
    ensures
        command_waits(command_run(events).0, command_run(events).1),
        command_run(events).0 is Launching <==> events.len() == 0,
        command_run(events).0 matches CommandPhase::Stopping(reason) ==> events.len() > 0
            && stops_the_child(events.last()) && reason == reason_for(events.last()),
    decreases events.len(),
{
    if events.len() > 0 {
        lemma_command_told(events.drop_last());
    }
}

/// A child runs on until something ends it: it is asked about, its output is
/// taken, and it is asked about again. What ends it has it terminated and its
/// output collected.
pub proof fn law_children_run_until_stopped(events: Seq<CommandEvent>)
    requires
        command_told(events),
        events.len() > 0,
    ensures
        ({
            let next = command_run(events).1;
            let last = events.last();
            &&& next == CommandStep::TerminateAndCollect <==> stops_the_child(last)
            &&& next == CommandStep::Select <==> last == CommandEvent::Running
            &&& next == CommandStep::TryWait <==> {
                ||| last == CommandEvent::Spawned(true)
                ||| last == CommandEvent::OutputClosed
                ||| last == CommandEvent::Lease(LeaseWait::Ready)
                ||| last matches CommandEvent::Appended(appended) && appended is Ok
            }
            &&& next is Return <==> last == CommandEvent::Spawned(false) || last is Collected
            &&& last == CommandEvent::Spawned(false) ==> next == CommandStep::Return(
                CommandResult::Ended(CommandEnd::LaunchFailed),
            )
        }),
{
    lemma_command_told(events.drop_last());
}

/// What is told of a child is what ended it. It completed exactly where it
/// exited by itself and all of its output was collected, and with the success
/// that it exited with; it timed out exactly where the deadline ended it and all
/// of its output was collected. Too much output, a pipe that fails, a
/// cancellation, a lost lease and a store that fails are each told as such.
pub proof fn law_ends_tell_what_stopped_the_child(events: Seq<CommandEvent>)
    requires
        command_told(events),
        events.len() > 1,
        events.last() is Collected,
    ensures
        ({
            let stopped = events[events.len() - 2];
            let collected = events.last()->Collected_0;
            let next = command_run(events).1;
            let told = |end: CommandEnd| next == CommandStep::Return(CommandResult::Ended(end));
            let by_itself = stopped is Exited || stopped == CommandEvent::Deadline;
            &&& forall|success: bool| #[trigger]
                told(CommandEnd::Completed { success }) <==> stopped == (CommandEvent::Exited {
                    success,
                }) && collected is Ok
            &&& told(CommandEnd::TimedOut) <==> stopped == CommandEvent::Deadline && collected is Ok
            &&& told(CommandEnd::OutputLimit) <==> stopped is Appended || (by_itself && collected
                == Err::<(), OutputCollectionError>(OutputCollectionError::Overflow))
            &&& told(CommandEnd::CaptureFailed) <==> stopped == CommandEvent::ReadFailed || (
            by_itself && collected == Err::<(), OutputCollectionError>(
                OutputCollectionError::Incomplete,
            ))
            &&& told(CommandEnd::Cancelled) <==> stopped == CommandEvent::Lease(
                LeaseWait::Cancelled,
            )
            &&& told(CommandEnd::StaleLease) <==> stopped == CommandEvent::Lease(
                LeaseWait::StaleLease,
            )
            &&& next == CommandStep::Return(CommandResult::Io) <==> stopped
                == CommandEvent::WaitFailed || (by_itself && collected == Err::<
                (),
                OutputCollectionError,
            >(OutputCollectionError::Io))
            &&& stopped matches CommandEvent::LeaseFailed(fault) ==> next == CommandStep::Return(
                CommandResult::Fault(fault),
            )
            &&& next matches CommandStep::Return(CommandResult::Fault(fault)) ==> stopped
                == CommandEvent::LeaseFailed(fault)
        }),
{
    let before = events.drop_last();
    lemma_command_told(before);
    assert(before.last() == events[events.len() - 2]);
}

/// Output counts as collected only where everything went as it should; where
/// something did not, what was too much is told before what is missing.
pub proof fn law_collections_are_whole(drain: DrainEnd, readers: ReadersEnd, reap: ReapEnd)
    ensures
        collection(drain, readers, reap) is Ok <==> drain == DrainEnd::Drained && readers
            == ReadersEnd::Joined && reap == ReapEnd::Reaped,
        collection(drain, readers, reap) == Err::<(), OutputCollectionError>(
            OutputCollectionError::Overflow,
        ) <==> drain == DrainEnd::Overflow,
        collection(drain, readers, reap) == Err::<(), OutputCollectionError>(
            OutputCollectionError::Io,
        ) <==> drain == DrainEnd::Drained && readers == ReadersEnd::Joined && reap
            == ReapEnd::Failed,
{
}

/// A command counts as completed only in a workspace that nobody touched: the
/// directories are the pinned ones before and after, and the fingerprint is the
/// accepted one. Otherwise a completed command is told as a changed workspace,
/// unless the look at it was cancelled or lost. What did not complete is told as
/// it is.
pub proof fn law_commands_count_in_an_unchanged_workspace(
    end: CommandEnd,
    identity_after_run: bool,
    check: FingerprintCheck,
    identity_after_check: bool,
)
    ensures
        ({
            let judged = checked_end(end, identity_after_run, check, identity_after_check);
            let untouched = identity_after_run && check == FingerprintCheck::Accepted
                && identity_after_check;
            &&& !(end is Completed) || untouched ==> judged == end
            &&& end is Completed && !untouched ==> !(judged is Completed)
            &&& end is Completed && judged == CommandEnd::WorkspaceChanged <==> end is Completed && (
            !identity_after_run || check == FingerprintCheck::Changed || (check
                == FingerprintCheck::Accepted && !identity_after_check))
            &&& end is Completed && identity_after_run && check == FingerprintCheck::Cancelled
                ==> judged == CommandEnd::Cancelled
            &&& end is Completed && identity_after_run && check == FingerprintCheck::StaleLease
                ==> judged == CommandEnd::StaleLease
        }),
{
}

/// A path leads to a pinned directory only where it is a directory, no link, and
/// the very same one.
pub proof fn law_pinned_directories_are_the_same(
    facts: Option<DirectoryFacts>,
    pinned: DirectoryIdentity,
    other: DirectoryIdentity,
)
    ensures
        still_leads_to(facts, pinned) && still_leads_to(facts, other) ==> pinned == other,
        still_leads_to(facts, pinned) <==> (facts matches Some(found) && found == (DirectoryFacts {
            is_symlink: false,
            is_directory: true,
            identity: pinned,
        })),
{
}

/// What did not come of what was asked is passed over and changes nothing, and
/// once a command is over it is not taken up again.
pub proof fn law_stray_reports_are_passed_over(
    events: Seq<CommandEvent>,
    event: CommandEvent,
)
    requires
        command_told(events),
        !command_fits(command_run(events).1, event),
    ensures
        command_run(events.push(event)).1 == CommandStep::Ignore,
        command_run(events.push(event)).0 == command_run(events).0,
{
    lemma_command_told(events);
    assert(events.push(event).drop_last() =~= events);
}

/// A command may say 256 KiB, and a listing of the workspace eight mebibytes.
pub proof fn law_outputs_are_bounded()
    ensures
        MAX_COMMAND_OUTPUT_BYTES == 256 * 1024,
        MAX_WORKSPACE_LIST_BYTES == 8 * 1024 * 1024,
{
}

} // verus!
