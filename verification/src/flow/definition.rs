//! Which steps of a flow definition the daemon executes, and how.

use vstd::prelude::*;

use super::git::{
    git_arguments, law_only_diff_verifies, law_only_listed_git_commands_run, role_fits, validate_git_semantic_role, validated_git_args, StepSemanticRole,
};
use super::machine::{CommandRejection, EffectKind};
use crate::paths::{begins_with, is_absolute, path_is_absolute, path_starts_with};
use crate::split::texts;
use crate::text::same_text;

verus! {

/// Whether a step needs an operator's approval.
#[derive(Clone, Copy, Debug, PartialEq, Eq, Structural)]
pub enum ApprovalMode {
    NotRequired,
    Required,
}

/// A program to run in the workspace.
pub struct CommandAction {
    pub program: String,
    pub args: Vec<String>,
    pub working_directory: String,
}

/// A call of a connector capability on one resource.
pub struct ConnectorAction {
    pub connector: String,
    pub capability: String,
    pub resource_kind: String,
    pub resource_id: String,
}

/// What a step does.
pub enum StepAction {
    Command(CommandAction),
    Connector(ConnectorAction),
}

/// One step of a flow.
pub struct FlowStep {
    pub id: String,
    pub effect: EffectKind,
    pub approval: ApprovalMode,
    pub semantic_role: StepSemanticRole,
    pub action: StepAction,
}

/// The parts of a flow definition that decide how it executes.
pub struct FlowDefinition {
    pub schema_version: u16,
    pub steps: Vec<FlowStep>,
}

/// One attempt of one step, as the engine names it.
pub struct EffectAttempt {
    pub step_index: usize,
    pub step_id: String,
    pub effect: EffectKind,
}

/// A directory after its links and dots were resolved.
pub struct CanonicalDirectory {
    pub path: String,
    pub is_directory: bool,
}

/// A program found on the search path, after its links were resolved.
pub struct ExecutableCandidate {
    /// The directory of the search path that it was found in.
    pub directory: String,
    pub path: String,
    pub is_file: bool,
}

/// What the host says about the place a flow executes in.
pub struct ExecutionHost {
    pub execution_root: String,
    /// The working directory below the root, if it could be resolved.
    pub working_directory: Option<CanonicalDirectory>,
    /// The programs of the wanted name on the search path, in its order.
    pub candidates: Vec<ExecutableCandidate>,
}

/// A command that may be spawned.
pub struct PreparedCommand {
    pub program: String,
    pub args: Vec<String>,
    pub working_directory: String,
    pub execution_root: String,
}

/// A connector call that may be made.
pub struct PreparedConnectorStep {
    pub connector: String,
    pub capability: String,
    pub resource_kind: String,
    pub resource_id: String,
}

/// An effect that may be executed.
pub enum PreparedEffect {
    Command(PreparedCommand),
    Connector(PreparedConnectorStep),
}

// Host facts

/// Only the execution root itself may be the working directory.
pub open spec fn names_execution_root(relative: Seq<char>) -> bool {
    relative == ""@ || relative == "."@
}

/// The directory is usable: it exists and lies below the execution root.
pub open spec fn usable_directory(host: ExecutionHost) -> bool {
    host.working_directory matches Some(directory) && directory.is_directory && begins_with(
        directory.path@,
        host.execution_root@,
    )
}

/// Resolves the working directory of a command.
pub fn canonical_working_directory<'a>(host: &'a ExecutionHost, relative: &str) -> (result: Result<
    &'a str,
    CommandRejection,
>)
    ensures
        match result {
            Ok(path) => {
                &&& names_execution_root(relative@)
                &&& usable_directory(*host)
                &&& path@ == host.working_directory->0.path@
            },
            Err(rejection) => {
                &&& !(names_execution_root(relative@) && usable_directory(*host))
                &&& rejection == CommandRejection::UnsafeWorkingDirectory
            },
        },
{
    if !(same_text(relative, "") || same_text(relative, ".")) {
        return Err(CommandRejection::UnsafeWorkingDirectory);
    }
    match &host.working_directory {
        Some(directory) => {
            if directory.is_directory && path_starts_with(
                directory.path.as_str(),
                host.execution_root.as_str(),
            ) {
                Ok(directory.path.as_str())
            } else {
                Err(CommandRejection::UnsafeWorkingDirectory)
            }
        },
        None => Err(CommandRejection::UnsafeWorkingDirectory),
    }
}

/// The candidate is a file outside the execution root, and does not depend on
/// where the daemon itself was started.
pub open spec fn usable_candidate(host: ExecutionHost, index: int) -> bool {
    let candidate = host.candidates@[index];
    is_absolute(candidate.directory@) && candidate.is_file && !begins_with(
        candidate.path@,
        host.execution_root@,
    )
}

/// The first usable candidate is at `index`.
pub open spec fn is_first_usable(host: ExecutionHost, index: int) -> bool {
    &&& 0 <= index < host.candidates@.len()
    &&& usable_candidate(host, index)
    &&& forall|i: int| 0 <= i < index ==> !#[trigger] usable_candidate(host, i)
}

/// Some candidate is usable.
pub open spec fn resolves(host: ExecutionHost) -> bool {
    exists|index: int|
        0 <= index < host.candidates@.len() && #[trigger] usable_candidate(host, index)
}

/// Picks the program to run: the first on the search path that is a file and
/// does not come from the workspace itself.
pub fn resolve_executable<'a>(host: &'a ExecutionHost) -> (result: Result<
    &'a str,
    CommandRejection,
>)
    ensures
        match result {
            Ok(path) => resolves(*host) && exists|index: int|
                #[trigger] is_first_usable(*host, index) && path@
                    == host.candidates@[index].path@,
            Err(rejection) => !resolves(*host) && rejection == CommandRejection::Unsupported,
        },
{
    let mut index: usize = 0;
    while index < host.candidates.len()
        invariant
            index <= host.candidates@.len(),
            forall|i: int| 0 <= i < index ==> !#[trigger] usable_candidate(*host, i),
        decreases host.candidates@.len() - index,
    {
        let candidate = &host.candidates[index];
        if path_is_absolute(candidate.directory.as_str()) && candidate.is_file
            && !path_starts_with(candidate.path.as_str(), host.execution_root.as_str()) {
            assert(usable_candidate(*host, index as int));
            assert(is_first_usable(*host, index as int));
            return Ok(candidate.path.as_str());
        }
        assert(!usable_candidate(*host, index as int));
        index = index + 1;
    }
    Err(CommandRejection::Unsupported)
}

// Support

/// The command is one that the daemon runs for a step of this role.
pub open spec fn command_allowed(
    action: CommandAction,
    effect: EffectKind,
    approval: ApprovalMode,
    role: StepSemanticRole,
    schema_version: u16,
) -> bool {
    &&& action.program@ == "git"@
    &&& effect == EffectKind::ReadOnly
    &&& approval == ApprovalMode::NotRequired
    &&& git_arguments(texts(action.args@)) is Some
    &&& role_fits(texts(action.args@), role, schema_version)
}

/// Why a command cannot run, if it cannot: first the directory, then the
/// command itself or its program.
pub open spec fn command_rejection(
    action: CommandAction,
    effect: EffectKind,
    approval: ApprovalMode,
    role: StepSemanticRole,
    schema_version: u16,
    host: ExecutionHost,
) -> Option<CommandRejection> {
    if !(names_execution_root(action.working_directory@) && usable_directory(host)) {
        Some(CommandRejection::UnsafeWorkingDirectory)
    } else if !command_allowed(action, effect, approval, role, schema_version) || !resolves(host) {
        Some(CommandRejection::Unsupported)
    } else {
        None
    }
}

/// Why a step of a definition is refused at submission, if it is.
pub open spec fn step_rejection(step: FlowStep, schema_version: u16, host: ExecutionHost) -> Option<
    CommandRejection,
> {
    match step.action {
        StepAction::Connector(_) => if step.effect == EffectKind::ReadOnly {
            None
        } else {
            Some(CommandRejection::StatefulConnector)
        },
        StepAction::Command(action) => command_rejection(
            action,
            step.effect,
            step.approval,
            step.semantic_role,
            schema_version,
            host,
        ),
    }
}

fn check_command(
    action: &CommandAction,
    effect: EffectKind,
    approval: ApprovalMode,
    role: StepSemanticRole,
    schema_version: u16,
    host: &ExecutionHost,
) -> (result: Result<PreparedCommand, CommandRejection>)
    ensures
        match result {
            Ok(prepared) => {
                &&& command_rejection(*action, effect, approval, role, schema_version, *host)
                    is None
                &&& is_prepared(prepared, *action, *host)
            },
            Err(rejection) => command_rejection(
                *action,
                effect,
                approval,
                role,
                schema_version,
                *host,
            ) == Some(rejection),
        },
{
    let working_directory = match canonical_working_directory(
        host,
        action.working_directory.as_str(),
    ) {
        Ok(path) => path.to_owned(),
        Err(rejection) => {
            return Err(rejection);
        },
    };
    if !same_text(action.program.as_str(), "git") || effect != EffectKind::ReadOnly || approval
        != ApprovalMode::NotRequired {
        return Err(CommandRejection::Unsupported);
    }
    match validate_git_semantic_role(action.args.as_slice(), role, schema_version) {
        Ok(()) => {},
        Err(rejection) => {
            return Err(rejection);
        },
    }
    let args = match validated_git_args(action.args.as_slice()) {
        Ok(args) => args,
        Err(rejection) => {
            return Err(rejection);
        },
    };
    let program = match resolve_executable(host) {
        Ok(path) => path.to_owned(),
        Err(rejection) => {
            return Err(rejection);
        },
    };
    Ok(
        PreparedCommand {
            program,
            args,
            working_directory,
            execution_root: host.execution_root.clone(),
        },
    )
}

/// `prepared` runs `action` on `host`: the resolved program in the resolved
/// directory, with the allowlisted arguments.
pub open spec fn is_prepared(
    prepared: PreparedCommand,
    action: CommandAction,
    host: ExecutionHost,
) -> bool {
    &&& exists|index: int|
        #[trigger] is_first_usable(host, index) && prepared.program@
            == host.candidates@[index].path@
    &&& git_arguments(texts(action.args@)) == Some(texts(prepared.args@))
    &&& prepared.working_directory@ == host.working_directory->0.path@
    &&& prepared.execution_root@ == host.execution_root@
}

/// The first refused step of a definition decides.
pub open spec fn definition_rejection(
    steps: Seq<FlowStep>,
    schema_version: u16,
    host: ExecutionHost,
) -> Option<CommandRejection>
    decreases steps.len(),
{
    if steps.len() == 0 {
        None
    } else {
        match step_rejection(steps[0], schema_version, host) {
            Some(rejection) => Some(rejection),
            None => definition_rejection(steps.drop_first(), schema_version, host),
        }
    }
}

/// Accepts a definition when every step of it can be executed.
pub fn validate_supported_definition(definition: &FlowDefinition, host: &ExecutionHost) -> (result:
    Result<(), CommandRejection>)
    ensures
        match result {
            Ok(()) => definition_rejection(
                definition.steps@,
                definition.schema_version,
                *host,
            ) is None,
            Err(rejection) => definition_rejection(
                definition.steps@,
                definition.schema_version,
                *host,
            ) == Some(rejection),
        },
{
    let mut index: usize = 0;
    assert(definition.steps@.skip(0) =~= definition.steps@);
    while index < definition.steps.len()
        invariant
            index <= definition.steps@.len(),
            definition_rejection(
                definition.steps@.skip(index as int),
                definition.schema_version,
                *host,
            ) == definition_rejection(definition.steps@, definition.schema_version, *host),
        decreases definition.steps@.len() - index,
    {
        let step = &definition.steps[index];
        proof {
            let rest = definition.steps@.skip(index as int);
            assert(rest[0] == *step);
            assert(rest.drop_first() =~= definition.steps@.skip(index + 1));
        }
        match &step.action {
            StepAction::Connector(_) => {
                if step.effect != EffectKind::ReadOnly {
                    return Err(CommandRejection::StatefulConnector);
                }
            },
            StepAction::Command(action) => {
                match check_command(
                    action,
                    step.effect,
                    step.approval,
                    step.semantic_role,
                    definition.schema_version,
                    host,
                ) {
                    Ok(_) => {},
                    Err(rejection) => {
                        return Err(rejection);
                    },
                }
            },
        }
        index = index + 1;
    }
    Ok(())
}

/// The step that an attempt names, if index and identity agree.
pub open spec fn attempted_step(definition: FlowDefinition, attempt: EffectAttempt) -> Option<
    FlowStep,
> {
    if attempt.step_index < definition.steps@.len()
        && definition.steps@[attempt.step_index as int].id@ == attempt.step_id@ {
        Some(definition.steps@[attempt.step_index as int])
    } else {
        None
    }
}

fn find_step<'a>(definition: &'a FlowDefinition, attempt: &EffectAttempt) -> (step: Option<
    &'a FlowStep,
>)
    ensures
        match (step, attempted_step(*definition, *attempt)) {
            (Some(found), Some(expected)) => *found == expected,
            (None, None) => true,
            _ => false,
        },
{
    if attempt.step_index < definition.steps.len() {
        let step = &definition.steps[attempt.step_index];
        if same_text(step.id.as_str(), attempt.step_id.as_str()) {
            return Some(step);
        }
    }
    None
}

/// Prepares the command of an attempt. Steps that are no commands are refused.
pub fn prepare_command(
    definition: &FlowDefinition,
    attempt: &EffectAttempt,
    host: &ExecutionHost,
) -> (result: Result<PreparedCommand, CommandRejection>)
    ensures
        match attempted_step(*definition, *attempt) {
            Some(step) => match step.action {
                StepAction::Command(action) => match result {
                    Ok(prepared) => {
                        &&& command_rejection(
                            action,
                            attempt.effect,
                            step.approval,
                            step.semantic_role,
                            definition.schema_version,
                            *host,
                        ) is None
                        &&& is_prepared(prepared, action, *host)
                    },
                    Err(rejection) => command_rejection(
                        action,
                        attempt.effect,
                        step.approval,
                        step.semantic_role,
                        definition.schema_version,
                        *host,
                    ) == Some(rejection),
                },
                StepAction::Connector(_) => result matches Err(rejection) && rejection
                    == CommandRejection::Unsupported,
            },
            None => result matches Err(rejection) && rejection == CommandRejection::Unsupported,
        },
{
    match find_step(definition, attempt) {
        Some(step) => match &step.action {
            StepAction::Command(action) => check_command(
                action,
                attempt.effect,
                step.approval,
                step.semantic_role,
                definition.schema_version,
                host,
            ),
            StepAction::Connector(_) => Err(CommandRejection::Unsupported),
        },
        None => Err(CommandRejection::Unsupported),
    }
}

/// Why an attempt cannot be executed, if it cannot.
pub open spec fn effect_rejection(
    definition: FlowDefinition,
    attempt: EffectAttempt,
    host: ExecutionHost,
) -> Option<CommandRejection> {
    match attempted_step(definition, attempt) {
        Some(step) => match step.action {
            StepAction::Connector(_) => if attempt.effect == EffectKind::ReadOnly && step.effect
                == EffectKind::ReadOnly {
                None
            } else {
                Some(CommandRejection::StatefulConnector)
            },
            StepAction::Command(action) => command_rejection(
                action,
                attempt.effect,
                step.approval,
                step.semantic_role,
                definition.schema_version,
                host,
            ),
        },
        None => Some(CommandRejection::Unsupported),
    }
}

/// `prepared` executes the action of the attempted step.
pub open spec fn prepares(
    prepared: PreparedEffect,
    action: StepAction,
    host: ExecutionHost,
) -> bool {
    match (prepared, action) {
        (PreparedEffect::Command(command), StepAction::Command(action)) => is_prepared(
            command,
            action,
            host,
        ),
        (PreparedEffect::Connector(step), StepAction::Connector(action)) => {
            &&& step.connector@ == action.connector@
            &&& step.capability@ == action.capability@
            &&& step.resource_kind@ == action.resource_kind@
            &&& step.resource_id@ == action.resource_id@
        },
        _ => false,
    }
}

/// Classifies an attempt as a command to spawn or a connector to call.
pub fn prepare_effect(
    definition: &FlowDefinition,
    attempt: &EffectAttempt,
    host: &ExecutionHost,
) -> (result: Result<PreparedEffect, CommandRejection>)
    ensures
        match result {
            Ok(prepared) => {
                &&& effect_rejection(*definition, *attempt, *host) is None
                &&& prepares(
                    prepared,
                    attempted_step(*definition, *attempt)->0.action,
                    *host,
                )
            },
            Err(rejection) => effect_rejection(*definition, *attempt, *host) == Some(rejection),
        },
{
    match find_step(definition, attempt) {
        Some(step) => match &step.action {
            StepAction::Connector(action) => {
                if attempt.effect != EffectKind::ReadOnly || step.effect != EffectKind::ReadOnly {
                    return Err(CommandRejection::StatefulConnector);
                }
                Ok(
                    PreparedEffect::Connector(
                        PreparedConnectorStep {
                            connector: action.connector.clone(),
                            capability: action.capability.clone(),
                            resource_kind: action.resource_kind.clone(),
                            resource_id: action.resource_id.clone(),
                        },
                    ),
                )
            },
            StepAction::Command(_) => match prepare_command(definition, attempt, host) {
                Ok(command) => Ok(PreparedEffect::Command(command)),
                Err(rejection) => Err(rejection),
            },
        },
        None => Err(CommandRejection::Unsupported),
    }
}

/// Whether some step changes the world, so that the schema asks for approval.
pub fn schema_approval_required(definition: &FlowDefinition) -> (required: bool)
    ensures
        required <==> exists|i: int|
            0 <= i < definition.steps@.len() && (#[trigger] definition.steps@[i]).effect
                == EffectKind::Stateful,
{
    let mut index: usize = 0;
    while index < definition.steps.len()
        invariant
            index <= definition.steps@.len(),
            forall|i: int|
                0 <= i < index ==> (#[trigger] definition.steps@[i]).effect
                    != EffectKind::Stateful,
        decreases definition.steps@.len() - index,
    {
        if definition.steps[index].effect == EffectKind::Stateful {
            return true;
        }
        index = index + 1;
    }
    false
}

proof fn lemma_accepted_steps(
    steps: Seq<FlowStep>,
    schema_version: u16,
    host: ExecutionHost,
    index: int,
)
    requires
        definition_rejection(steps, schema_version, host) is None,
        0 <= index < steps.len(),
    ensures
        step_rejection(steps[index], schema_version, host) is None,
    decreases steps.len(),
{
    if index > 0 {
        lemma_accepted_steps(steps.drop_first(), schema_version, host, index - 1);
    }
}

/// What submission accepts, execution can prepare: on an unchanged host, every
/// attempt of a step of an accepted definition is prepared.
pub proof fn law_accepted_definitions_prepare(
    definition: FlowDefinition,
    attempt: EffectAttempt,
    host: ExecutionHost,
)
    requires
        definition_rejection(definition.steps@, definition.schema_version, host) is None,
        attempted_step(definition, attempt) matches Some(step) && attempt.effect == step.effect,
    ensures
        effect_rejection(definition, attempt, host) is None,
{
    lemma_accepted_steps(
        definition.steps@,
        definition.schema_version,
        host,
        attempt.step_index as int,
    );
}

/// No accepted definition holds a stateful step: nothing that changes the world
/// passes submission.
pub proof fn law_accepted_definitions_only_observe(
    definition: FlowDefinition,
    host: ExecutionHost,
    index: int,
)
    requires
        definition_rejection(definition.steps@, definition.schema_version, host) is None,
        0 <= index < definition.steps@.len(),
    ensures
        definition.steps@[index].effect == EffectKind::ReadOnly,
{
    lemma_accepted_steps(definition.steps@, definition.schema_version, host, index);
}

/// A step that runs a command is accepted exactly where the command is `git`,
/// changes nothing, needs no approval, runs in the execution root itself, and
/// comes from outside of it; where git is asked for nothing but what is listed;
/// and where what it claims is what the command does: a `diff` verifies, and
/// `status` and `rev-parse` observe. Under the first schema a `diff` observes
/// too.
pub proof fn law_steps_are_accepted_for_what_they_do(
    step: FlowStep,
    action: CommandAction,
    schema_version: u16,
    host: ExecutionHost,
)
    requires
        step.action == StepAction::Command(action),
    ensures
        step_rejection(step, schema_version, host) is None <==> {
            let word = texts(action.args@)[0];
            &&& action.program@ == "git"@
            &&& step.effect == EffectKind::ReadOnly
            &&& step.approval == ApprovalMode::NotRequired
            &&& action.working_directory@ == ""@ || action.working_directory@ == "."@
            &&& host.working_directory matches Some(directory) && directory.is_directory
                && begins_with(directory.path@, host.execution_root@)
            &&& exists|i: int|
                0 <= i < host.candidates@.len() && {
                    let found = #[trigger] host.candidates@[i];
                    is_absolute(found.directory@) && found.is_file && !begins_with(
                        found.path@,
                        host.execution_root@,
                    )
                }
            &&& git_arguments(texts(action.args@)) is Some
            &&& match step.semantic_role {
                StepSemanticRole::Verify => word == "diff"@,
                StepSemanticRole::Observe => word == "status"@ || word == "rev-parse"@ || (word
                    == "diff"@ && schema_version == 1),
                StepSemanticRole::Change => false,
            }
        },
        step_rejection(step, schema_version, host) is Some ==> {
            let misplaced = !(action.working_directory@ == ""@ || action.working_directory@ == "."@)
                || !usable_directory(host);
            step_rejection(step, schema_version, host) == Some(
                if misplaced {
                    CommandRejection::UnsafeWorkingDirectory
                } else {
                    CommandRejection::Unsupported
                },
            )
        },
{
    law_only_diff_verifies(texts(action.args@), schema_version);
    law_only_listed_git_commands_run(texts(action.args@));
    if resolves(host) {
        let index = choose|index: int|
            0 <= index < host.candidates@.len() && #[trigger] usable_candidate(host, index);
        assert(host.candidates@[index].is_file);
    }
    if exists|i: int|
        0 <= i < host.candidates@.len() && {
            let found = #[trigger] host.candidates@[i];
            is_absolute(found.directory@) && found.is_file && !begins_with(
                found.path@,
                host.execution_root@,
            )
        } {
        let i = choose|i: int|
            0 <= i < host.candidates@.len() && {
                let found = #[trigger] host.candidates@[i];
                is_absolute(found.directory@) && found.is_file && !begins_with(
                    found.path@,
                    host.execution_root@,
                )
            };
        assert(usable_candidate(host, i));
    }
}

/// A step that calls a connector is accepted exactly where it only observes.
pub proof fn law_connector_steps_only_observe(
    step: FlowStep,
    schema_version: u16,
    host: ExecutionHost,
)
    requires
        step.action is Connector,
    ensures
        step_rejection(step, schema_version, host) is None <==> step.effect
            == EffectKind::ReadOnly,
        step_rejection(step, schema_version, host) is Some ==> step_rejection(
            step,
            schema_version,
            host,
        ) == Some(CommandRejection::StatefulConnector),
{
}

/// A definition is accepted exactly where every step of it is, and is otherwise
/// refused for its first refused step.
pub proof fn law_definitions_are_accepted_step_by_step(
    steps: Seq<FlowStep>,
    schema_version: u16,
    host: ExecutionHost,
)
    ensures
        definition_rejection(steps, schema_version, host) is None <==> forall|i: int|
            0 <= i < steps.len() ==> step_rejection(#[trigger] steps[i], schema_version, host)
                is None,
        forall|k: int|
            0 <= k < steps.len() && step_rejection(#[trigger] steps[k], schema_version, host) is Some
                && (forall|i: int|
                0 <= i < k ==> step_rejection(#[trigger] steps[i], schema_version, host) is None)
                ==> definition_rejection(steps, schema_version, host) == step_rejection(
                steps[k],
                schema_version,
                host,
            ),
    decreases steps.len(),
{
    if steps.len() > 0 {
        let rest = steps.drop_first();
        law_definitions_are_accepted_step_by_step(rest, schema_version, host);
        assert forall|i: int| 0 <= i < rest.len() implies #[trigger] rest[i] == steps[i + 1] by {}
        if forall|i: int|
            0 <= i < steps.len() ==> step_rejection(#[trigger] steps[i], schema_version, host)
                is None {
            assert(step_rejection(steps[0], schema_version, host) is None);
        }
        if definition_rejection(steps, schema_version, host) is None {
            assert forall|i: int| 0 <= i < steps.len() implies step_rejection(
                #[trigger] steps[i],
                schema_version,
                host,
            ) is None by {
                if i > 0 {
                    assert(rest[i - 1] == steps[i]);
                }
            }
        }
        assert forall|k: int|
            0 <= k < steps.len() && step_rejection(#[trigger] steps[k], schema_version, host) is Some
                && (forall|i: int|
                0 <= i < k ==> step_rejection(
                    #[trigger] steps[i],
                    schema_version,
                    host,
                ) is None) implies definition_rejection(steps, schema_version, host)
            == step_rejection(steps[k], schema_version, host) by {
            if k > 0 {
                assert(step_rejection(steps[0], schema_version, host) is None);
                assert(rest[k - 1] == steps[k]);
                assert forall|i: int| 0 <= i < k - 1 implies step_rejection(
                    #[trigger] rest[i],
                    schema_version,
                    host,
                ) is None by {
                    assert(rest[i] == steps[i + 1]);
                }
            }
        }
    }
}

/// An attempt runs the step that it names, and only where the attempt's effect
/// is still the harmless one: a step whose identity changed, or an attempt that
/// claims to change something, is refused.
pub proof fn law_attempts_run_their_own_step(
    definition: FlowDefinition,
    attempt: EffectAttempt,
    host: ExecutionHost,
)
    ensures
        effect_rejection(definition, attempt, host) is None ==> {
            &&& attempt.step_index < definition.steps@.len()
            &&& definition.steps@[attempt.step_index as int].id@ == attempt.step_id@
            &&& attempt.effect == EffectKind::ReadOnly
            &&& attempted_step(definition, attempt) == Some(
                definition.steps@[attempt.step_index as int],
            )
        },
        attempt.step_index >= definition.steps@.len()
            || definition.steps@[attempt.step_index as int].id@ != attempt.step_id@
            ==> effect_rejection(definition, attempt, host) == Some(CommandRejection::Unsupported),
        attempt.step_index < definition.steps@.len()
            && definition.steps@[attempt.step_index as int].id@ == attempt.step_id@
            && attempt.effect == definition.steps@[attempt.step_index as int].effect
            ==> effect_rejection(definition, attempt, host) == step_rejection(
            definition.steps@[attempt.step_index as int],
            definition.schema_version,
            host,
        ),
{
}

/// What runs is the first program that was found outside of the workspace, in a
/// directory that is named in full; it runs where the step says, with the
/// arguments of the step behind those that the daemon sets.
pub proof fn law_the_first_program_outside_runs(
    prepared: PreparedCommand,
    action: CommandAction,
    host: ExecutionHost,
)
    requires
        is_prepared(prepared, action, host),
    ensures
        !begins_with(prepared.program@, host.execution_root@),
        exists|index: int|
            #![trigger host.candidates@[index]]
            0 <= index < host.candidates@.len() && host.candidates@[index].is_file && is_absolute(
                host.candidates@[index].directory@,
            ) && host.candidates@[index].path@ == prepared.program@ && (forall|earlier: int|
                0 <= earlier < index ==> !(#[trigger] host.candidates@[earlier]).is_file
                    || !is_absolute(host.candidates@[earlier].directory@) || begins_with(
                    host.candidates@[earlier].path@,
                    host.execution_root@,
                )),
        git_arguments(texts(action.args@)) == Some(texts(prepared.args@)),
        prepared.working_directory@ == host.working_directory->0.path@,
        prepared.execution_root@ == host.execution_root@,
{
    let index = choose|index: int| #[trigger]
        is_first_usable(host, index) && prepared.program@ == host.candidates@[index].path@;
    assert(usable_candidate(host, index));
    assert forall|earlier: int| 0 <= earlier < index implies !(
    #[trigger] host.candidates@[earlier]).is_file || !is_absolute(
        host.candidates@[earlier].directory@,
    ) || begins_with(host.candidates@[earlier].path@, host.execution_root@) by {
        assert(!usable_candidate(host, earlier));
    }
}

/// A command is prepared for a command and a call for a call, and the call is
/// the one that the step asks for.
pub proof fn law_steps_are_prepared_as_what_they_are(
    prepared: PreparedEffect,
    action: StepAction,
    host: ExecutionHost,
)
    requires
        prepares(prepared, action, host),
    ensures
        prepared is Command <==> action is Command,
        prepared is Connector <==> action is Connector,
        prepared matches PreparedEffect::Connector(step) ==> (
        action matches StepAction::Connector(asked) && step.connector@ == asked.connector@
            && step.capability@ == asked.capability@ && step.resource_kind@
            == asked.resource_kind@ && step.resource_id@ == asked.resource_id@),
        prepared matches PreparedEffect::Command(command) ==> (
        action matches StepAction::Command(asked) && is_prepared(command, asked, host)),
{
}

} // verus!
