//! Accepting a flow for execution, and the surroundings that its commands get.

use vstd::prelude::*;
use vstd::utf8::encode_utf8;

use super::definition::{
    ExecutionHost, FlowDefinition, definition_rejection, law_accepted_definitions_only_observe,
    schema_approval_required,
    validate_supported_definition,
};
use super::git::{is_safe_environment_name, null_device, safe_environment_name};
use super::machine::EffectKind;
use super::operation::{
    FlowSubmissionError, WorkspaceFingerprint, encode_flow_operation, flow_policy_resource,
    flow_resource, is_operation_of, operation_bytes,
};
use crate::paths::{is_absolute, path_is_absolute, path_starts_with, begins_with, paths_equal, same_path};
use crate::split::texts;
use crate::text::{decimal, hex, same_text};

verus! {

// Submissions

/// A definition in its normalized form, with what names it.
pub struct NormalizedDefinition {
    pub bytes: Vec<u8>,
    pub digest: String,
    pub id: String,
    pub revision: u64,
}

/// A flow that may be queued once policy allows it.
pub struct PreparedFlowSubmission {
    pub operation: Vec<u8>,
    pub policy_resource: String,
    pub schema_approval_required: bool,
}

/// What a submission is made from, as far as it could be had.
pub struct SubmissionParts<'a> {
    /// The definition, if it is one.
    pub definition: Option<&'a FlowDefinition>,
    pub host: &'a ExecutionHost,
    pub workspace: Result<WorkspaceFingerprint, FlowSubmissionError>,
    pub normalized: Option<&'a NormalizedDefinition>,
    /// The execution root, if it is text.
    pub execution_root: Option<&'a str>,
}

/// Some step changes the world.
pub open spec fn has_stateful_step(definition: FlowDefinition) -> bool {
    exists|i: int|
        0 <= i < definition.steps@.len() && (#[trigger] definition.steps@[i]).effect
            == EffectKind::Stateful
}

/// Why a submission is refused, if it is: for its definition, for a step that
/// the daemon does not execute, or for its workspace.
pub open spec fn submission_error(parts: SubmissionParts) -> Option<FlowSubmissionError> {
    match parts.definition {
        None => Some(FlowSubmissionError::InvalidDefinition),
        Some(definition) => if definition_rejection(
            definition.steps@,
            definition.schema_version,
            *parts.host,
        ) is Some {
            Some(FlowSubmissionError::UnsupportedDefinition)
        } else {
            match parts.workspace {
                Err(error) => Some(error),
                Ok(_) => if parts.normalized is None {
                    Some(FlowSubmissionError::InvalidDefinition)
                } else {
                    match parts.execution_root {
                        None => Some(FlowSubmissionError::WorkspaceUnavailable),
                        Some(root) => if encode_utf8(root@).len() > u32::MAX {
                            Some(FlowSubmissionError::WorkspaceUnavailable)
                        } else {
                            None
                        },
                    }
                },
            }
        },
    }
}

/// `prepared` is the submission that `parts` make.
pub open spec fn is_submission_of(prepared: PreparedFlowSubmission, parts: SubmissionParts) -> bool {
    match (parts.definition, parts.workspace, parts.normalized, parts.execution_root) {
        (Some(definition), Ok(workspace), Some(normalized), Some(root)) => {
            &&& prepared.operation@ == operation_bytes(root@, workspace@, normalized.bytes@)
            &&& prepared.policy_resource@ == flow_resource(
                normalized.id@,
                normalized.revision as nat,
                normalized.digest@,
                workspace@,
            )
            &&& prepared.schema_approval_required == has_stateful_step(*definition)
        },
        _ => false,
    }
}

/// Prepares a flow for submission.
pub fn prepare_flow_submission(parts: &SubmissionParts) -> (result: Result<
    PreparedFlowSubmission,
    FlowSubmissionError,
>)
    ensures
        match result {
            Ok(prepared) => submission_error(*parts) is None && is_submission_of(prepared, *parts),
            Err(error) => submission_error(*parts) == Some(error),
        },
{
    let definition = match parts.definition {
        Some(definition) => definition,
        None => return Err(FlowSubmissionError::InvalidDefinition),
    };
    let schema_approval_required = schema_approval_required(definition);
    if validate_supported_definition(definition, parts.host).is_err() {
        return Err(FlowSubmissionError::UnsupportedDefinition);
    }
    let workspace = match parts.workspace {
        Ok(workspace) => workspace,
        Err(error) => return Err(error),
    };
    let normalized = match parts.normalized {
        Some(normalized) => normalized,
        None => return Err(FlowSubmissionError::InvalidDefinition),
    };
    let root = match parts.execution_root {
        Some(root) => root,
        None => return Err(FlowSubmissionError::WorkspaceUnavailable),
    };
    let operation = match encode_flow_operation(normalized.bytes.as_slice(), &workspace, root) {
        Ok(operation) => operation,
        Err(error) => return Err(error),
    };
    let policy_resource = flow_policy_resource(
        normalized.id.as_str(),
        normalized.revision,
        normalized.digest.as_str(),
        &workspace,
    );
    Ok(PreparedFlowSubmission { operation, policy_resource, schema_approval_required })
}

// Project roots

/// The project that was found at a directory.
pub struct DiscoveredProject {
    pub id: String,
    /// Its root with links and dots resolved, if that could be done.
    pub canonical_root: Option<String>,
}

/// The root that a caller names is its project's own: it is absolute and
/// resolved already, and the project found there is the expected one and
/// starts there.
pub open spec fn is_project_root(
    requested: Seq<char>,
    canonical: Option<Seq<char>>,
    project: Option<DiscoveredProject>,
    expected_id: Seq<char>,
) -> bool {
    &&& is_absolute(requested)
    &&& canonical matches Some(resolved)
    &&& same_path(resolved, requested)
    &&& project matches Some(found)
    &&& found.canonical_root matches Some(root)
    &&& same_path(root@, resolved)
    &&& found.id@ == expected_id
}

/// Checks the root that a caller names.
pub fn verify_flow_project_root(
    requested: &str,
    canonical: Option<&str>,
    project: &Option<DiscoveredProject>,
    expected_id: &str,
) -> (result: Result<(), FlowSubmissionError>)
    ensures
        match result {
            Ok(_) => is_project_root(
                requested@,
                (match canonical {
                    Some(path) => Some(path@),
                    None => None,
                }),
                *project,
                expected_id@,
            ),
            Err(error) => {
                &&& error == FlowSubmissionError::WorkspaceUnavailable
                &&& !is_project_root(
                    requested@,
                    (match canonical {
                        Some(path) => Some(path@),
                        None => None,
                    }),
                    *project,
                    expected_id@,
                )
            },
        },
{
    if !path_is_absolute(requested) {
        return Err(FlowSubmissionError::WorkspaceUnavailable);
    }
    let resolved = match canonical {
        Some(resolved) => resolved,
        None => return Err(FlowSubmissionError::WorkspaceUnavailable),
    };
    if !paths_equal(resolved, requested) {
        return Err(FlowSubmissionError::WorkspaceUnavailable);
    }
    let found = match project {
        Some(found) => found,
        None => return Err(FlowSubmissionError::WorkspaceUnavailable),
    };
    let root = match &found.canonical_root {
        Some(root) => root,
        None => return Err(FlowSubmissionError::WorkspaceUnavailable),
    };
    if !paths_equal(root.as_str(), resolved) || !same_text(found.id.as_str(), expected_id) {
        return Err(FlowSubmissionError::WorkspaceUnavailable);
    }
    Ok(())
}

/// The root of a request is looked at and remembered.
pub open spec fn learns_root(daemon_scope: bool, has_root: bool) -> bool {
    !daemon_scope && has_root
}

/// Whether the root of a request is to be looked at and remembered.
pub fn may_learn_root(daemon_scope: bool, has_root: bool) -> (may: bool)
    ensures
        may == learns_root(daemon_scope, has_root),
{
    !daemon_scope && has_root
}

// Surroundings

/// An environment variable.
pub struct Variable {
    pub name: String,
    pub value: String,
}

pub open spec fn variable_pairs(variables: Seq<Variable>) -> Seq<(Seq<char>, Seq<char>)> {
    Seq::new(variables.len(), |i: int| (variables[i].name@, variables[i].value@))
}

/// The inherited variables that a command keeps.
pub open spec fn kept_variables(inherited: Seq<Variable>) -> Seq<(Seq<char>, Seq<char>)>
    decreases inherited.len(),
{
    if inherited.len() == 0 {
        seq![]
    } else {
        let before = kept_variables(inherited.drop_last());
        let last = inherited.last();
        if is_safe_environment_name(last.name@) {
            before.push((last.name@, last.value@))
        } else {
            before
        }
    }
}

/// What is set for every command, over anything inherited.
pub open spec fn fixed_variables() -> Seq<(Seq<char>, Seq<char>)> {
    seq![
        ("GIT_TERMINAL_PROMPT"@, "0"@),
        ("GIT_ASKPASS"@, "/usr/bin/false"@),
        ("SSH_ASKPASS"@, "/usr/bin/false"@),
        ("GIT_OPTIONAL_LOCKS"@, "0"@),
        ("GIT_CONFIG_NOSYSTEM"@, "1"@),
        ("GIT_ATTR_NOSYSTEM"@, "1"@),
        ("GIT_CONFIG_GLOBAL"@, "/dev/null"@),
    ]
}

fn add_variable(variables: &mut Vec<Variable>, name: &str, value: &str)
    ensures
        variable_pairs(final(variables)@) == variable_pairs(old(variables)@).push((name@, value@)),
{
    let ghost before = variables@;
    variables.push(Variable { name: name.to_owned(), value: value.to_owned() });
    assert(variable_pairs(variables@) =~= variable_pairs(before).push((name@, value@)));
}

/// The whole environment of a command: what it keeps, its search path, and
/// what is fixed. A later entry takes the place of an earlier one of the same
/// name.
pub fn safe_environment(inherited: &Vec<Variable>, search_path: Option<&str>) -> (variables: Vec<
    Variable,
>)
    ensures
        variable_pairs(variables@) == kept_variables(inherited@) + (match search_path {
            Some(path) => seq![("PATH"@, path@)],
            None => seq![],
        }) + fixed_variables(),
{
    let mut variables: Vec<Variable> = Vec::new();
    let mut index: usize = 0;
    assert(variable_pairs(variables@) =~= seq![]);
    while index < inherited.len()
        invariant
            index <= inherited@.len(),
            variable_pairs(variables@) == kept_variables(inherited@.take(index as int)),
        decreases inherited@.len() - index,
    {
        let variable = &inherited[index];
        proof {
            assert(inherited@.take(index + 1).drop_last() =~= inherited@.take(index as int));
            assert(inherited@.take(index + 1).last() == *variable);
        }
        if safe_environment_name(variable.name.as_str()) {
            add_variable(&mut variables, variable.name.as_str(), variable.value.as_str());
        }
        index = index + 1;
    }
    assert(inherited@.take(inherited@.len() as int) =~= inherited@);
    if let Some(path) = search_path {
        add_variable(&mut variables, "PATH", path);
    }
    add_variable(&mut variables, "GIT_TERMINAL_PROMPT", "0");
    add_variable(&mut variables, "GIT_ASKPASS", "/usr/bin/false");
    add_variable(&mut variables, "SSH_ASKPASS", "/usr/bin/false");
    add_variable(&mut variables, "GIT_OPTIONAL_LOCKS", "0");
    add_variable(&mut variables, "GIT_CONFIG_NOSYSTEM", "1");
    add_variable(&mut variables, "GIT_ATTR_NOSYSTEM", "1");
    add_variable(&mut variables, "GIT_CONFIG_GLOBAL", null_device());
    assert(variable_pairs(variables@) =~= kept_variables(inherited@) + (match search_path {
        Some(path) => seq![("PATH"@, path@)],
        None => seq![],
    }) + fixed_variables());
    variables
}

/// A command gets no variable but those that are safe to inherit, its search
/// path, and the fixed ones.
pub proof fn law_commands_inherit_only_safe_variables(
    inherited: Seq<Variable>,
    name: Seq<char>,
    value: Seq<char>,
)
    requires
        kept_variables(inherited).contains((name, value)),
    ensures
        is_safe_environment_name(name),
        variable_pairs(inherited).contains((name, value)),
    decreases inherited.len(),
{
    if inherited.len() > 0 {
        let before = inherited.drop_last();
        let last = inherited.last();
        if kept_variables(before).contains((name, value)) {
            law_commands_inherit_only_safe_variables(before, name, value);
            let i = choose|i: int|
                0 <= i < variable_pairs(before).len() && variable_pairs(before)[i] == (name, value);
            assert(variable_pairs(inherited)[i] == variable_pairs(before)[i]);
        } else {
            let all = kept_variables(inherited);
            let i = choose|i: int| 0 <= i < all.len() && all[i] == (name, value);
            if i < kept_variables(before).len() {
                assert(kept_variables(before)[i] == all[i]);
            }
            assert(variable_pairs(inherited)[inherited.len() - 1] == (name, value));
        }
    }
}

/// A directory of the inherited search path.
pub struct SearchDirectory {
    pub path: String,
    /// The directory with links and dots resolved, if that could be done.
    pub canonical: Option<String>,
    pub is_directory: bool,
}

/// Programs of the directory may be run: it is a directory that is named in
/// full and lies outside of the workspace.
pub open spec fn is_searched(directory: SearchDirectory, execution_root: Seq<char>) -> bool {
    &&& is_absolute(directory.path@)
    &&& directory.canonical matches Some(path)
    &&& directory.is_directory
    &&& !begins_with(path@, execution_root)
}

pub open spec fn searched(directories: Seq<SearchDirectory>, execution_root: Seq<char>) -> Seq<
    Seq<char>,
>
    decreases directories.len(),
{
    if directories.len() == 0 {
        seq![]
    } else {
        let before = searched(directories.drop_last(), execution_root);
        if is_searched(directories.last(), execution_root) {
            before.push(directories.last().canonical->0@)
        } else {
            before
        }
    }
}

/// Lists the resolved directories that a command searches for programs. None
/// of them is in the workspace.
pub fn safe_search_path(directories: &Vec<SearchDirectory>, execution_root: &str) -> (paths: Vec<
    String,
>)
    ensures
        texts(paths@) == searched(directories@, execution_root@),
{
    let mut paths: Vec<String> = Vec::new();
    let mut index: usize = 0;
    assert(texts(paths@) =~= seq![]);
    while index < directories.len()
        invariant
            index <= directories@.len(),
            texts(paths@) == searched(directories@.take(index as int), execution_root@),
        decreases directories@.len() - index,
    {
        let directory = &directories[index];
        proof {
            assert(directories@.take(index + 1).drop_last() =~= directories@.take(index as int));
            assert(directories@.take(index + 1).last() == *directory);
        }
        if path_is_absolute(directory.path.as_str()) && directory.is_directory {
            if let Some(path) = &directory.canonical {
                if !path_starts_with(path.as_str(), execution_root) {
                    let ghost before = paths@;
                    paths.push(path.clone());
                    assert(texts(paths@) =~= texts(before).push(path@));
                }
            }
        }
        index = index + 1;
    }
    assert(directories@.take(directories@.len() as int) =~= directories@);
    paths
}

// Process groups

/// What ending the process group of a command came to.
#[derive(Clone, Copy, Debug, PartialEq, Eq, Structural)]
pub enum GroupKill {
    /// The process has no identity, so that there is no group to end.
    NoProcess,
    /// The group was ended, or there was none left.
    Ended,
    Refused,
}

/// Whether a group that was to be ended still has to be ended when its owner
/// lets go of it.
pub fn group_stays_armed(kill: GroupKill, armed: bool) -> (stays: bool)
    ensures
        stays == (kill == GroupKill::Refused && armed),
{
    match kill {
        GroupKill::Refused => armed,
        GroupKill::NoProcess | GroupKill::Ended => false,
    }
}

/// A submission is accepted exactly where its definition is one and every step
/// of it is one that the daemon executes, where its workspace is pinned, and
/// where its root is text that fits the record. What is wrong with the
/// definition is told before what is wrong with the workspace.
pub proof fn law_submissions_are_accepted_whole(parts: SubmissionParts)
    ensures
        submission_error(parts) is None <==> {
            &&& parts.definition is Some
            &&& definition_rejection(
                parts.definition->0.steps@,
                parts.definition->0.schema_version,
                *parts.host,
            ) is None
            &&& parts.workspace is Ok
            &&& parts.normalized is Some
            &&& parts.execution_root is Some
            &&& encode_utf8(parts.execution_root->0@).len() <= 0xffff_ffff
        },
        parts.definition is None ==> submission_error(parts) == Some(
            FlowSubmissionError::InvalidDefinition,
        ),
        parts.definition is Some && definition_rejection(
            parts.definition->0.steps@,
            parts.definition->0.schema_version,
            *parts.host,
        ) is Some ==> submission_error(parts) == Some(FlowSubmissionError::UnsupportedDefinition),
        submission_error(parts) == Some(FlowSubmissionError::UnsupportedDefinition)
            && parts.workspace != Err::<WorkspaceFingerprint, FlowSubmissionError>(
            FlowSubmissionError::UnsupportedDefinition,
        ) ==> definition_rejection(
            parts.definition->0.steps@,
            parts.definition->0.schema_version,
            *parts.host,
        ) is Some,
{
}

/// What is queued is what was submitted: the record holds the root, the pinned
/// workspace and the normalized definition, and is read back as these; the
/// resource names the flow, its revision, its digest and the workspace. Nothing
/// that is accepted changes anything, so that no schema asks for an approval.
pub proof fn law_submissions_queue_what_was_submitted(
    prepared: PreparedFlowSubmission,
    parts: SubmissionParts,
    definition_text: Seq<char>,
)
    requires
        submission_error(parts) is None,
        is_submission_of(prepared, parts),
        parts.normalized->0.bytes@ == encode_utf8(definition_text),
        is_absolute(parts.execution_root->0@),
    ensures
        is_operation_of(
            prepared.operation@,
            parts.execution_root->0@,
            parts.workspace->Ok_0@,
            definition_text,
        ),
        prepared.policy_resource@ == "flow:"@ + parts.normalized->0.id@ + ":revision="@ + decimal(
            parts.normalized->0.revision as nat,
        ) + ":digest="@ + parts.normalized->0.digest@ + ":workspace="@ + ("sha256:"@ + hex(
            parts.workspace->Ok_0@,
        )),
        !prepared.schema_approval_required,
{
    let definition = *(parts.definition->0);
    if has_stateful_step(definition) {
        let i = choose|i: int|
            0 <= i < definition.steps@.len() && (#[trigger] definition.steps@[i]).effect
                == EffectKind::Stateful;
        law_accepted_definitions_only_observe(definition, *parts.host, i);
    }
}

/// A root belongs to one project: it is the root of the project that was found
/// there, and of no other.
pub proof fn law_roots_belong_to_one_project(
    requested: Seq<char>,
    canonical: Option<Seq<char>>,
    project: Option<DiscoveredProject>,
    expected_id: Seq<char>,
    other_id: Seq<char>,
)
    requires
        is_project_root(requested, canonical, project, expected_id),
    ensures
        is_absolute(requested),
        project->0.id@ == expected_id,
        canonical is Some && same_path(canonical->0, requested),
        project->0.canonical_root is Some && same_path(
            project->0.canonical_root->0@,
            requested,
        ),
        is_project_root(requested, canonical, project, other_id) ==> other_id == expected_id,
{
}

/// A root that is resolved, absolute and the very root of the expected project
/// is accepted.
pub proof fn law_true_roots_are_accepted(root: Seq<char>, project: DiscoveredProject)
    requires
        is_absolute(root),
        project.canonical_root is Some,
        project.canonical_root->0@ == root,
    ensures
        is_project_root(root, Some(root), Some(project), project.id@),
{
}

/// Every safe variable is kept as it is.
pub proof fn law_safe_variables_are_kept(inherited: Seq<Variable>, at: int)
    requires
        0 <= at < inherited.len(),
        is_safe_environment_name(inherited[at].name@),
    ensures
        kept_variables(inherited).contains((inherited[at].name@, inherited[at].value@)),
    decreases inherited.len(),
{
    let before = inherited.drop_last();
    let pair = (inherited[at].name@, inherited[at].value@);
    if at < before.len() {
        law_safe_variables_are_kept(before, at);
        let kept = kept_variables(before);
        let i = choose|i: int| 0 <= i < kept.len() && kept[i] == pair;
        assert(kept_variables(inherited)[i] == pair);
    } else {
        assert(kept_variables(inherited)[kept_variables(before).len() as int] == pair);
    }
}

/// Whatever is inherited, git never asks anybody for anything, takes no lock that
/// it can do without, and reads no configuration but the repository's own.
pub proof fn law_commands_never_prompt()
    ensures
        fixed_variables().len() == 7,
        fixed_variables()[0] == ("GIT_TERMINAL_PROMPT"@, "0"@),
        fixed_variables()[1] == ("GIT_ASKPASS"@, "/usr/bin/false"@),
        fixed_variables()[2] == ("SSH_ASKPASS"@, "/usr/bin/false"@),
        fixed_variables()[3] == ("GIT_OPTIONAL_LOCKS"@, "0"@),
        fixed_variables()[4] == ("GIT_CONFIG_NOSYSTEM"@, "1"@),
        fixed_variables()[5] == ("GIT_ATTR_NOSYSTEM"@, "1"@),
        fixed_variables()[6] == ("GIT_CONFIG_GLOBAL"@, "/dev/null"@),
{
}

/// A directory is searched for programs exactly where it is named in full, is
/// there, and lies outside of the workspace; so a workspace cannot bring the
/// program that runs in it.
pub proof fn law_workspaces_bring_no_programs(
    directories: Seq<SearchDirectory>,
    execution_root: Seq<char>,
    path: Seq<char>,
)
    ensures
        searched(directories, execution_root).contains(path) <==> exists|i: int|
            0 <= i < directories.len() && {
                let found = #[trigger] directories[i];
                is_absolute(found.path@) && found.is_directory && found.canonical is Some
                    && found.canonical->0@ == path && !begins_with(path, execution_root)
            },
    decreases directories.len(),
{
    if directories.len() > 0 {
        let before = directories.drop_last();
        let last = directories.last();
        law_workspaces_bring_no_programs(before, execution_root, path);
        let kept = searched(before, execution_root);
        let all = searched(directories, execution_root);
        if all.contains(path) {
            let k = choose|k: int| 0 <= k < all.len() && all[k] == path;
            if k < kept.len() {
                assert(kept[k] == path);
                let i = choose|i: int|
                    0 <= i < before.len() && {
                        let found = #[trigger] before[i];
                        is_absolute(found.path@) && found.is_directory && found.canonical is Some
                            && found.canonical->0@ == path && !begins_with(path, execution_root)
                    };
                assert(directories[i] == before[i]);
            } else {
                assert(directories[directories.len() - 1] == last);
            }
        }
        if exists|i: int|
            0 <= i < directories.len() && {
                let found = #[trigger] directories[i];
                is_absolute(found.path@) && found.is_directory && found.canonical is Some
                    && found.canonical->0@ == path && !begins_with(path, execution_root)
            } {
            let i = choose|i: int|
                0 <= i < directories.len() && {
                    let found = #[trigger] directories[i];
                    is_absolute(found.path@) && found.is_directory && found.canonical is Some
                        && found.canonical->0@ == path && !begins_with(path, execution_root)
                };
            if i < before.len() {
                assert(before[i] == directories[i]);
                let k = choose|k: int| 0 <= k < kept.len() && kept[k] == path;
                assert(all[k] == path);
            } else {
                assert(all[kept.len() as int] == path);
            }
        }
    }
}

/// A root is remembered only of a project, never of the daemon's own scope, and of
/// every project that names one.
pub proof fn law_roots_are_learned_of_projects_alone(daemon_scope: bool, has_root: bool)
    ensures
        learns_root(daemon_scope, has_root) ==> has_root,
        daemon_scope ==> !learns_root(daemon_scope, has_root),
        !daemon_scope ==> learns_root(daemon_scope, true),
{
}

} // verus!
