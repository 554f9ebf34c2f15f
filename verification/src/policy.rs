//! What a request is authorized as, what its audit records say, and how a
//! refusal can be cleared.

use vstd::arithmetic::power::pow;
use vstd::prelude::*;
use vstd::utf8::encode_utf8;

use crate::bytes::{
    append_bytes, le_bytes, lemma_le_bytes_injective, lemma_le_bytes_len, push_le, push_le_u32,
    push_le_u64,
};
use crate::digest::{sha256_digest, sha256_hex};
use crate::protocol::{
    ApprovalChallenge, Capability, ExpectedTargetKind, Failure, FailureCode, RequestEnvelope,
    RequestPayload, optional_text,
};
use crate::reset::items::{ResetTier, tier_name};
use crate::text::{
    byte_len, chars_of, concat2, concat3, concat4, concat5, decimal, decimal_text, has_prefix, hex,
    is_ascii_alphanumeric_char, is_ascii_digit_char, lemma_decimal_digits,
    lemma_decimal_is_injective, lemma_utf8_len_take, utf8_len,
};

verus! {

// Resources

/// The resource of a reset. A forecast and a real reset are different
/// resources, so a grant for one cannot be spent on the other.
pub open spec fn reset_resource_text(tier: Seq<char>, dry_run: bool) -> Seq<char> {
    "reset:"@ + tier + ":mode="@ + (if dry_run {
        "preview"@
    } else {
        "apply"@
    })
}

pub fn reset_resource(tier: &str, dry_run: bool) -> (resource: String)
    ensures
        resource@ == reset_resource_text(tier@, dry_run),
{
    let mode = if dry_run {
        "preview"
    } else {
        "apply"
    };
    concat4("reset:", tier, ":mode=", mode)
}

/// No grant for a forecast covers a real reset, of any tier.
pub proof fn law_forecasts_are_not_spendable(forecast: Seq<char>, applied: Seq<char>)
    ensures
        reset_resource_text(forecast, true) != reset_resource_text(applied, false),
{
    reveal_strlit("preview");
    reveal_strlit("apply");
    assert(reset_resource_text(forecast, true).last() == 'w');
    assert(reset_resource_text(applied, false).last() == 'y');
}

/// The resource of a request about another request. A typed target names its
/// identity with its length.
pub open spec fn target_resource_text(
    id: Seq<char>,
    kind: Option<Seq<char>>,
    after: Option<u64>,
) -> Seq<char> {
    match kind {
        None => "request:"@ + id + cursor_text(after),
        Some(label) => "flow-request-v4:id-bytes="@ + decimal(utf8_len(id)) + ":id="@ + id
            + ":kind="@ + label + cursor_text(after),
    }
}

/// What a resource says of where a replay starts.
pub open spec fn cursor_text(after: Option<u64>) -> Seq<char> {
    match after {
        Some(sequence) => ":after="@ + decimal(sequence as nat),
        None => Seq::empty(),
    }
}

proof fn lemma_cursors_are_told_apart(after: Option<u64>, other: Option<u64>)
    requires
        cursor_text(after) == cursor_text(other),
    ensures
        after == other,
{
    reveal_strlit(":after=");
    match (after, other) {
        (Some(sequence), Some(other_sequence)) => {
            assert(decimal(sequence as nat) =~= cursor_text(after).skip(7));
            assert(decimal(other_sequence as nat) =~= cursor_text(other).skip(7));
            lemma_decimal_is_injective(sequence as nat, other_sequence as nat);
        },
        (Some(_), None) => {
            assert(cursor_text(after).len() > 0);
        },
        (None, Some(_)) => {
            assert(cursor_text(other).len() > 0);
        },
        (None, None) => {},
    }
}

pub fn target_policy_resource(
    target_request_id: &str,
    expected_target_kind: Option<&str>,
    after_sequence: Option<u64>,
) -> (resource: String)
    ensures
        resource@ == target_resource_text(
            target_request_id@,
            match expected_target_kind {
                Some(label) => Some(label@),
                None => None,
            },
            after_sequence,
        ),
{
    let mut resource = match expected_target_kind {
        None => concat2("request:", target_request_id),
        Some(label) => {
            let length = decimal_text(byte_len(target_request_id) as u64);
            let mut typed = concat4(
                "flow-request-v4:id-bytes=",
                length.as_str(),
                ":id=",
                target_request_id,
            );
            typed.append(":kind=");
            typed.append(label);
            typed
        },
    };
    let ghost named = resource@;
    match after_sequence {
        Some(sequence) => {
            let number = decimal_text(sequence);
            resource.append(":after=");
            resource.append(number.as_str());
            assert(resource@ =~= named + (":after="@ + decimal(sequence as nat)));
        },
        None => {
            assert(named + Seq::<char>::empty() =~= named);
        },
    }
    resource
}

/// Two texts of digits, each followed by a colon, are equal where what they
/// begin is.
proof fn lemma_digits_end_at_a_colon(
    digits: Seq<char>,
    rest: Seq<char>,
    other_digits: Seq<char>,
    other_rest: Seq<char>,
)
    requires
        digits + rest == other_digits + other_rest,
        rest.len() > 0 && rest[0] == ':',
        other_rest.len() > 0 && other_rest[0] == ':',
        forall|i: int| 0 <= i < digits.len() ==> is_ascii_digit_char(#[trigger] digits[i]),
        forall|i: int|
            0 <= i < other_digits.len() ==> is_ascii_digit_char(#[trigger] other_digits[i]),
    ensures
        digits == other_digits,
        rest == other_rest,
{
    let whole = digits + rest;
    assert(whole[digits.len() as int] == ':');
    assert((other_digits + other_rest)[other_digits.len() as int] == ':');
    if digits.len() < other_digits.len() {
        assert((other_digits + other_rest)[digits.len() as int] == other_digits[digits.len() as int]);
    }
    if other_digits.len() < digits.len() {
        assert(whole[other_digits.len() as int] == digits[other_digits.len() as int]);
    }
    assert(digits =~= whole.take(digits.len() as int));
    assert(other_digits =~= (other_digits + other_rest).take(other_digits.len() as int));
    assert(rest =~= whole.skip(digits.len() as int));
    assert(other_rest =~= (other_digits + other_rest).skip(other_digits.len() as int));
}

/// No identity of a typed target can imitate another: resources that read the
/// same are about the same request, and for one kind of target, from the same
/// event on.
pub proof fn law_typed_targets_are_told_apart(
    id: Seq<char>,
    kind: Seq<char>,
    after: Option<u64>,
    other_id: Seq<char>,
    other_kind: Seq<char>,
    other_after: Option<u64>,
)
    requires
        target_resource_text(id, Some(kind), after) == target_resource_text(
            other_id,
            Some(other_kind),
            other_after,
        ),
    ensures
        id == other_id,
        kind == other_kind ==> after == other_after,
{
    let cursor = cursor_text(after);
    let other_cursor = cursor_text(other_after);
    let prefix = "flow-request-v4:id-bytes="@;
    let mark = ":id="@;
    let tail = ":kind="@ + kind + cursor;
    let other_tail = ":kind="@ + other_kind + other_cursor;
    let count = decimal(utf8_len(id));
    let other_count = decimal(utf8_len(other_id));
    let rest = mark + (id + tail);
    let other_rest = mark + (other_id + other_tail);
    let whole = target_resource_text(id, Some(kind), after);
    reveal_strlit(":id=");
    lemma_decimal_digits(utf8_len(id));
    lemma_decimal_digits(utf8_len(other_id));
    assert(whole =~= prefix + (count + rest));
    assert(target_resource_text(other_id, Some(other_kind), other_after) =~= prefix + (other_count
        + other_rest));
    assert(count + rest =~= whole.skip(prefix.len() as int));
    assert(other_count + other_rest =~= whole.skip(prefix.len() as int));
    lemma_digits_end_at_a_colon(count, rest, other_count, other_rest);
    lemma_decimal_is_injective(utf8_len(id), utf8_len(other_id));
    let named = rest.skip(mark.len() as int);
    assert(named =~= id + tail);
    assert(named =~= other_id + other_tail);
    assert(id =~= named.take(id.len() as int));
    assert(other_id =~= named.take(other_id.len() as int));
    if id.len() < other_id.len() {
        assert(id =~= other_id.take(id.len() as int));
        lemma_utf8_len_take(other_id, id.len() as int);
    } else if other_id.len() < id.len() {
        assert(other_id =~= id.take(other_id.len() as int));
        lemma_utf8_len_take(id, other_id.len() as int);
    }
    if kind == other_kind {
        let before = id + (":kind="@ + kind);
        assert(named =~= before + cursor);
        assert(named =~= before + other_cursor);
        assert(cursor =~= named.skip(before.len() as int));
        assert(other_cursor =~= named.skip(before.len() as int));
        lemma_cursors_are_told_apart(after, other_after);
    }
}

pub open spec fn kind_label(kind: Option<ExpectedTargetKind>) -> Option<
    Seq<char>,
> {
    match kind {
        Some(k) => Some(k.policy_label@),
        None => None,
    }
}

/// The resource that a request is authorized against. A flow run has none of
/// its own: it is authorized against its prepared workspace.
pub open spec fn resource_text(request: RequestEnvelope) -> Option<Seq<char>> {
    match request.payload {
        RequestPayload::Status
        | RequestPayload::Stop
        | RequestPayload::DaemonActivity { .. }
        | RequestPayload::DaemonLogs { .. }
        | RequestPayload::DaemonStats { .. }
        | RequestPayload::CallerList
        | RequestPayload::ModelStatus => Some("daemon"@),
        RequestPayload::ProjectCurrent => Some("project"@),
        RequestPayload::ModelRegister { model } => Some("model:"@ + model@),
        RequestPayload::GrantRevoke { capability } => Some("grant:"@ + capability@),
        RequestPayload::ConnectorList => Some("connector"@),
        RequestPayload::ConnectorConfigure { connector, .. } => Some("connector:"@ + connector@),
        RequestPayload::ConnectorTest { connector } => Some("connector:"@ + connector@),
        RequestPayload::ApprovalDecide { .. } => Some("approval"@),
        RequestPayload::Brief => Some("project:"@ + request.project_id@),
        RequestPayload::NetworkDiagnostics => Some("network:configuration"@),
        RequestPayload::Cancel { target_request_id, expected_target_kind } => Some(
            target_resource_text(target_request_id@, kind_label(expected_target_kind), None),
        ),
        RequestPayload::GetResult { target_request_id, expected_target_kind } => Some(
            target_resource_text(target_request_id@, kind_label(expected_target_kind), None),
        ),
        RequestPayload::Replay { target_request_id, after_sequence, expected_target_kind } => Some(
            target_resource_text(
                target_request_id@,
                kind_label(expected_target_kind),
                Some(after_sequence),
            ),
        ),
        RequestPayload::WaitForResult {
            target_request_id,
            after_sequence,
            expected_target_kind,
        } => Some(
            target_resource_text(
                target_request_id@,
                kind_label(expected_target_kind),
                Some(after_sequence),
            ),
        ),
        RequestPayload::InspectEvidence { handle } => Some("evidence:"@ + handle@),
        RequestPayload::ReadEvidence { handle, offset, length } => Some(
            "evidence:"@ + handle@ + ":offset="@ + decimal(offset as nat) + ":length="@ + decimal(
                length as nat,
            ),
        ),
        RequestPayload::ModelInfer { model } => Some("model:"@ + model@),
        RequestPayload::ModelUnregister { model } => Some("model:"@ + model@),
        RequestPayload::ModelDeleteWeights { model } => Some("model:"@ + model@),
        RequestPayload::ModelVerify { model } => match model {
            Some(name) => Some("model:"@ + name@),
            None => Some("model:all"@),
        },
        RequestPayload::ModelSweep => Some("models:directory"@),
        RequestPayload::ResetAccess { dry_run } => Some(reset_resource_text("access"@, dry_run)),
        RequestPayload::ResetIdentity { dry_run } => Some(
            reset_resource_text("identity"@, dry_run),
        ),
        RequestPayload::ResetHistory { dry_run } => Some(reset_resource_text("history"@, dry_run)),
        RequestPayload::ResetRegistry { dry_run } => Some(
            reset_resource_text("registry"@, dry_run),
        ),
        RequestPayload::FlowRun { .. } => None,
    }
}

fn label_of(kind: &Option<ExpectedTargetKind>) -> (label: Option<&str>)
    ensures
        match (label, kind_label(*kind)) {
            (Some(text), Some(expected)) => text@ == expected,
            (None, None) => true,
            _ => false,
        },
{
    match kind {
        Some(k) => Some(k.policy_label.as_str()),
        None => None,
    }
}

/// Names the resource that a request is authorized against.
pub fn policy_resource(request: &RequestEnvelope) -> (resource: Option<String>)
    ensures
        match (resource, resource_text(*request)) {
            (Some(text), Some(expected)) => text@ == expected,
            (None, None) => true,
            _ => false,
        },
{
    Some(
        match &request.payload {
            RequestPayload::Status
            | RequestPayload::Stop
            | RequestPayload::DaemonActivity { .. }
            | RequestPayload::DaemonLogs { .. }
            | RequestPayload::DaemonStats { .. }
            | RequestPayload::CallerList
            | RequestPayload::ModelStatus => "daemon".to_owned(),
            RequestPayload::ProjectCurrent => "project".to_owned(),
            RequestPayload::ModelRegister { model } => concat2("model:", model.as_str()),
            RequestPayload::GrantRevoke { capability } => concat2("grant:", capability.as_str()),
            RequestPayload::ConnectorList => "connector".to_owned(),
            RequestPayload::ConnectorConfigure { connector, .. } => concat2(
                "connector:",
                connector.as_str(),
            ),
            RequestPayload::ConnectorTest { connector } => concat2(
                "connector:",
                connector.as_str(),
            ),
            RequestPayload::ApprovalDecide { .. } => "approval".to_owned(),
            RequestPayload::Brief => concat2("project:", request.project_id.as_str()),
            RequestPayload::NetworkDiagnostics => "network:configuration".to_owned(),
            RequestPayload::Cancel { target_request_id, expected_target_kind } => {
                target_policy_resource(
                    target_request_id.as_str(),
                    label_of(expected_target_kind),
                    None,
                )
            },
            RequestPayload::GetResult { target_request_id, expected_target_kind } => {
                target_policy_resource(
                    target_request_id.as_str(),
                    label_of(expected_target_kind),
                    None,
                )
            },
            RequestPayload::Replay { target_request_id, after_sequence, expected_target_kind } => {
                target_policy_resource(
                    target_request_id.as_str(),
                    label_of(expected_target_kind),
                    Some(*after_sequence),
                )
            },
            RequestPayload::WaitForResult {
                target_request_id,
                after_sequence,
                expected_target_kind,
            } => target_policy_resource(
                target_request_id.as_str(),
                label_of(expected_target_kind),
                Some(*after_sequence),
            ),
            RequestPayload::InspectEvidence { handle } => concat2("evidence:", handle.as_str()),
            RequestPayload::ReadEvidence { handle, offset, length } => {
                let from = decimal_text(*offset);
                let count = decimal_text(*length);
                let mut resource = concat4("evidence:", handle.as_str(), ":offset=", from.as_str());
                resource.append(":length=");
                resource.append(count.as_str());
                resource
            },
            RequestPayload::ModelInfer { model } => concat2("model:", model.as_str()),
            RequestPayload::ModelUnregister { model } => concat2("model:", model.as_str()),
            RequestPayload::ModelDeleteWeights { model } => concat2("model:", model.as_str()),
            RequestPayload::ModelVerify { model } => match model {
                Some(name) => concat2("model:", name.as_str()),
                None => "model:all".to_owned(),
            },
            RequestPayload::ModelSweep => "models:directory".to_owned(),
            RequestPayload::ResetAccess { dry_run } => reset_resource("access", *dry_run),
            RequestPayload::ResetIdentity { dry_run } => reset_resource("identity", *dry_run),
            RequestPayload::ResetHistory { dry_run } => reset_resource("history", *dry_run),
            RequestPayload::ResetRegistry { dry_run } => reset_resource("registry", *dry_run),
            RequestPayload::FlowRun { .. } => {
                return None;
            },
        },
    )
}

// Recovery

/// Text that a shell reads as one plain argument.
pub open spec fn is_shell_safe(value: Seq<char>) -> bool {
    &&& value.len() > 0
    &&& value[0] != '-'
    &&& forall|i: int| 0 <= i < value.len() ==> is_shell_safe_char(#[trigger] value[i])
}

pub open spec fn is_shell_safe_char(c: char) -> bool {
    is_ascii_alphanumeric_char(c) || c == '-' || c == '_' || c == '.' || c == ':' || c == '/' || c
        == '=' || c == '+'
}

/// Whether a shell reads `value` as one plain argument.
pub fn shell_safe_policy_argument(value: &str) -> (safe: bool)
    ensures
        safe == is_shell_safe(value@),
{
    let characters = chars_of(value);
    if characters.len() == 0 || characters[0] == '-' {
        return false;
    }
    let mut index: usize = 0;
    while index < characters.len()
        invariant
            characters@ == value@,
            index <= characters@.len(),
            forall|i: int| 0 <= i < index ==> is_shell_safe_char(#[trigger] value@[i]),
        decreases characters@.len() - index,
    {
        let c = characters[index];
        let plain = ('0' <= c && c <= '9') || ('a' <= c && c <= 'z') || ('A' <= c && c <= 'Z') || c
            == '-' || c == '_' || c == '.' || c == ':' || c == '/' || c == '=' || c == '+';
        if !plain {
            assert(!is_shell_safe_char(value@[index as int]));
            return false;
        }
        index = index + 1;
    }
    true
}

/// How a denial is cleared: by a grant, written out as a command when a shell
/// would read it as meant.
pub open spec fn grant_recovery_text(
    capability: Seq<char>,
    daemon_scope: bool,
    resource: Option<Seq<char>>,
) -> Seq<char> {
    match resource {
        None => "review the denied capability and resource before adding a grant"@,
        Some(name) => if is_shell_safe(capability) && is_shell_safe(name) {
            "pam access grant "@ + capability + (if daemon_scope {
                " --daemon"@
            } else {
                ""@
            }) + " --resource "@ + name
        } else {
            "run pam access grant with the denied capability and exact resource, quoted for your shell"@
        },
    }
}

pub fn grant_recovery(request: &RequestEnvelope, resource: Option<&str>) -> (recovery: String)
    ensures
        recovery@ == grant_recovery_text(
            request.policy_name@,
            request.daemon_scope,
            match resource {
                Some(name) => Some(name@),
                None => None,
            },
        ),
{
    let scope = if request.daemon_scope {
        " --daemon"
    } else {
        ""
    };
    match resource {
        None => "review the denied capability and resource before adding a grant".to_owned(),
        Some(name) => {
            if shell_safe_policy_argument(request.policy_name.as_str())
                && shell_safe_policy_argument(name) {
                concat5(
                    "pam access grant ",
                    request.policy_name.as_str(),
                    scope,
                    " --resource ",
                    name,
                )
            } else {
                "run pam access grant with the denied capability and exact resource, quoted for your shell".to_owned()
            }
        },
    }
}

/// The flow command that repeats a request about a typed target, if there is
/// one.
pub open spec fn flow_retry_text(payload: RequestPayload, approval: Seq<char>) -> Option<
    Seq<char>,
> {
    match payload {
        RequestPayload::Cancel { target_request_id, expected_target_kind } => {
            if expected_target_kind is Some && is_shell_safe(target_request_id@) {
                Some("pam flow cancel "@ + target_request_id@ + " --approval-id "@ + approval)
            } else {
                None
            }
        },
        RequestPayload::Replay { target_request_id, after_sequence, expected_target_kind } => {
            if expected_target_kind is Some && is_shell_safe(target_request_id@) {
                Some(
                    "pam flow logs "@ + target_request_id@ + " --after "@ + decimal(
                        after_sequence as nat,
                    ) + " --approval-id "@ + approval,
                )
            } else {
                None
            }
        },
        RequestPayload::WaitForResult {
            target_request_id,
            after_sequence,
            expected_target_kind,
        } => if expected_target_kind is Some && is_shell_safe(target_request_id@) {
            Some(
                "pam flow wait "@ + target_request_id@ + " --after "@ + decimal(
                    after_sequence as nat,
                ) + " --approval-id "@ + approval,
            )
        } else {
            None
        },
        RequestPayload::GetResult { target_request_id, expected_target_kind } => {
            if expected_target_kind is Some && is_shell_safe(target_request_id@) {
                Some("pam flow result "@ + target_request_id@ + " --approval-id "@ + approval)
            } else {
                None
            }
        },
        _ => None,
    }
}

fn flow_retry(payload: &RequestPayload, approval: &str) -> (command: Option<String>)
    ensures
        match (command, flow_retry_text(*payload, approval@)) {
            (Some(text), Some(expected)) => text@ == expected,
            (None, None) => true,
            _ => false,
        },
{
    match payload {
        RequestPayload::Cancel { target_request_id, expected_target_kind } => {
            if expected_target_kind.is_some() && shell_safe_policy_argument(
                target_request_id.as_str(),
            ) {
                Some(
                    concat4(
                        "pam flow cancel ",
                        target_request_id.as_str(),
                        " --approval-id ",
                        approval,
                    ),
                )
            } else {
                None
            }
        },
        RequestPayload::Replay { target_request_id, after_sequence, expected_target_kind } => {
            if expected_target_kind.is_some() && shell_safe_policy_argument(
                target_request_id.as_str(),
            ) {
                let cursor = decimal_text(*after_sequence);
                let mut command = concat4(
                    "pam flow logs ",
                    target_request_id.as_str(),
                    " --after ",
                    cursor.as_str(),
                );
                command.append(" --approval-id ");
                command.append(approval);
                Some(command)
            } else {
                None
            }
        },
        RequestPayload::WaitForResult {
            target_request_id,
            after_sequence,
            expected_target_kind,
        } => {
            if expected_target_kind.is_some() && shell_safe_policy_argument(
                target_request_id.as_str(),
            ) {
                let cursor = decimal_text(*after_sequence);
                let mut command = concat4(
                    "pam flow wait ",
                    target_request_id.as_str(),
                    " --after ",
                    cursor.as_str(),
                );
                command.append(" --approval-id ");
                command.append(approval);
                Some(command)
            } else {
                None
            }
        },
        RequestPayload::GetResult { target_request_id, expected_target_kind } => {
            if expected_target_kind.is_some() && shell_safe_policy_argument(
                target_request_id.as_str(),
            ) {
                Some(
                    concat4(
                        "pam flow result ",
                        target_request_id.as_str(),
                        " --approval-id ",
                        approval,
                    ),
                )
            } else {
                None
            }
        },
        _ => None,
    }
}

/// Where an approved request can be repeated.
#[derive(Clone, Copy, Debug, PartialEq, Eq, Structural)]
pub enum RetrySurface {
    /// The same command, with the approval attached.
    Command,
    /// The evidence reader, which makes several requests.
    Evidence,
    /// Only a protocol client.
    Client,
}

pub open spec fn retry_surface_of(capability: Capability) -> RetrySurface {
    match capability {
        Capability::DaemonStatus
        | Capability::ProjectCurrent
        | Capability::Brief
        | Capability::NetworkDiagnostics
        | Capability::WaitForResult
        | Capability::GetResult
        | Capability::ModelInfer
        | Capability::ModelUnregister
        | Capability::ModelVerify
        | Capability::ModelSweep
        | Capability::ModelDeleteWeights
        | Capability::FlowRun
        | Capability::ResetAccess
        | Capability::ResetIdentity
        | Capability::ResetHistory
        | Capability::ResetRegistry => RetrySurface::Command,
        Capability::InspectEvidence | Capability::ReadEvidence => RetrySurface::Evidence,
        Capability::ApprovalDecide
        | Capability::DaemonStop
        | Capability::DaemonActivity
        | Capability::DaemonLogs
        | Capability::DaemonStats
        | Capability::CallerList
        | Capability::ModelStatus
        | Capability::ModelRegister
        | Capability::GrantRevoke
        | Capability::ConnectorList
        | Capability::ConnectorConfigure
        | Capability::ConnectorTest
        | Capability::CancelRequest
        | Capability::ReplayEvents => RetrySurface::Client,
    }
}

fn retry_surface(capability: Capability) -> (surface: RetrySurface)
    ensures
        surface == retry_surface_of(capability),
{
    match capability {
        Capability::DaemonStatus
        | Capability::ProjectCurrent
        | Capability::Brief
        | Capability::NetworkDiagnostics
        | Capability::WaitForResult
        | Capability::GetResult
        | Capability::ModelInfer
        | Capability::ModelUnregister
        | Capability::ModelVerify
        | Capability::ModelSweep
        | Capability::ModelDeleteWeights
        | Capability::FlowRun
        | Capability::ResetAccess
        | Capability::ResetIdentity
        | Capability::ResetHistory
        | Capability::ResetRegistry => RetrySurface::Command,
        Capability::InspectEvidence | Capability::ReadEvidence => RetrySurface::Evidence,
        _ => RetrySurface::Client,
    }
}

/// How an approval is given and the approved request repeated.
pub open spec fn approval_recovery_text(request: RequestEnvelope, approval: Seq<char>) -> Seq<
    char,
> {
    if !is_shell_safe(approval) {
        "approve the exact request using a shell-quoted approval ID, then retry without changing its effect"@
    } else {
        match flow_retry_text(request.payload, approval) {
            Some(command) => "pam approval approve "@ + approval + ", then run "@ + command,
            None => match retry_surface_of(request.capability) {
                RetrySurface::Command => "pam approval approve "@ + approval
                    + ", then retry the original command with --approval-id "@ + approval,
                RetrySurface::Evidence => "pam approval approve "@ + approval
                    + "; pam evidence show spans inspection and range reads, so this one-request receipt must be retried by a protocol client against the exact challenged request"@,
                RetrySurface::Client => "pam approval approve "@ + approval
                    + "; PAM has no CLI retry surface for this capability, so a protocol client must attach this one-request receipt to the exact challenged request"@,
            },
        }
    }
}

pub fn approval_recovery(request: &RequestEnvelope, approval_id: &str) -> (recovery: String)
    ensures
        recovery@ == approval_recovery_text(*request, approval_id@),
{
    if !shell_safe_policy_argument(approval_id) {
        return "approve the exact request using a shell-quoted approval ID, then retry without changing its effect".to_owned();
    }
    if let Some(command) = flow_retry(&request.payload, approval_id) {
        return concat4("pam approval approve ", approval_id, ", then run ", command.as_str());
    }
    match retry_surface(request.capability) {
        RetrySurface::Command => concat4(
            "pam approval approve ",
            approval_id,
            ", then retry the original command with --approval-id ",
            approval_id,
        ),
        RetrySurface::Evidence => concat3(
            "pam approval approve ",
            approval_id,
            "; pam evidence show spans inspection and range reads, so this one-request receipt must be retried by a protocol client against the exact challenged request",
        ),
        RetrySurface::Client => concat3(
            "pam approval approve ",
            approval_id,
            "; PAM has no CLI retry surface for this capability, so a protocol client must attach this one-request receipt to the exact challenged request",
        ),
    }
}

/// Why policy did not let a request through.
pub enum AuthorizationRefusal {
    Denied,
    ApprovalRequired { approval_id: String, expires_at_ms: u64 },
    ApprovalDenied,
    ApprovalExpired,
}

/// `failure` reports `refusal` of the request.
pub open spec fn reports_refusal(
    failure: Failure,
    request: RequestEnvelope,
    refusal: AuthorizationRefusal,
    resource: Option<Seq<char>>,
) -> bool {
    match refusal {
        AuthorizationRefusal::Denied => failure.says(
            FailureCode::Forbidden,
            "project policy denied this capability"@,
            Some(grant_recovery_text(request.policy_name@, request.daemon_scope, resource)),
        ),
        AuthorizationRefusal::ApprovalRequired { approval_id, expires_at_ms } => {
            &&& failure.code == FailureCode::ApprovalRequired
            &&& failure.message@ == "this exact effect requires approval"@
            &&& optional_text(failure.recovery) == Some(
                approval_recovery_text(request, approval_id@),
            )
            &&& failure.approval matches Some(challenge) && challenge.approval_id == approval_id
                && challenge.expires_at_unix_ms == expires_at_ms
        },
        AuthorizationRefusal::ApprovalDenied => failure.says(
            FailureCode::ApprovalDenied,
            "approval was denied"@,
            None,
        ),
        AuthorizationRefusal::ApprovalExpired => failure.says(
            FailureCode::ApprovalExpired,
            "approval expired before use"@,
            None,
        ),
    }
}

/// Reports a refusal of policy, with the way to clear it.
pub fn authorization_failure(
    request: &RequestEnvelope,
    refusal: AuthorizationRefusal,
    resource: Option<&str>,
) -> (failure: Failure)
    ensures
        reports_refusal(
            failure,
            *request,
            refusal,
            match resource {
                Some(name) => Some(name@),
                None => None,
            },
        ),
{
    match refusal {
        AuthorizationRefusal::Denied => {
            let recovery = grant_recovery(request, resource);
            Failure::recoverable(
                FailureCode::Forbidden,
                "project policy denied this capability",
                recovery.as_str(),
            )
        },
        AuthorizationRefusal::ApprovalRequired { approval_id, expires_at_ms } => {
            let recovery = approval_recovery(request, approval_id.as_str());
            Failure {
                code: FailureCode::ApprovalRequired,
                message: "this exact effect requires approval".to_owned(),
                recovery: Some(recovery),
                approval: Some(
                    ApprovalChallenge { approval_id, expires_at_unix_ms: expires_at_ms },
                ),
            }
        },
        AuthorizationRefusal::ApprovalDenied => Failure::new(
            FailureCode::ApprovalDenied,
            "approval was denied",
        ),
        AuthorizationRefusal::ApprovalExpired => Failure::new(
            FailureCode::ApprovalExpired,
            "approval expired before use",
        ),
    }
}

// Audit

/// How long audit records are kept: thirty days.
pub const AUDIT_RETENTION_MS: u64 = 2_592_000_000;

/// How long an approval may be used: five minutes.
pub const APPROVAL_LIFETIME_MS: u64 = 300_000;

/// How long a record of this moment is kept.
pub open spec fn retention_of(occurred_at_ms: u64) -> int {
    if occurred_at_ms + AUDIT_RETENTION_MS > i64::MAX {
        i64::MAX as int
    } else {
        occurred_at_ms + AUDIT_RETENTION_MS
    }
}

/// When an audit record of now may be dropped. The store holds no later time
/// than its largest number.
pub fn retain_until_ms(occurred_at_ms: u64) -> (until: u64)
    ensures
        until == retention_of(occurred_at_ms),
{
    let until = occurred_at_ms.saturating_add(AUDIT_RETENTION_MS);
    if until > 9_223_372_036_854_775_807 {
        9_223_372_036_854_775_807
    } else {
        until
    }
}

/// The detail of a preflight audit record.
pub fn preflight_audit_detail(capability: &str, resource: &str, detail: &str) -> (text: String)
    ensures
        text@ == "capability="@ + capability@ + " resource="@ + resource@ + " detail="@ + detail@,
{
    let mut text = concat4("capability=", capability, " resource=", resource);
    text.append(" detail=");
    text.append(detail);
    text
}

/// A text with its length before it.
pub open spec fn counted_text(text: Seq<char>) -> Seq<u8> {
    le_bytes(utf8_len(text), 8) + encode_utf8(text)
}

/// What makes one audit event different from all others.
pub open spec fn audit_event_message(
    request: RequestEnvelope,
    stage: Seq<char>,
    occurred_at_ms: u64,
    process_id: u32,
    counter: u64,
    nanoseconds: u128,
) -> Seq<u8> {
    counted_text(request.request_id@) + counted_text(request.project_id@) + counted_text(
        request.caller_id@,
    ) + counted_text(request.idempotency_key@) + counted_text(request.policy_name@)
        + counted_text(stage) + (match request.approval_id {
        Some(id) => encode_utf8(id@),
        None => Seq::<u8>::empty(),
    }) + le_bytes(occurred_at_ms as nat, 8) + le_bytes(process_id as nat, 4) + le_bytes(
        counter as nat,
        8,
    ) + le_bytes(nanoseconds as nat, 16)
}

fn push_counted_text(out: &mut Vec<u8>, text: &str)
    ensures
        final(out)@ == old(out)@ + counted_text(text@),
{
    let bytes = text.as_bytes();
    push_le_u64(out, bytes.len() as u64);
    append_bytes(out, bytes);
    assert(out@ =~= old(out)@ + counted_text(text@));
}

/// Names one audit event of a request.
pub fn request_audit_event_id(
    request: &RequestEnvelope,
    stage: &str,
    occurred_at_ms: u64,
    process_id: u32,
    counter: u64,
    nanoseconds: u128,
) -> (id: String)
    ensures
        id@ == "request-preflight-"@ + hex(
            sha256_digest(
                audit_event_message(
                    *request,
                    stage@,
                    occurred_at_ms,
                    process_id,
                    counter,
                    nanoseconds,
                ),
            ),
        ),
{
    let mut message: Vec<u8> = Vec::new();
    push_counted_text(&mut message, request.request_id.as_str());
    push_counted_text(&mut message, request.project_id.as_str());
    push_counted_text(&mut message, request.caller_id.as_str());
    push_counted_text(&mut message, request.idempotency_key.as_str());
    push_counted_text(&mut message, request.policy_name.as_str());
    push_counted_text(&mut message, stage);
    if let Some(approval_id) = &request.approval_id {
        append_bytes(&mut message, approval_id.as_str().as_bytes());
    }
    push_le_u64(&mut message, occurred_at_ms);
    push_le_u32(&mut message, process_id);
    push_le_u64(&mut message, counter);
    push_le(&mut message, nanoseconds, 16);
    assert(message@ =~= audit_event_message(
        *request,
        stage@,
        occurred_at_ms,
        process_id,
        counter,
        nanoseconds,
    ));
    let digest = sha256_hex(message.as_slice());
    concat2("request-preflight-", digest.as_str())
}

/// Two audit events of one request in one process differ by their counter, so
/// what is digested for them differs, whatever the clock says.
pub proof fn law_audit_events_differ(
    request: RequestEnvelope,
    stage: Seq<char>,
    occurred_at_ms: u64,
    process_id: u32,
    counter: u64,
    other_counter: u64,
    nanoseconds: u128,
    other_nanoseconds: u128,
)
    requires
        counter != other_counter,
    ensures
        audit_event_message(request, stage, occurred_at_ms, process_id, counter, nanoseconds)
            != audit_event_message(
            request,
            stage,
            occurred_at_ms,
            process_id,
            other_counter,
            other_nanoseconds,
        ),
{
    let left = audit_event_message(request, stage, occurred_at_ms, process_id, counter, nanoseconds);
    let right = audit_event_message(
        request,
        stage,
        occurred_at_ms,
        process_id,
        other_counter,
        other_nanoseconds,
    );
    if left == right {
        lemma_le_bytes_len(counter as nat, 8);
        lemma_le_bytes_len(other_counter as nat, 8);
        lemma_le_bytes_len(nanoseconds as nat, 16);
        lemma_le_bytes_len(other_nanoseconds as nat, 16);
        let n = left.len() as int;
        assert(left.subrange(n - 24, n - 16) =~= le_bytes(counter as nat, 8));
        assert(right.subrange(n - 24, n - 16) =~= le_bytes(other_counter as nat, 8));
        assert(pow(256, 8) == 0x1_0000_0000_0000_0000) by {
            reveal_with_fuel(pow, 9);
        }
        lemma_le_bytes_injective(counter as nat, other_counter as nat, 8);
    }
}

// What resources stand for

/// The tier and the mode of a reset request.
pub open spec fn reset_of(payload: RequestPayload) -> Option<(ResetTier, bool)> {
    match payload {
        RequestPayload::ResetAccess { dry_run } => Some((ResetTier::Access, dry_run)),
        RequestPayload::ResetIdentity { dry_run } => Some((ResetTier::Identity, dry_run)),
        RequestPayload::ResetHistory { dry_run } => Some((ResetTier::History, dry_run)),
        RequestPayload::ResetRegistry { dry_run } => Some((ResetTier::Registry, dry_run)),
        _ => None,
    }
}

proof fn lemma_tier_names(tier: ResetTier)
    ensures
        tier_name(tier).len() > 0,
        tier == ResetTier::Access ==> tier_name(tier)[0] == 'a',
        tier == ResetTier::Identity ==> tier_name(tier)[0] == 'i',
        tier == ResetTier::History ==> tier_name(tier)[0] == 'h',
        tier == ResetTier::Registry ==> tier_name(tier)[0] == 'r',
{
    reveal_strlit("access");
    reveal_strlit("identity");
    reveal_strlit("history");
    reveal_strlit("registry");
}

/// The resource of a reset names the tier that is reset and whether it is only
/// forecast. Resets that share a resource are of the same tier and of the same
/// mode, so that no grant for one tier, or for a forecast, is good for another.
pub proof fn law_resets_are_told_apart(
    request: RequestEnvelope,
    other: RequestEnvelope,
)
    requires
        reset_of(request.payload) is Some,
        reset_of(other.payload) is Some,
    ensures
        ({
            let (tier, dry_run) = reset_of(request.payload)->0;
            &&& resource_text(request) == Some(
                "reset:"@ + tier_name(tier) + ":mode="@ + (if dry_run {
                    "preview"@
                } else {
                    "apply"@
                }),
            )
        }),
        resource_text(request) == resource_text(other) ==> reset_of(request.payload) == reset_of(
            other.payload,
        ),
{
    let (tier, dry_run) = reset_of(request.payload)->0;
    let (other_tier, other_dry_run) = reset_of(other.payload)->0;
    let left = resource_text(request)->0;
    let right = resource_text(other)->0;
    reveal_strlit("reset:");
    reveal_strlit("preview");
    reveal_strlit("apply");
    lemma_tier_names(tier);
    lemma_tier_names(other_tier);
    assert(left[6] == tier_name(tier)[0]);
    assert(right[6] == tier_name(other_tier)[0]);
    assert(left.last() == if dry_run { 'w' } else { 'y' });
    assert(right.last() == if other_dry_run { 'w' } else { 'y' });
}

/// What a request touches, as far as its resource tells.
#[derive(Clone, Copy, PartialEq, Eq, Structural)]
pub enum Subject {
    Daemon,
    Project,
    Brief,
    Model,
    ModelsDirectory,
    Grant,
    Connectors,
    Connector,
    Approval,
    Network,
    Request,
    FlowRequest,
    Evidence,
    Reset,
    Flow,
}

pub open spec fn is_typed(kind: Option<ExpectedTargetKind>) -> Subject {
    if kind is Some {
        Subject::FlowRequest
    } else {
        Subject::Request
    }
}

pub open spec fn subject_of(payload: RequestPayload) -> Subject {
    match payload {
        RequestPayload::ProjectCurrent => Subject::Project,
        RequestPayload::Brief => Subject::Brief,
        RequestPayload::ModelRegister { .. } | RequestPayload::ModelInfer { .. }
        | RequestPayload::ModelUnregister { .. } | RequestPayload::ModelDeleteWeights { .. }
        | RequestPayload::ModelVerify { .. } => Subject::Model,
        RequestPayload::ModelSweep => Subject::ModelsDirectory,
        RequestPayload::GrantRevoke { .. } => Subject::Grant,
        RequestPayload::ConnectorList => Subject::Connectors,
        RequestPayload::ConnectorConfigure { .. } | RequestPayload::ConnectorTest { .. } => {
            Subject::Connector
        },
        RequestPayload::ApprovalDecide { .. } => Subject::Approval,
        RequestPayload::NetworkDiagnostics => Subject::Network,
        RequestPayload::Cancel { expected_target_kind, .. } => is_typed(expected_target_kind),
        RequestPayload::GetResult { expected_target_kind, .. } => is_typed(expected_target_kind),
        RequestPayload::Replay { expected_target_kind, .. } => is_typed(expected_target_kind),
        RequestPayload::WaitForResult { expected_target_kind, .. } => is_typed(
            expected_target_kind,
        ),
        RequestPayload::InspectEvidence { .. } | RequestPayload::ReadEvidence { .. } => {
            Subject::Evidence
        },
        RequestPayload::ResetAccess { .. } | RequestPayload::ResetIdentity { .. }
        | RequestPayload::ResetHistory { .. } | RequestPayload::ResetRegistry { .. } => {
            Subject::Reset
        },
        RequestPayload::FlowRun { .. } => Subject::Flow,
        _ => Subject::Daemon,
    }
}

/// How the resources of a subject read.
spec fn reads_as(text: Seq<char>, subject: Subject) -> bool {
    match subject {
        Subject::Daemon => text == "daemon"@,
        Subject::Project => text == "project"@,
        Subject::Brief => has_prefix(text, "project:"@),
        Subject::Model => has_prefix(text, "model:"@),
        Subject::ModelsDirectory => text == "models:directory"@,
        Subject::Grant => has_prefix(text, "grant:"@),
        Subject::Connectors => text == "connector"@,
        Subject::Connector => has_prefix(text, "connector:"@),
        Subject::Approval => text == "approval"@,
        Subject::Network => text == "network:configuration"@,
        Subject::Request => has_prefix(text, "request:"@),
        Subject::FlowRequest => has_prefix(text, "flow-request-v4:"@),
        Subject::Evidence => has_prefix(text, "evidence:"@),
        Subject::Reset => has_prefix(text, "reset:"@),
        Subject::Flow => false,
    }
}

proof fn lemma_prefixed(text: Seq<char>, prefix: Seq<char>, rest: Seq<char>)
    requires
        text == prefix + rest,
    ensures
        has_prefix(text, prefix),
{
    assert(text.take(prefix.len() as int) =~= prefix);
}

proof fn lemma_target_reads(id: Seq<char>, kind: Option<Seq<char>>, after: Option<u64>)
    ensures
        kind is None ==> has_prefix(target_resource_text(id, kind, after), "request:"@),
        kind is Some ==> has_prefix(target_resource_text(id, kind, after), "flow-request-v4:"@),
{
    let text = target_resource_text(id, kind, after);
    reveal_strlit("request:");
    reveal_strlit("flow-request-v4:");
    reveal_strlit("flow-request-v4:id-bytes=");
    if kind is None {
        assert(text.take(8) =~= "request:"@);
    } else {
        assert("flow-request-v4:id-bytes="@.take(16) =~= "flow-request-v4:"@);
        assert(text.take(16) =~= "flow-request-v4:id-bytes="@.take(16));
    }
}

/// A request's resource reads as what the request touches: only a flow run has
/// none of its own.
proof fn lemma_resource_reads(request: RequestEnvelope)
    ensures
        resource_text(request) is None <==> subject_of(request.payload) == Subject::Flow,
        resource_text(request) matches Some(text) ==> reads_as(text, subject_of(request.payload)),
{
    if let Some(text) = resource_text(request) {
        match request.payload {
            RequestPayload::Brief => lemma_prefixed(text, "project:"@, request.project_id@),
            RequestPayload::ModelRegister { model } => lemma_prefixed(text, "model:"@, model@),
            RequestPayload::ModelInfer { model } => lemma_prefixed(text, "model:"@, model@),
            RequestPayload::ModelUnregister { model } => lemma_prefixed(text, "model:"@, model@),
            RequestPayload::ModelDeleteWeights { model } => lemma_prefixed(
                text,
                "model:"@,
                model@,
            ),
            RequestPayload::ModelVerify { model } => match model {
                Some(name) => lemma_prefixed(text, "model:"@, name@),
                None => {
                    reveal_strlit("model:");
                    reveal_strlit("model:all");
                    assert(text.take(6) =~= "model:"@);
                },
            },
            RequestPayload::GrantRevoke { capability } => lemma_prefixed(
                text,
                "grant:"@,
                capability@,
            ),
            RequestPayload::ConnectorConfigure { connector, .. } => lemma_prefixed(
                text,
                "connector:"@,
                connector@,
            ),
            RequestPayload::ConnectorTest { connector } => lemma_prefixed(
                text,
                "connector:"@,
                connector@,
            ),
            RequestPayload::Cancel { target_request_id, expected_target_kind } => {
                lemma_target_reads(target_request_id@, kind_label(expected_target_kind), None)
            },
            RequestPayload::GetResult { target_request_id, expected_target_kind } => {
                lemma_target_reads(target_request_id@, kind_label(expected_target_kind), None)
            },
            RequestPayload::Replay { target_request_id, after_sequence, expected_target_kind } => {
                lemma_target_reads(
                    target_request_id@,
                    kind_label(expected_target_kind),
                    Some(after_sequence),
                )
            },
            RequestPayload::WaitForResult {
                target_request_id,
                after_sequence,
                expected_target_kind,
            } => lemma_target_reads(
                target_request_id@,
                kind_label(expected_target_kind),
                Some(after_sequence),
            ),
            RequestPayload::InspectEvidence { handle } => lemma_prefixed(
                text,
                "evidence:"@,
                handle@,
            ),
            RequestPayload::ReadEvidence { handle, offset, length } => {
                reveal_strlit("evidence:");
                assert(text.take(9) =~= "evidence:"@);
            },
            RequestPayload::ResetAccess { .. } | RequestPayload::ResetIdentity { .. }
            | RequestPayload::ResetHistory { .. } | RequestPayload::ResetRegistry { .. } => {
                law_resets_are_told_apart(request, request);
                reveal_strlit("reset:");
                assert(text.take(6) =~= "reset:"@);
            },
            _ => {},
        }
    }
}

/// The length of a text, up to ten, with the characters that tell the subjects
/// apart.
spec fn look(text: Seq<char>) -> (char, char, bool, char, int) {
    (
        text[0],
        text[2],
        text.len() > 7 && text[0] == 'p',
        text[5],
        if text[0] == 'c' && text.len() > 9 {
            1
        } else {
            0
        },
    )
}

spec fn subject_look(subject: Subject) -> (char, char, bool, char, int) {
    match subject {
        Subject::Daemon => ('d', 'e', false, 'n', 0),
        Subject::Project => ('p', 'o', false, 'c', 0),
        Subject::Brief => ('p', 'o', true, 'c', 0),
        Subject::Model => ('m', 'd', false, ':', 0),
        Subject::ModelsDirectory => ('m', 'd', false, 's', 0),
        Subject::Grant => ('g', 'a', false, ':', 0),
        Subject::Connectors => ('c', 'n', false, 'c', 0),
        Subject::Connector => ('c', 'n', false, 'c', 1),
        Subject::Approval => ('a', 'p', false, 'v', 0),
        Subject::Network => ('n', 't', false, 'r', 0),
        Subject::Request => ('r', 'q', false, 's', 0),
        Subject::FlowRequest => ('f', 'o', false, 'r', 0),
        Subject::Evidence => ('e', 'i', false, 'n', 0),
        Subject::Reset => ('r', 's', false, ':', 0),
        Subject::Flow => ('-', '-', false, '-', 0),
    }
}

proof fn lemma_prefix_shows(text: Seq<char>, prefix: Seq<char>, at: int)
    requires
        has_prefix(text, prefix),
        0 <= at < prefix.len(),
    ensures
        text[at] == prefix[at],
{
    assert(text.take(prefix.len() as int)[at] == prefix[at]);
}

proof fn lemma_subjects_look(text: Seq<char>, subject: Subject)
    requires
        reads_as(text, subject),
    ensures
        look(text) == subject_look(subject),
{
    reveal_strlit("daemon");
    reveal_strlit("project");
    reveal_strlit("project:");
    reveal_strlit("model:");
    reveal_strlit("models:directory");
    reveal_strlit("grant:");
    reveal_strlit("connector");
    reveal_strlit("connector:");
    reveal_strlit("approval");
    reveal_strlit("network:configuration");
    reveal_strlit("request:");
    reveal_strlit("flow-request-v4:");
    reveal_strlit("evidence:");
    reveal_strlit("reset:");
    let prefix = match subject {
        Subject::Brief => "project:"@,
        Subject::Model => "model:"@,
        Subject::Grant => "grant:"@,
        Subject::Connector => "connector:"@,
        Subject::Request => "request:"@,
        Subject::FlowRequest => "flow-request-v4:"@,
        Subject::Evidence => "evidence:"@,
        Subject::Reset => "reset:"@,
        _ => text,
    };
    if has_prefix(text, prefix) && prefix.len() > 5 {
        lemma_prefix_shows(text, prefix, 0);
        lemma_prefix_shows(text, prefix, 2);
        lemma_prefix_shows(text, prefix, 5);
    }
}

/// Requests that share a resource touch the same kind of thing: a grant for a
/// model is good for models alone, one for evidence for evidence alone, and so
/// on. Only a flow run has no resource of its own, since it is authorized
/// against the workspace that it was prepared for.
pub proof fn law_resources_tell_what_is_touched(request: RequestEnvelope, other: RequestEnvelope)
    ensures
        resource_text(request) is None <==> request.payload is FlowRun,
        resource_text(request) is Some && resource_text(request) == resource_text(other)
            ==> subject_of(request.payload) == subject_of(other.payload),
{
    lemma_resource_reads(request);
    lemma_resource_reads(other);
    if resource_text(request) is Some && resource_text(request) == resource_text(other) {
        let text = resource_text(request)->0;
        lemma_subjects_look(text, subject_of(request.payload));
        lemma_subjects_look(text, subject_of(other.payload));
    }
}

/// What a resource names exactly, behind the word for its kind.
pub open spec fn named_by(request: RequestEnvelope) -> Option<Seq<char>> {
    match request.payload {
        RequestPayload::ModelRegister { model } => Some(model@),
        RequestPayload::ModelInfer { model } => Some(model@),
        RequestPayload::ModelUnregister { model } => Some(model@),
        RequestPayload::ModelDeleteWeights { model } => Some(model@),
        RequestPayload::ModelVerify { model } => match model {
            Some(name) => Some(name@),
            None => Some("all"@),
        },
        RequestPayload::GrantRevoke { capability } => Some(capability@),
        RequestPayload::ConnectorConfigure { connector, .. } => Some(connector@),
        RequestPayload::ConnectorTest { connector } => Some(connector@),
        RequestPayload::Brief => Some(request.project_id@),
        RequestPayload::InspectEvidence { handle } => Some(handle@),
        _ => None,
    }
}

spec fn word_of(subject: Subject) -> Seq<char> {
    match subject {
        Subject::Model => "model:"@,
        Subject::Grant => "grant:"@,
        Subject::Connector => "connector:"@,
        Subject::Brief => "project:"@,
        _ => "evidence:"@,
    }
}

/// Two requests about a model, a grant, a connector, a project or a piece of
/// evidence share a resource exactly where they name the same one.
pub proof fn law_resources_name_one_thing(request: RequestEnvelope, other: RequestEnvelope)
    requires
        named_by(request) is Some,
        named_by(other) is Some,
    ensures
        resource_text(request) == resource_text(other) <==> subject_of(request.payload)
            == subject_of(other.payload) && named_by(request) == named_by(other),
{
    law_resources_tell_what_is_touched(request, other);
    reveal_strlit("model:");
    reveal_strlit("all");
    reveal_strlit("model:all");
    assert("model:"@ + "all"@ =~= "model:all"@);
    let word = word_of(subject_of(request.payload));
    let other_word = word_of(subject_of(other.payload));
    assert(resource_text(request) == Some(word + named_by(request)->0));
    assert(resource_text(other) == Some(other_word + named_by(other)->0));
    if resource_text(request) == resource_text(other) {
        let text = resource_text(request)->0;
        assert(text.skip(word.len() as int) =~= named_by(request)->0);
        assert(text.skip(word.len() as int) =~= named_by(other)->0);
    }
}

/// Reading one range of a piece of evidence is another resource than reading
/// another range of it.
pub proof fn law_ranges_are_told_apart(
    request: RequestEnvelope,
    handle: String,
    offset: u64,
    length: u64,
    other: RequestEnvelope,
    other_offset: u64,
    other_length: u64,
)
    requires
        request.payload == (RequestPayload::ReadEvidence { handle, offset, length }),
        other.payload == (RequestPayload::ReadEvidence {
            handle,
            offset: other_offset,
            length: other_length,
        }),
        resource_text(request) == resource_text(other),
    ensures
        offset == other_offset,
        length == other_length,
{
    let before = "evidence:"@ + handle@ + ":offset="@;
    let rest = ":length="@ + decimal(length as nat);
    let other_rest = ":length="@ + decimal(other_length as nat);
    let text = resource_text(request)->0;
    reveal_strlit(":length=");
    assert(text =~= before + (decimal(offset as nat) + rest));
    assert(resource_text(other)->0 =~= before + (decimal(other_offset as nat) + other_rest));
    assert(text.skip(before.len() as int) =~= decimal(offset as nat) + rest);
    assert(text.skip(before.len() as int) =~= decimal(other_offset as nat) + other_rest);
    lemma_decimal_digits(offset as nat);
    lemma_decimal_digits(other_offset as nat);
    lemma_digits_end_at_a_colon(
        decimal(offset as nat),
        rest,
        decimal(other_offset as nat),
        other_rest,
    );
    lemma_decimal_is_injective(offset as nat, other_offset as nat);
    assert(rest.skip(8) =~= decimal(length as nat));
    assert(other_rest.skip(8) =~= decimal(other_length as nat));
    lemma_decimal_is_injective(length as nat, other_length as nat);
}

/// A request about another request is authorized against that request, and one
/// that replays or waits also against where it starts from: without a kind the
/// resource is the request's own name, and with one it also says the kind.
pub proof fn law_targets_are_authorized_by_name(
    request: RequestEnvelope,
    id: String,
    kind: Option<ExpectedTargetKind>,
    after: u64,
)
    ensures
        request.payload == (RequestPayload::Cancel {
            target_request_id: id,
            expected_target_kind: kind,
        }) || request.payload == (RequestPayload::GetResult {
            target_request_id: id,
            expected_target_kind: kind,
        }) ==> resource_text(request) == Some(
            match kind {
                None => "request:"@ + id@,
                Some(k) => "flow-request-v4:id-bytes="@ + decimal(utf8_len(id@)) + ":id="@ + id@
                    + ":kind="@ + k.policy_label@,
            },
        ),
        request.payload == (RequestPayload::Replay {
            target_request_id: id,
            after_sequence: after,
            expected_target_kind: kind,
        }) || request.payload == (RequestPayload::WaitForResult {
            target_request_id: id,
            after_sequence: after,
            expected_target_kind: kind,
        }) ==> resource_text(request) == Some(
            match kind {
                None => "request:"@ + id@,
                Some(k) => "flow-request-v4:id-bytes="@ + decimal(utf8_len(id@)) + ":id="@ + id@
                    + ":kind="@ + k.policy_label@,
            } + (":after="@ + decimal(after as nat)),
        ),
{
    let none = Seq::<char>::empty();
    let named = match kind {
        None => "request:"@ + id@,
        Some(k) => "flow-request-v4:id-bytes="@ + decimal(utf8_len(id@)) + ":id="@ + id@ + ":kind="@
            + k.policy_label@,
    };
    assert(named + none =~= named);
}

// What an owner is told to do

/// A shell does nothing with a safe argument: none of the characters that it
/// reads for itself is in one, and none starts like an option.
pub proof fn law_safe_arguments_are_inert(value: Seq<char>, at: int)
    requires
        is_shell_safe(value),
        0 <= at < value.len(),
    ensures
        value[0] != '-',
        !seq![
            ' ', '\t', '\n', '\r', '\'', '"', '`', '$', '\\', ';', '&', '|', '<', '>', '(', ')',
            '{', '}', '[', ']', '*', '?', '~', '#', '!', '%', '^', ',', '@',
        ].contains(value[at]),
        value[at] < '\u{7f}',
{
    assert(is_shell_safe_char(value[at]));
}

/// Letters, digits and the punctuation of resource names are safe.
pub proof fn law_plain_names_are_safe(value: Seq<char>)
    requires
        value.len() > 0,
        value[0] != '-',
        forall|i: int|
            0 <= i < value.len() ==> {
                let c = #[trigger] value[i];
                ||| 'a' <= c <= 'z'
                ||| 'A' <= c <= 'Z'
                ||| '0' <= c <= '9'
                ||| seq!['-', '_', '.', ':', '/', '=', '+'].contains(c)
            },
    ensures
        is_shell_safe(value),
{
    assert forall|i: int| 0 <= i < value.len() implies is_shell_safe_char(#[trigger] value[i]) by {
        let plain = seq!['-', '_', '.', ':', '/', '=', '+'];
        if plain.contains(value[i]) {
            let k = choose|k: int| 0 <= k < plain.len() && plain[k] == value[i];
            assert(k == 0 || k == 1 || k == 2 || k == 3 || k == 4 || k == 5 || k == 6);
        }
    }
}

/// A denial is cleared by a grant of exactly the capability and the resource
/// that were denied. It is written out as a command only where a shell reads
/// both as they are, for the daemon exactly where the request was.
pub proof fn law_denials_name_the_missing_grant(
    capability: Seq<char>,
    daemon_scope: bool,
    resource: Seq<char>,
)
    ensures
        is_shell_safe(capability) && is_shell_safe(resource) && daemon_scope
            ==> grant_recovery_text(capability, daemon_scope, Some(resource))
            == "pam access grant "@ + capability + " --daemon"@ + " --resource "@ + resource,
        is_shell_safe(capability) && is_shell_safe(resource) && !daemon_scope
            ==> grant_recovery_text(capability, daemon_scope, Some(resource))
            == "pam access grant "@ + capability + " --resource "@ + resource,
        !(is_shell_safe(capability) && is_shell_safe(resource)) ==> grant_recovery_text(
            capability,
            daemon_scope,
            Some(resource),
        )
            == "run pam access grant with the denied capability and exact resource, quoted for your shell"@,
        grant_recovery_text(capability, daemon_scope, None)
            == "review the denied capability and resource before adding a grant"@,
{
    reveal_strlit("");
    let plain = "pam access grant "@ + capability;
    assert(plain + ""@ =~= plain);
}

/// Each refusal of policy has a code of its own, and only a request that needs
/// an approval is handed the challenge for it, with the time that it runs out.
pub proof fn law_refusals_have_their_own_codes(
    failure: Failure,
    request: RequestEnvelope,
    refusal: AuthorizationRefusal,
    resource: Option<Seq<char>>,
)
    requires
        reports_refusal(failure, request, refusal, resource),
    ensures
        failure.code == FailureCode::Forbidden <==> refusal is Denied,
        failure.code == FailureCode::ApprovalRequired <==> refusal is ApprovalRequired,
        failure.code == FailureCode::ApprovalDenied <==> refusal is ApprovalDenied,
        failure.code == FailureCode::ApprovalExpired <==> refusal is ApprovalExpired,
        failure.approval is Some <==> refusal is ApprovalRequired,
        failure.recovery is Some <==> refusal is Denied || refusal is ApprovalRequired,
        refusal matches AuthorizationRefusal::ApprovalRequired { approval_id, expires_at_ms }
            ==> failure.approval->0.approval_id == approval_id
            && failure.approval->0.expires_at_unix_ms == expires_at_ms,
{
}

/// An approval is to be repeated where the request was made: at the command
/// line where there is a command for it, and otherwise by the client that made
/// it. What spans several requests, and what no command does, is left to a
/// client.
pub proof fn law_approvals_are_repeated_where_possible(capability: Capability)
    ensures
        retry_surface_of(capability) == RetrySurface::Evidence <==> capability
            == Capability::InspectEvidence || capability == Capability::ReadEvidence,
        retry_surface_of(capability) == RetrySurface::Client <==> {
            ||| capability == Capability::ApprovalDecide
            ||| capability == Capability::DaemonStop
            ||| capability == Capability::DaemonActivity
            ||| capability == Capability::DaemonLogs
            ||| capability == Capability::DaemonStats
            ||| capability == Capability::CallerList
            ||| capability == Capability::ModelStatus
            ||| capability == Capability::ModelRegister
            ||| capability == Capability::GrantRevoke
            ||| capability == Capability::ConnectorList
            ||| capability == Capability::ConnectorConfigure
            ||| capability == Capability::ConnectorTest
            ||| capability == Capability::CancelRequest
            ||| capability == Capability::ReplayEvents
        },
{
}

/// A way to give an approval is written out only for an approval that a shell
/// reads as it is; it names that approval, and for a typed target the command
/// that repeats the very request.
pub proof fn law_approvals_are_written_out_safely(request: RequestEnvelope, approval: Seq<char>)
    ensures
        !is_shell_safe(approval) ==> approval_recovery_text(request, approval)
            == "approve the exact request using a shell-quoted approval ID, then retry without changing its effect"@,
        is_shell_safe(approval) ==> has_prefix(
            approval_recovery_text(request, approval),
            "pam approval approve "@ + approval,
        ),
        flow_retry_text(request.payload, approval) is Some ==> {
            ||| request.payload is Cancel
            ||| request.payload is Replay
            ||| request.payload is WaitForResult
            ||| request.payload is GetResult
        },
        request.payload matches RequestPayload::Cancel { target_request_id, expected_target_kind }
            ==> (flow_retry_text(request.payload, approval) == if expected_target_kind is Some
            && is_shell_safe(target_request_id@) {
            Some("pam flow cancel "@ + target_request_id@ + " --approval-id "@ + approval)
        } else {
            None
        }),
        request.payload matches RequestPayload::GetResult { target_request_id, expected_target_kind }
            ==> (flow_retry_text(request.payload, approval) == if expected_target_kind is Some
            && is_shell_safe(target_request_id@) {
            Some("pam flow result "@ + target_request_id@ + " --approval-id "@ + approval)
        } else {
            None
        }),
{
    let start = "pam approval approve "@ + approval;
    let text = approval_recovery_text(request, approval);
    if is_shell_safe(approval) {
        assert(text.take(start.len() as int) =~= start);
    }
}

/// A record is kept for its time, or for as long as the store can tell.
pub proof fn law_records_are_kept_for_their_time(occurred_at_ms: u64)
    ensures
        occurred_at_ms + AUDIT_RETENTION_MS <= i64::MAX ==> retention_of(occurred_at_ms)
            - occurred_at_ms == AUDIT_RETENTION_MS,
        retention_of(occurred_at_ms) <= i64::MAX,
        occurred_at_ms + AUDIT_RETENTION_MS > i64::MAX ==> retention_of(occurred_at_ms) == i64::MAX,
        AUDIT_RETENTION_MS == 30 * 24 * 60 * 60 * 1000,
        APPROVAL_LIFETIME_MS == 5 * 60 * 1000,
{
}

} // verus!
