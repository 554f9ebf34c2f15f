//! The durable operation record of a flow run.
//!
//! An operation is the header, the length and text of the execution root, the
//! accepted workspace fingerprint, and the normalized flow definition.

use vstd::prelude::*;
use vstd::utf8::{encode_utf8, encode_utf8_valid_utf8, valid_utf8};

use crate::bytes::{
    append_bytes, be_bytes, be_value, bytes_start_with, lemma_be_bytes_round_trip,
    lemma_be_value_round_trip, push_be_u32, read_be_u32, slice_of,
};
use crate::paths::{is_absolute, path_is_absolute};
use crate::text::{
    concat2, concat3, decimal, decimal_text, decode_text, has_prefix, hex, hex_text,
    is_ascii_digit_char, lemma_decimal_digits, lemma_decimal_is_injective,
    lemma_encoding_is_injective, lemma_hex_is_injective, same_text,
};

verus! {

/// The operation kind under which flow requests are stored.
pub const FLOW_OPERATION_KIND: &'static str = "flow_run";

/// What every flow operation record begins with.
pub const FLOW_OPERATION_HEADER: &'static str = "pam-flow-operation-v2\0";

/// Why a flow submission is refused.
#[derive(Clone, Copy, Debug, PartialEq, Eq, Structural)]
pub enum FlowSubmissionError {
    InvalidDefinition,
    UnsupportedDefinition,
    WorkspaceUnavailable,
}

/// The digest that binds a flow to the bytes of its workspace.
#[derive(Clone, Copy, Debug)]
pub struct WorkspaceFingerprint(pub [u8; 32]);

impl View for WorkspaceFingerprint {
    type V = Seq<u8>;

    open spec fn view(&self) -> Seq<u8> {
        self.0@
    }
}

impl WorkspaceFingerprint {
    /// Whether two fingerprints are the same digest.
    pub fn matches(&self, other: &WorkspaceFingerprint) -> (same: bool)
        ensures
            same == (self@ == other@),
    {
        let mut index: usize = 0;
        while index < 32
            invariant
                index <= 32,
                forall|i: int| 0 <= i < index ==> self.0@[i] == other.0@[i],
            decreases 32 - index,
        {
            if self.0[index] != other.0[index] {
                assert(self@[index as int] != other@[index as int]);
                return false;
            }
            index = index + 1;
        }
        assert(self@ =~= other@);
        true
    }

    /// The digest as it is written in policy resources.
    pub fn digest_text(&self) -> (text: String)
        ensures
            text@ == digest_text(self@),
    {
        let hexadecimal = hex_text(self.0.as_slice());
        concat2("sha256:", hexadecimal.as_str())
    }
}

/// A SHA-256 digest as text.
pub open spec fn digest_text(digest: Seq<u8>) -> Seq<char> {
    "sha256:"@ + hex(digest)
}

/// The bytes of the operation header.
pub open spec fn header_bytes() -> Seq<u8> {
    encode_utf8(FLOW_OPERATION_HEADER@)
}

/// The stored record of a flow run.
pub struct FlowOperation {
    pub execution_root: String,
    pub workspace: WorkspaceFingerprint,
    pub normalized_definition: String,
}

/// The operation record for a root, a workspace and a definition.
pub open spec fn operation_bytes(
    root: Seq<char>,
    workspace: Seq<u8>,
    definition: Seq<u8>,
) -> Seq<u8> {
    header_bytes() + be_bytes(encode_utf8(root).len(), 4) + encode_utf8(root) + workspace
        + definition
}

/// Builds the operation record. A root whose length does not fit in four bytes
/// has none.
pub fn encode_flow_operation(
    normalized_definition: &[u8],
    workspace: &WorkspaceFingerprint,
    execution_root: &str,
) -> (operation: Result<Vec<u8>, FlowSubmissionError>)
    ensures
        match operation {
            Ok(bytes) => {
                &&& encode_utf8(execution_root@).len() <= u32::MAX
                &&& bytes@ == operation_bytes(
                    execution_root@,
                    workspace@,
                    normalized_definition@,
                )
            },
            Err(error) => {
                &&& encode_utf8(execution_root@).len() > u32::MAX
                &&& error == FlowSubmissionError::WorkspaceUnavailable
            },
        },
{
    let root = execution_root.as_bytes();
    if root.len() > u32::MAX as usize {
        return Err(FlowSubmissionError::WorkspaceUnavailable);
    }
    let mut operation: Vec<u8> = Vec::new();
    append_bytes(&mut operation, FLOW_OPERATION_HEADER.as_bytes());
    push_be_u32(&mut operation, root.len() as u32);
    append_bytes(&mut operation, root);
    append_bytes(&mut operation, workspace.0.as_slice());
    append_bytes(&mut operation, normalized_definition);
    proof {
        assert(Seq::<u8>::empty() + header_bytes() =~= header_bytes());
    }
    Ok(operation)
}

/// `operation` is the record of an absolute root, a workspace and a definition
/// in UTF-8.
pub open spec fn is_operation_of(
    operation: Seq<u8>,
    root: Seq<char>,
    workspace: Seq<u8>,
    definition: Seq<char>,
) -> bool {
    &&& is_absolute(root)
    &&& workspace.len() == 32
    &&& encode_utf8(root).len() <= u32::MAX
    &&& operation == operation_bytes(root, workspace, encode_utf8(definition))
}

proof fn lemma_operation_layout(root: Seq<char>, workspace: Seq<u8>, definition: Seq<u8>)
    requires
        workspace.len() == 32,
        encode_utf8(root).len() <= u32::MAX,
    ensures
        ({
            let operation = operation_bytes(root, workspace, definition);
            let h = header_bytes().len() as int;
            let r = encode_utf8(root).len() as int;
            &&& operation.len() == h + 4 + r + 32 + definition.len()
            &&& operation.take(h) == header_bytes()
            &&& be_value(operation.subrange(h, h + 4)) == r
            &&& operation.subrange(h + 4, h + 4 + r) == encode_utf8(root)
            &&& operation.subrange(h + 4 + r, h + 4 + r + 32) == workspace
            &&& operation.subrange(h + 4 + r + 32, operation.len() as int) == definition
        }),
{
    let operation = operation_bytes(root, workspace, definition);
    let h = header_bytes().len() as int;
    let r = encode_utf8(root).len();
    lemma_be_bytes_round_trip(r);
    assert(operation.take(h) =~= header_bytes());
    assert(operation.subrange(h, h + 4) =~= be_bytes(r, 4));
    assert(operation.subrange(h + 4, h + 4 + r) =~= encode_utf8(root));
    assert(operation.subrange(h + 4 + r, h + 4 + r + 32) =~= workspace);
    assert(operation.subrange(h + 4 + r + 32, operation.len() as int) =~= definition);
}

/// Reads an operation record back. Anything that is not exactly the record of
/// an absolute root, a fingerprint and a UTF-8 definition is refused.
pub fn decode_flow_operation(operation: &[u8]) -> (decoded: Option<FlowOperation>)
    ensures
        decoded matches Some(record) ==> is_operation_of(
            operation@,
            record.execution_root@,
            record.workspace@,
            record.normalized_definition@,
        ),
        decoded is None ==> forall|root: Seq<char>, workspace: Seq<u8>, definition: Seq<char>|
            !is_operation_of(operation@, root, workspace, definition),
{
    let header = FLOW_OPERATION_HEADER.as_bytes();
    let ghost h = header_bytes().len() as int;
    proof {
        assert forall|root: Seq<char>, workspace: Seq<u8>, definition: Seq<char>|
            is_operation_of(operation@, root, workspace, definition) implies {
            let r = encode_utf8(root).len() as int;
            &&& operation@.len() == h + 4 + r + 32 + encode_utf8(definition).len()
            &&& operation@.take(h) == header_bytes()
            &&& be_value(operation@.subrange(h, h + 4)) == r
            &&& operation@.subrange(h + 4, h + 4 + r) == encode_utf8(root)
            &&& operation@.subrange(h + 4 + r + 32, operation@.len() as int) == encode_utf8(
                definition,
            )
            &&& valid_utf8(encode_utf8(root))
            &&& valid_utf8(encode_utf8(definition))
            &&& is_absolute(root)
        } by {
            lemma_operation_layout(root, workspace, encode_utf8(definition));
            encode_utf8_valid_utf8(root);
            encode_utf8_valid_utf8(definition);
        }
    }
    if !bytes_start_with(operation, header) {
        return None;
    }
    let start: usize = header.len();
    if operation.len() - start < 4 {
        return None;
    }
    let root_length: u32 = read_be_u32(operation, start);
    let root_at: usize = start + 4;
    if operation.len() - root_at < root_length as usize {
        return None;
    }
    let workspace_at: usize = root_at + root_length as usize;
    let root_bytes = slice_of(operation, root_at, workspace_at);
    let execution_root = match decode_text(root_bytes.as_slice()) {
        Some(text) => text.to_owned(),
        None => {
            return None;
        },
    };
    if !path_is_absolute(execution_root.as_str()) {
        proof {
            assert forall|root: Seq<char>, workspace: Seq<u8>, definition: Seq<char>|
                !is_operation_of(operation@, root, workspace, definition) by {
                if is_operation_of(operation@, root, workspace, definition) {
                    lemma_encoding_is_injective(root, execution_root@);
                }
            }
        }
        return None;
    }
    if operation.len() - workspace_at < 32 {
        return None;
    }
    let definition_at: usize = workspace_at + 32;
    let definition_bytes = slice_of(operation, definition_at, operation.len());
    let normalized_definition = match decode_text(definition_bytes.as_slice()) {
        Some(text) => text.to_owned(),
        None => {
            return None;
        },
    };
    let mut digest: [u8; 32] = [0;32];
    let mut index: usize = 0;
    while index < 32
        invariant
            index <= 32,
            workspace_at + 32 == definition_at,
            definition_at <= operation@.len(),
            forall|i: int| 0 <= i < index ==> digest@[i] == operation@[workspace_at + i],
        decreases 32 - index,
    {
        digest[index] = operation[workspace_at + index];
        index = index + 1;
    }
    proof {
        lemma_be_value_round_trip(operation@.subrange(h, h + 4));
        assert(operation@ =~= operation_bytes(
            execution_root@,
            digest@,
            encode_utf8(normalized_definition@),
        )) by {
            let rebuilt = operation_bytes(
                execution_root@,
                digest@,
                encode_utf8(normalized_definition@),
            );
            assert(operation@.take(h) =~= header_bytes());
            assert(rebuilt.len() == operation@.len());
            assert forall|i: int| 0 <= i < rebuilt.len() implies rebuilt[i] == operation@[i] by {
                if i < h {
                    assert(operation@.take(h)[i] == operation@[i]);
                } else if i < h + 4 {
                    assert(operation@.subrange(h, h + 4)[i - h] == operation@[i]);
                } else if i < workspace_at {
                    assert(root_bytes@[i - root_at] == operation@[i]);
                } else if i < definition_at {
                    assert(digest@[i - workspace_at] == operation@[i]);
                } else {
                    assert(definition_bytes@[i - definition_at] == operation@[i]);
                }
            }
        }
    }
    Some(
        FlowOperation {
            execution_root,
            workspace: WorkspaceFingerprint(digest),
            normalized_definition,
        },
    )
}

/// Keeps a decoded operation only when its definition still normalizes to the
/// stored text. `normalized` is the definition parsed and normalized again, if
/// it parses at all.
pub fn accept_decoded_operation(operation: FlowOperation, normalized: Option<&str>) -> (accepted:
    Option<FlowOperation>)
    ensures
        accepted is Some <==> (normalized matches Some(text) && text@
            == operation.normalized_definition@),
        accepted matches Some(record) ==> record == operation,
{
    match normalized {
        Some(text) => {
            if same_text(text, operation.normalized_definition.as_str()) {
                Some(operation)
            } else {
                None
            }
        },
        None => None,
    }
}

/// Reading gives back what was written: at most one root, workspace and
/// definition have a given record.
pub proof fn law_operations_round_trip(
    operation: Seq<u8>,
    root: Seq<char>,
    workspace: Seq<u8>,
    definition: Seq<char>,
    other_root: Seq<char>,
    other_workspace: Seq<u8>,
    other_definition: Seq<char>,
)
    requires
        is_operation_of(operation, root, workspace, definition),
        is_operation_of(operation, other_root, other_workspace, other_definition),
    ensures
        root == other_root,
        workspace == other_workspace,
        definition == other_definition,
{
    lemma_operation_layout(root, workspace, encode_utf8(definition));
    lemma_operation_layout(other_root, other_workspace, encode_utf8(other_definition));
    lemma_encoding_is_injective(root, other_root);
    lemma_encoding_is_injective(definition, other_definition);
}

/// The policy resource that names a flow and the workspace it may run in.
pub open spec fn flow_resource(
    id: Seq<char>,
    revision: nat,
    digest: Seq<char>,
    workspace: Seq<u8>,
) -> Seq<char> {
    "flow:"@ + id + ":revision="@ + decimal(revision) + ":digest="@ + digest + ":workspace="@
        + digest_text(workspace)
}

/// Names a flow by identity, revision and normalized digest, bound to one
/// workspace. The definition's own text is not part of the name.
pub fn flow_policy_resource(
    id: &str,
    revision: u64,
    digest: &str,
    workspace: &WorkspaceFingerprint,
) -> (resource: String)
    ensures
        resource@ == flow_resource(id@, revision as nat, digest@, workspace@),
{
    let number = decimal_text(revision);
    let fingerprint = workspace.digest_text();
    let mut resource = concat3("flow:", id, ":revision=");
    resource.append(number.as_str());
    resource.append(":digest=");
    resource.append(digest);
    resource.append(":workspace=");
    resource.append(fingerprint.as_str());
    resource
}

/// What is authorized for one workspace and definition is authorized for no
/// other: resources that read the same name the same fingerprint and, since
/// digests are written alike, the same definition.
pub proof fn law_flow_resources_bind_the_workspace(
    id: Seq<char>,
    revision: nat,
    digest: Seq<char>,
    workspace: Seq<u8>,
    other_id: Seq<char>,
    other_revision: nat,
    other_digest: Seq<char>,
    other_workspace: Seq<u8>,
)
    requires
        workspace.len() == other_workspace.len(),
        digest.len() == other_digest.len(),
        flow_resource(id, revision, digest, workspace) == flow_resource(
            other_id,
            other_revision,
            other_digest,
            other_workspace,
        ),
    ensures
        workspace == other_workspace,
        digest == other_digest,
{
    let whole = flow_resource(id, revision, digest, workspace);
    let n = whole.len() as int;
    let w = digest_text(workspace).len() as int;
    let d = digest.len() as int;
    let mark = ":workspace="@.len() as int;
    assert(digest_text(workspace) =~= whole.skip(n - w));
    assert(digest_text(other_workspace) =~= whole.skip(n - w));
    assert(hex(workspace) =~= digest_text(workspace).skip("sha256:"@.len() as int));
    assert(hex(other_workspace) =~= digest_text(other_workspace).skip("sha256:"@.len() as int));
    lemma_hex_is_injective(workspace, other_workspace);
    assert(digest =~= whole.subrange(n - w - mark - d, n - w - mark));
    assert(other_digest =~= whole.subrange(n - w - mark - d, n - w - mark));
}

/// A record starts with its own header and says how long its root is, most
/// significant byte first. The root follows, then the 32 bytes of the
/// fingerprint, then the definition, and nothing else.
pub proof fn law_records_are_laid_out(
    operation: Seq<u8>,
    root: Seq<char>,
    workspace: Seq<u8>,
    definition: Seq<char>,
)
    requires
        is_operation_of(operation, root, workspace, definition),
    ensures
        ({
            let header = encode_utf8("pam-flow-operation-v2\0"@);
            let h = header.len() as int;
            let r = encode_utf8(root).len() as int;
            &&& operation.take(h) == header
            &&& be_value(operation.subrange(h, h + 4)) == r
            &&& operation.subrange(h + 4, h + 4 + r) == encode_utf8(root)
            &&& operation.subrange(h + 4 + r, h + 4 + r + 32) == workspace
            &&& operation.skip(h + 4 + r + 32) == encode_utf8(definition)
        }),
        is_absolute(root),
{
    lemma_operation_layout(root, workspace, encode_utf8(definition));
    let h = header_bytes().len() as int;
    let r = encode_utf8(root).len() as int;
    assert(operation.skip(h + 4 + r + 32) =~= operation.subrange(
        h + 4 + r + 32,
        operation.len() as int,
    ));
}

/// For one flow, a resource names one revision.
pub proof fn law_flow_resources_name_the_revision(
    id: Seq<char>,
    revision: nat,
    digest: Seq<char>,
    workspace: Seq<u8>,
    other_revision: nat,
    other_digest: Seq<char>,
    other_workspace: Seq<u8>,
)
    requires
        flow_resource(id, revision, digest, workspace) == flow_resource(
            id,
            other_revision,
            other_digest,
            other_workspace,
        ),
    ensures
        revision == other_revision,
        has_prefix(flow_resource(id, revision, digest, workspace), "flow:"@ + id + ":revision="@),
{
    let start = "flow:"@ + id + ":revision="@;
    let rest = ":digest="@ + digest + ":workspace="@ + digest_text(workspace);
    let other_rest = ":digest="@ + other_digest + ":workspace="@ + digest_text(other_workspace);
    let number = decimal(revision);
    let other_number = decimal(other_revision);
    let whole = flow_resource(id, revision, digest, workspace);
    reveal_strlit(":digest=");
    lemma_decimal_digits(revision);
    lemma_decimal_digits(other_revision);
    assert(whole =~= start + (number + rest));
    assert(flow_resource(id, other_revision, other_digest, other_workspace) =~= start + (
    other_number + other_rest));
    let tail = whole.skip(start.len() as int);
    assert(tail =~= number + rest);
    assert(tail =~= other_number + other_rest);
    assert(tail[number.len() as int] == ':');
    assert(tail[other_number.len() as int] == ':');
    if number.len() < other_number.len() {
        assert(is_ascii_digit_char(other_number[number.len() as int]));
    }
    if other_number.len() < number.len() {
        assert(is_ascii_digit_char(number[other_number.len() as int]));
    }
    assert(number =~= tail.take(number.len() as int));
    assert(other_number =~= tail.take(number.len() as int));
    lemma_decimal_is_injective(revision, other_revision);
    assert(whole.take(start.len() as int) =~= start);
}

} // verus!
