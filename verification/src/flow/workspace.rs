//! The fingerprint of a workspace: every listed file and the repository files
//! that decide what git reports, bound into one digest.

use vstd::prelude::*;
use vstd::utf8::{decode_utf8, encode_utf8, valid_utf8};

use super::git::{config_accepted, validate_git_config};
use super::operation::{FlowSubmissionError, WorkspaceFingerprint};
use crate::bytes::{le_bytes, push_le_u32, push_le_u64};
use crate::digest::{
    absorbed, sha256_digest, sha256_finalize, sha256_new, sha256_update,
};
use crate::ordered::{in_order, lemma_in_order, ordered_texts, orders};
use crate::paths::{
    all_normal, components, is_absolute, is_normal, path_is_absolute, path_is_normal,
};
use crate::split::{split_terminated, split_text_terminated, texts};
use crate::text::{
    decode_text, has_prefix, starts_with, strip_prefix, trim, trimmed,
};

verus! {

/// What every workspace digest begins with.
pub const WORKSPACE_FINGERPRINT_DOMAIN: &'static str = "pam-flow-workspace-v1\0";

/// The most files that a fingerprinted workspace may list.
pub const MAX_WORKSPACE_ENTRIES: usize = 100_000;

/// The most bytes that a fingerprinted workspace may hold.
pub const MAX_WORKSPACE_BYTES: u64 = 67_108_864;

/// The most bytes that the repository head or configuration may hold.
pub const MAX_GIT_CONFIG_BYTES: u64 = 1_048_576;

// Listing

/// The entries of a listing whose names are ended by NUL characters. A listing
/// that is no UTF-8 text has none.
pub fn listed_paths(output: &[u8]) -> (paths: Result<Vec<String>, FlowSubmissionError>)
    ensures
        match paths {
            Ok(names) => valid_utf8(output@) && texts(names@) == split_terminated(
                decode_utf8(output@),
                '\0',
            ),
            Err(error) => !valid_utf8(output@) && error
                == FlowSubmissionError::WorkspaceUnavailable,
        },
{
    match decode_text(output) {
        Some(text) => Ok(split_text_terminated(text, '\0')),
        None => Err(FlowSubmissionError::WorkspaceUnavailable),
    }
}

/// The entry is a path below the workspace root.
pub open spec fn is_workspace_entry(entry: Seq<char>) -> bool {
    entry.len() > 0 && !is_absolute(entry) && all_normal(entry)
}

/// Every entry is a path below the workspace root.
pub open spec fn entries_are_valid(entries: Seq<Seq<char>>) -> bool {
    forall|i: int| 0 <= i < entries.len() ==> is_workspace_entry(#[trigger] entries[i])
}

/// What is listed can be digested: there are not too many entries, and none of
/// them leaves the workspace.
pub open spec fn is_listing(listed: Seq<Seq<char>>) -> bool {
    in_order(listed).len() <= MAX_WORKSPACE_ENTRIES && entries_are_valid(in_order(listed))
}

/// Puts the listed entries in order, each once. Too many entries, or one that
/// leaves the workspace, make the workspace unavailable.
pub fn workspace_entries(listed: &Vec<String>) -> (result: Result<
    Vec<String>,
    FlowSubmissionError,
>)
    ensures
        match result {
            Ok(entries) => {
                &&& is_listing(texts(listed@))
                &&& texts(entries@) == in_order(texts(listed@))
                &&& orders(texts(entries@), texts(listed@))
            },
            Err(error) => {
                &&& error == FlowSubmissionError::WorkspaceUnavailable
                &&& !is_listing(texts(listed@))
            },
        },
{
    let entries = ordered_texts(listed);
    proof {
        lemma_in_order(texts(entries@), texts(listed@));
        assert(texts(entries@).len() == entries@.len());
    }
    if entries.len() > MAX_WORKSPACE_ENTRIES {
        return Err(FlowSubmissionError::WorkspaceUnavailable);
    }
    let mut index: usize = 0;
    while index < entries.len()
        invariant
            index <= entries@.len(),
            forall|i: int|
                0 <= i < index ==> is_workspace_entry(#[trigger] texts(entries@)[i]),
            texts(entries@) == in_order(texts(listed@)),
        decreases entries@.len() - index,
    {
        let entry = entries[index].as_str();
        assert(texts(entries@)[index as int] == entry@);
        if entry.is_empty() || path_is_absolute(entry) || !path_is_normal(entry) {
            return Err(FlowSubmissionError::WorkspaceUnavailable);
        }
        index = index + 1;
    }
    Ok(entries)
}

// Files

/// What the host says about an open file.
#[derive(Clone, Copy, Debug, PartialEq, Eq, Structural)]
pub struct FileFacts {
    pub is_file: bool,
    pub device: u64,
    pub inode: u64,
    pub mode: u32,
    pub length: u64,
    pub modified_seconds: i64,
    pub modified_nanoseconds: i64,
}

/// Whether a file is the same regular file before and after it was read.
pub fn stable_file_metadata(before: &FileFacts, after: &FileFacts) -> (stable: bool)
    ensures
        stable <==> before.is_file && *before == *after,
{
    before.is_file && after.is_file && before.device == after.device && before.inode == after.inode
        && before.mode == after.mode && before.length == after.length && before.modified_seconds
        == after.modified_seconds && before.modified_nanoseconds == after.modified_nanoseconds
}

/// A file that was read from start to end.
pub struct ReadFile {
    pub before: FileFacts,
    pub contents: Vec<u8>,
    pub after: FileFacts,
}

/// What was found under a name.
pub enum FoundFile {
    Missing,
    Present(ReadFile),
}

/// The file did not change while it was read, and was read whole.
pub open spec fn is_settled(file: ReadFile) -> bool {
    file.before.is_file && file.before == file.after && file.contents@.len() == file.before.length
}

pub open spec fn found_is_settled(found: FoundFile) -> bool {
    found matches FoundFile::Present(file) ==> is_settled(file)
}

/// The number of bytes under a name.
pub open spec fn found_bytes(found: FoundFile) -> nat {
    match found {
        FoundFile::Missing => 0,
        FoundFile::Present(file) => file.contents@.len(),
    }
}

/// Adds a count to the running total and refuses a total over the limit.
pub fn add_workspace_bytes(total: &mut u64, count: usize) -> (result: Result<
    (),
    FlowSubmissionError,
>)
    ensures
        *final(total) == (if *old(total) + count > u64::MAX {
            u64::MAX as int
        } else {
            *old(total) + count
        }),
        result == (if *old(total) + count > MAX_WORKSPACE_BYTES {
            Err::<(), FlowSubmissionError>(FlowSubmissionError::WorkspaceUnavailable)
        } else {
            Ok::<(), FlowSubmissionError>(())
        }),
{
    *total = (*total).saturating_add(count as u64);
    if *total > MAX_WORKSPACE_BYTES {
        Err(FlowSubmissionError::WorkspaceUnavailable)
    } else {
        Ok(())
    }
}

// The message

/// Bytes preceded by their number.
pub open spec fn counted(bytes: Seq<u8>) -> Seq<u8> {
    le_bytes(bytes.len(), 8) + bytes
}

/// What stands for a file: its permissions, length and contents, or that it is
/// missing.
pub open spec fn file_message(found: FoundFile) -> Seq<u8> {
    match found {
        FoundFile::Missing => encode_utf8("missing\0"@),
        FoundFile::Present(file) => encode_utf8("file\0"@) + le_bytes(file.before.mode as nat, 4)
            + le_bytes(file.before.length as nat, 8) + file.contents@ + encode_utf8(
            "\0file-end\0"@,
        ),
    }
}

/// The named files in a row.
pub open spec fn files_message(names: Seq<Seq<char>>, files: Seq<FoundFile>) -> Seq<u8>
    decreases names.len(),
{
    if names.len() == 0 {
        seq![]
    } else {
        files_message(names.drop_last(), files.drop_last()) + counted(encode_utf8(names.last()))
            + file_message(files.last())
    }
}

/// All bytes of the named files.
pub open spec fn files_bytes(files: Seq<FoundFile>) -> nat
    decreases files.len(),
{
    if files.len() == 0 {
        0
    } else {
        files_bytes(files.drop_last()) + found_bytes(files.last())
    }
}

/// The repository files that decide what git reports.
pub open spec fn authority_names() -> Seq<Seq<char>> {
    seq![
        "HEAD"@,
        "index"@,
        "config"@,
        "info/exclude"@,
        "info/attributes"@,
        "packed-refs"@,
    ]
}

/// The names of the repository files that decide what git reports, in the
/// order in which they are digested.
pub fn authority_file_names() -> (names: Vec<String>)
    ensures
        texts(names@) == authority_names(),
{
    let mut names: Vec<String> = Vec::new();
    names.push("HEAD".to_owned());
    names.push("index".to_owned());
    names.push("config".to_owned());
    names.push("info/exclude".to_owned());
    names.push("info/attributes".to_owned());
    names.push("packed-refs".to_owned());
    assert(texts(names@) =~= authority_names());
    names
}

/// What the repository head refers to.
pub enum HeadReference {
    /// A commit, directly.
    Detached,
    /// The file of this reference.
    Reference(Seq<char>),
    /// Something that is no reference of this repository.
    Invalid,
}

/// Reads the text of the repository head.
pub open spec fn head_reference_of(head: Seq<char>) -> HeadReference {
    let line = trimmed(head);
    if !has_prefix(line, "ref: "@) {
        HeadReference::Detached
    } else {
        let reference = line.skip("ref: "@.len() as int);
        if has_prefix(reference, "refs/"@) && !is_absolute(reference) && all_normal(reference) {
            HeadReference::Reference(reference)
        } else {
            HeadReference::Invalid
        }
    }
}

/// The reference file that the head names, if it names one.
pub fn head_reference(contents: &[u8]) -> (result: Result<Option<String>, FlowSubmissionError>)
    ensures
        match result {
            Ok(Some(reference)) => valid_utf8(contents@) && head_reference_of(
                decode_utf8(contents@),
            ) == HeadReference::Reference(reference@),
            Ok(None) => valid_utf8(contents@) && head_reference_of(decode_utf8(contents@))
                == HeadReference::Detached,
            Err(error) => {
                &&& error == FlowSubmissionError::WorkspaceUnavailable
                &&& !valid_utf8(contents@) || head_reference_of(decode_utf8(contents@))
                    == HeadReference::Invalid
            },
        },
{
    let head = match decode_text(contents) {
        Some(text) => text,
        None => {
            return Err(FlowSubmissionError::WorkspaceUnavailable);
        },
    };
    let line = trim(head);
    match strip_prefix(line.as_str(), "ref: ") {
        None => Ok(None),
        Some(reference) => {
            if starts_with(reference.as_str(), "refs/") && !path_is_absolute(reference.as_str())
                && path_is_normal(reference.as_str()) {
                Ok(Some(reference))
            } else {
                Err(FlowSubmissionError::WorkspaceUnavailable)
            }
        },
    }
}

/// The repository files as they were found.
pub struct GitAuthority {
    /// One for each authority name, in order.
    pub files: Vec<FoundFile>,
    /// The file of the reference that the head names, if it names one.
    pub reference: FoundFile,
}

/// The head or the configuration is small enough to be read whole.
pub open spec fn fits_config(found: FoundFile) -> bool {
    found matches FoundFile::Present(file) ==> file.before.length <= MAX_GIT_CONFIG_BYTES
}

/// The repository files are consistent, and nothing in them redirects git.
pub open spec fn authority_is_valid(authority: GitAuthority) -> bool {
    let files = authority.files@;
    &&& files.len() == 6
    &&& forall|i: int| 0 <= i < 6 ==> found_is_settled(#[trigger] files[i])
    &&& fits_config(files[0])
    &&& fits_config(files[2])
    &&& files[2] matches FoundFile::Present(config) ==> valid_utf8(config.contents@)
        && config_accepted(decode_utf8(config.contents@))
    &&& files[0] matches FoundFile::Present(head) && valid_utf8(head.contents@)
        && head_reference_of(decode_utf8(head.contents@)) != HeadReference::Invalid && (
    head_reference_of(decode_utf8(head.contents@)) is Reference ==> found_is_settled(
        authority.reference,
    ))
}

/// What stands for the repository.
pub open spec fn authority_message(authority: GitAuthority) -> Seq<u8> {
    let files = encode_utf8("git-authority\0"@) + files_message(
        authority_names(),
        authority.files@,
    );
    match head_reference_of(decode_utf8(authority.files@[0]->Present_0.contents@)) {
        HeadReference::Reference(reference) => files + counted(encode_utf8(reference))
            + file_message(authority.reference),
        _ => files,
    }
}

/// The bytes of the repository files.
pub open spec fn authority_bytes(authority: GitAuthority) -> nat {
    match head_reference_of(decode_utf8(authority.files@[0]->Present_0.contents@)) {
        HeadReference::Reference(_) => files_bytes(authority.files@) + found_bytes(
            authority.reference,
        ),
        _ => files_bytes(authority.files@),
    }
}

/// All files of the workspace did not change while they were read.
pub open spec fn files_are_settled(files: Seq<FoundFile>) -> bool {
    forall|i: int| 0 <= i < files.len() ==> found_is_settled(#[trigger] files[i])
}

/// The message that a workspace fingerprint is the digest of.
pub open spec fn workspace_message(
    root: Seq<char>,
    entries: Seq<Seq<char>>,
    files: Seq<FoundFile>,
    authority: GitAuthority,
) -> Seq<u8> {
    encode_utf8(WORKSPACE_FINGERPRINT_DOMAIN@) + counted(encode_utf8(root)) + le_bytes(
        entries.len(),
        8,
    ) + files_message(entries, files) + authority_message(authority) + le_bytes(
        files_bytes(files) + authority_bytes(authority),
        8,
    )
}

/// The workspace can be fingerprinted.
pub open spec fn workspace_is_available(files: Seq<FoundFile>, authority: GitAuthority) -> bool {
    &&& files_are_settled(files)
    &&& authority_is_valid(authority)
    &&& files_bytes(files) + authority_bytes(authority) <= MAX_WORKSPACE_BYTES
}

// Digesting

struct WorkspaceDigest {
    hasher: sha2::Sha256,
    total: u64,
}

fn absorb_text(hasher: &mut sha2::Sha256, text: &str)
    ensures
        absorbed(*final(hasher)) == absorbed(*old(hasher)) + encode_utf8(text@),
{
    sha256_update(hasher, text.as_bytes());
}

fn absorb_counted(hasher: &mut sha2::Sha256, bytes: &[u8])
    ensures
        absorbed(*final(hasher)) == absorbed(*old(hasher)) + counted(bytes@),
{
    let mut number: Vec<u8> = Vec::new();
    push_le_u64(&mut number, bytes.len() as u64);
    assert(number@ =~= le_bytes(bytes@.len(), 8));
    sha256_update(hasher, number.as_slice());
    sha256_update(hasher, bytes);
    assert(absorbed(*hasher) =~= absorbed(*old(hasher)) + counted(bytes@));
}

fn hash_regular_file(digest: WorkspaceDigest, file: &ReadFile) -> (result: Result<
    WorkspaceDigest,
    FlowSubmissionError,
>)
    ensures
        match result {
            Ok(next) => {
                &&& is_settled(*file)
                &&& digest.total + file.contents@.len() <= MAX_WORKSPACE_BYTES
                &&& next.total == digest.total + file.contents@.len()
                &&& absorbed(next.hasher) == absorbed(digest.hasher) + file_message(
                    FoundFile::Present(*file),
                )
            },
            Err(error) => {
                &&& error == FlowSubmissionError::WorkspaceUnavailable
                &&& !is_settled(*file) || digest.total + file.contents@.len()
                    > MAX_WORKSPACE_BYTES
            },
        },
{
    let mut digest = digest;
    let ghost start = absorbed(digest.hasher);
    if !file.before.is_file {
        return Err(FlowSubmissionError::WorkspaceUnavailable);
    }
    absorb_text(&mut digest.hasher, "file\0");
    let mut head: Vec<u8> = Vec::new();
    push_le_u32(&mut head, file.before.mode);
    push_le_u64(&mut head, file.before.length);
    assert(head@ =~= le_bytes(file.before.mode as nat, 4) + le_bytes(
        file.before.length as nat,
        8,
    ));
    sha256_update(&mut digest.hasher, head.as_slice());
    match add_workspace_bytes(&mut digest.total, file.contents.len()) {
        Ok(()) => {},
        Err(error) => {
            return Err(error);
        },
    }
    sha256_update(&mut digest.hasher, file.contents.as_slice());
    if file.contents.len() as u64 != file.before.length || !stable_file_metadata(
        &file.before,
        &file.after,
    ) {
        return Err(FlowSubmissionError::WorkspaceUnavailable);
    }
    absorb_text(&mut digest.hasher, "\0file-end\0");
    assert(absorbed(digest.hasher) =~= start + file_message(FoundFile::Present(*file)));
    Ok(digest)
}

fn hash_found_file(digest: WorkspaceDigest, name: &str, found: &FoundFile) -> (result: Result<
    WorkspaceDigest,
    FlowSubmissionError,
>)
    ensures
        match result {
            Ok(next) => {
                &&& found_is_settled(*found)
                &&& found_bytes(*found) > 0 ==> digest.total + found_bytes(*found)
                    <= MAX_WORKSPACE_BYTES
                &&& next.total == digest.total + found_bytes(*found)
                &&& absorbed(next.hasher) == absorbed(digest.hasher) + counted(encode_utf8(name@))
                    + file_message(*found)
            },
            Err(error) => {
                &&& error == FlowSubmissionError::WorkspaceUnavailable
                &&& !found_is_settled(*found) || digest.total + found_bytes(*found)
                    > MAX_WORKSPACE_BYTES
            },
        },
{
    let mut digest = digest;
    absorb_counted(&mut digest.hasher, name.as_bytes());
    match found {
        FoundFile::Missing => {
            absorb_text(&mut digest.hasher, "missing\0");
            Ok(digest)
        },
        FoundFile::Present(file) => hash_regular_file(digest, file),
    }
}

proof fn lemma_files_bytes_grow(files: Seq<FoundFile>, count: int)
    requires
        0 <= count <= files.len(),
    ensures
        files_bytes(files.take(count)) <= files_bytes(files),
    decreases files.len(),
{
    if count < files.len() {
        lemma_files_bytes_grow(files.drop_last(), count);
        assert(files.drop_last().take(count) =~= files.take(count));
    } else {
        assert(files.take(count) =~= files);
    }
}

fn hash_files(given: WorkspaceDigest, names: &Vec<String>, files: &Vec<FoundFile>) -> (result:
    Result<WorkspaceDigest, FlowSubmissionError>)
    requires
        names@.len() == files@.len(),
        given.total <= MAX_WORKSPACE_BYTES,
    ensures
        match result {
            Ok(next) => {
                &&& files_are_settled(files@)
                &&& next.total == given.total + files_bytes(files@)
                &&& next.total <= MAX_WORKSPACE_BYTES
                &&& absorbed(next.hasher) == absorbed(given.hasher) + files_message(
                    texts(names@),
                    files@,
                )
            },
            Err(error) => {
                &&& error == FlowSubmissionError::WorkspaceUnavailable
                &&& !files_are_settled(files@) || given.total + files_bytes(files@)
                    > MAX_WORKSPACE_BYTES
            },
        },
{
    let ghost start = absorbed(given.hasher);
    let ghost all = texts(names@);
    let mut digest = given;
    let mut index: usize = 0;
    assert(start + files_message(all.take(0), files@.take(0)) =~= start);
    while index < names.len()
        invariant
            names@.len() == files@.len(),
            all == texts(names@),
            index <= names@.len(),
            digest.total <= MAX_WORKSPACE_BYTES,
            digest.total == given.total + files_bytes(files@.take(index as int)),
            absorbed(digest.hasher) == start + files_message(
                all.take(index as int),
                files@.take(index as int),
            ),
            forall|i: int| 0 <= i < index ==> found_is_settled(#[trigger] files@[i]),
        decreases names@.len() - index,
    {
        proof {
            let next_names = all.take(index + 1);
            let next_files = files@.take(index + 1);
            assert(next_names.drop_last() =~= all.take(index as int));
            assert(next_files.drop_last() =~= files@.take(index as int));
            assert(next_names.last() == names@[index as int]@);
            assert(next_files.last() == files@[index as int]);
            lemma_files_bytes_grow(files@, index + 1);
            assert(files_bytes(next_files) == files_bytes(files@.take(index as int)) + found_bytes(
                files@[index as int],
            ));
        }
        match hash_found_file(digest, names[index].as_str(), &files[index]) {
            Ok(next) => {
                digest = next;
            },
            Err(error) => {
                assert(found_is_settled(files@[index as int]) || !files_are_settled(files@));
                return Err(error);
            },
        }
        assert(absorbed(digest.hasher) =~= start + files_message(
            all.take(index + 1),
            files@.take(index + 1),
        ));
        index = index + 1;
    }
    assert(all.take(all.len() as int) =~= all);
    assert(files@.take(files@.len() as int) =~= files@);
    Ok(digest)
}

fn found_length_fits(found: &FoundFile) -> (fits: bool)
    ensures
        fits == fits_config(*found),
{
    match found {
        FoundFile::Missing => true,
        FoundFile::Present(file) => file.before.length <= MAX_GIT_CONFIG_BYTES,
    }
}

fn hash_git_authority(digest: WorkspaceDigest, authority: &GitAuthority) -> (result: Result<
    WorkspaceDigest,
    FlowSubmissionError,
>)
    requires
        digest.total <= MAX_WORKSPACE_BYTES,
    ensures
        match result {
            Ok(next) => {
                &&& authority_is_valid(*authority)
                &&& next.total == digest.total + authority_bytes(*authority)
                &&& next.total <= MAX_WORKSPACE_BYTES
                &&& absorbed(next.hasher) == absorbed(digest.hasher) + authority_message(
                    *authority,
                )
            },
            Err(error) => {
                &&& error == FlowSubmissionError::WorkspaceUnavailable
                &&& !authority_is_valid(*authority) || digest.total + authority_bytes(*authority)
                    > MAX_WORKSPACE_BYTES
            },
        },
{
    if authority.files.len() != 6 {
        return Err(FlowSubmissionError::WorkspaceUnavailable);
    }
    let ghost start = absorbed(digest.hasher);
    let mut digest = digest;
    absorb_text(&mut digest.hasher, "git-authority\0");
    if !found_length_fits(&authority.files[0]) || !found_length_fits(&authority.files[2]) {
        return Err(FlowSubmissionError::WorkspaceUnavailable);
    }
    let names = authority_file_names();
    assert(texts(names@).len() == names@.len());
    let digest = match hash_files(digest, &names, &authority.files) {
        Ok(next) => next,
        Err(error) => {
            proof {
                if files_are_settled(authority.files@) {
                    assert(digest.total + files_bytes(authority.files@) > MAX_WORKSPACE_BYTES);
                } else {
                    assert(!authority_is_valid(*authority));
                }
            }
            return Err(error);
        },
    };
    match &authority.files[2] {
        FoundFile::Present(config) => {
            match validate_git_config(config.contents.as_slice()) {
                Ok(()) => {},
                Err(error) => {
                    return Err(error);
                },
            }
        },
        FoundFile::Missing => {},
    }
    let reference = match &authority.files[0] {
        FoundFile::Present(head) => match head_reference(head.contents.as_slice()) {
            Ok(reference) => reference,
            Err(error) => {
                return Err(error);
            },
        },
        FoundFile::Missing => {
            return Err(FlowSubmissionError::WorkspaceUnavailable);
        },
    };
    match reference {
        Some(name) => {
            match hash_found_file(digest, name.as_str(), &authority.reference) {
                Ok(next) => {
                    assert(absorbed(next.hasher) =~= start + authority_message(*authority));
                    Ok(next)
                },
                Err(error) => Err(error),
            }
        },
        None => {
            assert(absorbed(digest.hasher) =~= start + authority_message(*authority));
            Ok(digest)
        },
    }
}

/// Digests the ordered entries, the files found under them, and the repository
/// files. Anything that changed while it was read, redirects git, or is too
/// large makes the workspace unavailable.
pub fn hash_workspace_entries(
    root: &str,
    entries: &Vec<String>,
    files: &Vec<FoundFile>,
    authority: &GitAuthority,
) -> (result: Result<WorkspaceFingerprint, FlowSubmissionError>)
    requires
        entries@.len() == files@.len(),
    ensures
        match result {
            Ok(fingerprint) => {
                &&& workspace_is_available(files@, *authority)
                &&& fingerprint@ == sha256_digest(
                    workspace_message(root@, texts(entries@), files@, *authority),
                )
            },
            Err(error) => {
                &&& !workspace_is_available(files@, *authority)
                &&& error == FlowSubmissionError::WorkspaceUnavailable
            },
        },
{
    let mut hasher = sha256_new();
    absorb_text(&mut hasher, WORKSPACE_FINGERPRINT_DOMAIN);
    absorb_counted(&mut hasher, root.as_bytes());
    let mut number: Vec<u8> = Vec::new();
    push_le_u64(&mut number, entries.len() as u64);
    assert(number@ =~= le_bytes(entries@.len(), 8));
    sha256_update(&mut hasher, number.as_slice());
    let digest = match hash_files(WorkspaceDigest { hasher, total: 0 }, entries, files) {
        Ok(next) => next,
        Err(error) => {
            return Err(error);
        },
    };
    let digest = match hash_git_authority(digest, authority) {
        Ok(next) => next,
        Err(error) => {
            return Err(error);
        },
    };
    let total = digest.total;
    let mut hasher = digest.hasher;
    let mut last: Vec<u8> = Vec::new();
    push_le_u64(&mut last, total);
    assert(last@ =~= le_bytes(total as nat, 8));
    sha256_update(&mut hasher, last.as_slice());
    assert(texts(entries@).len() == entries@.len());
    assert(absorbed(hasher) =~= workspace_message(root@, texts(entries@), files@, *authority));
    Ok(WorkspaceFingerprint(sha256_finalize(hasher)))
}

/// Digests what is listed: each entry once and in order, whatever the order of
/// the listing, with the files that were found under the ordered entries.
pub fn fingerprint_listing(
    root: &str,
    listed: &Vec<String>,
    files: &Vec<FoundFile>,
    authority: &GitAuthority,
) -> (result: Result<WorkspaceFingerprint, FlowSubmissionError>)
    ensures
        match result {
            Ok(fingerprint) => {
                &&& is_listing(texts(listed@))
                &&& in_order(texts(listed@)).len() == files@.len()
                &&& workspace_is_available(files@, *authority)
                &&& fingerprint@ == sha256_digest(
                    workspace_message(root@, in_order(texts(listed@)), files@, *authority),
                )
            },
            Err(error) => {
                &&& error == FlowSubmissionError::WorkspaceUnavailable
                &&& {
                    ||| !is_listing(texts(listed@))
                    ||| in_order(texts(listed@)).len() != files@.len()
                    ||| !workspace_is_available(files@, *authority)
                }
            },
        },
{
    let entries = match workspace_entries(listed) {
        Ok(entries) => entries,
        Err(error) => return Err(error),
    };
    assert(texts(entries@).len() == entries@.len());
    if entries.len() != files.len() {
        return Err(FlowSubmissionError::WorkspaceUnavailable);
    }
    hash_workspace_entries(root, &entries, files, authority)
}

/// What is listed stays in the workspace: an entry is named from its root, and no
/// part of its name climbs out of it.
pub proof fn law_entries_stay_in_the_workspace(entry: Seq<char>, i: int)
    requires
        is_workspace_entry(entry),
    ensures
        entry.len() > 0,
        entry[0] != '/',
        0 <= i < components(entry).len() ==> components(entry)[i] != ".."@ && components(entry)[i]
            != "."@ && components(entry)[i] != "/"@,
{
    if 0 <= i < components(entry).len() {
        assert(is_normal(components(entry)[i]));
    }
}

/// A listing is digested exactly where it names at most a hundred thousand
/// different entries and every one of them stays in the workspace.
pub proof fn law_listings_are_bounded(listed: Seq<Seq<char>>, entry: Seq<char>)
    ensures
        is_listing(listed) <==> in_order(listed).len() <= 100_000 && forall|i: int|
            0 <= i < in_order(listed).len() ==> is_workspace_entry(#[trigger] in_order(listed)[i]),
        is_listing(listed) && in_order(listed).contains(entry) ==> is_workspace_entry(entry),
{
}

/// A head names a reference of its own repository, or a commit, or is refused: one
/// that names anything outside `refs/`, or climbs, is no reference.
pub proof fn law_heads_name_their_own_references(head: Seq<char>)
    ensures
        match head_reference_of(head) {
            HeadReference::Detached => !has_prefix(trimmed(head), "ref: "@),
            HeadReference::Reference(reference) => {
                &&& trimmed(head) == "ref: "@ + reference
                &&& has_prefix(reference, "refs/"@)
                &&& is_workspace_entry(reference)
            },
            HeadReference::Invalid => {
                &&& has_prefix(trimmed(head), "ref: "@)
                &&& !has_prefix(trimmed(head).skip(5), "refs/"@) || !is_workspace_entry(
                    trimmed(head).skip(5),
                )
            },
        },
{
    reveal_strlit("ref: ");
    reveal_strlit("refs/");
    let line = trimmed(head);
    assert("ref: "@.len() == 5);
    assert("refs/"@.len() == 5);
    if has_prefix(line, "ref: "@) {
        assert(line =~= "ref: "@ + line.skip(5));
    }
}

/// A repository counts only as it was read: six files that held still, a head that
/// is there and names nothing foreign, and a configuration, if there is one,
/// that redirects nothing; neither of the two is larger than a mebibyte.
pub proof fn law_repositories_count_as_read(authority: GitAuthority, i: int)
    requires
        authority_is_valid(authority),
    ensures
        authority.files@.len() == 6,
        0 <= i < 6 ==> (authority.files@[i] matches FoundFile::Present(file) ==> file.before
            == file.after && file.before.is_file && file.contents@.len() == file.before.length),
        authority.files@[0] is Present,
        authority.files@[0]->Present_0.contents@.len() <= 1_048_576,
        head_reference_of(decode_utf8(authority.files@[0]->Present_0.contents@))
            != HeadReference::Invalid,
        authority.files@[2] matches FoundFile::Present(config) ==> config.contents@.len()
            <= 1_048_576 && config_accepted(decode_utf8(config.contents@)),
        head_reference_of(decode_utf8(authority.files@[0]->Present_0.contents@)) is Reference ==> (
        authority.reference matches FoundFile::Present(file) ==> file.before == file.after
            && file.contents@.len() == file.before.length),
{
    assert(found_is_settled(authority.files@[0]));
    assert(found_is_settled(authority.files@[2]));
    if 0 <= i < 6 {
        assert(found_is_settled(authority.files@[i]));
    }
}

/// A workspace is fingerprinted exactly where all of its files held still, its
/// repository counts and both together hold at most sixty-four mebibytes.
pub proof fn law_workspaces_are_bounded(files: Seq<FoundFile>, authority: GitAuthority, i: int)
    ensures
        workspace_is_available(files, authority) <==> files_are_settled(files)
            && authority_is_valid(authority) && files_bytes(files) + authority_bytes(authority)
            <= 64 * 1024 * 1024,
        workspace_is_available(files, authority) && 0 <= i < files.len() ==> (
        files[i] matches FoundFile::Present(file) ==> file.before == file.after
            && file.before.is_file && file.contents@.len() == file.before.length),
{
    if workspace_is_available(files, authority) && 0 <= i < files.len() {
        assert(found_is_settled(files[i]));
    }
}

/// Every byte of every file counts.
pub proof fn law_every_byte_counts(files: Seq<FoundFile>, i: int)
    requires
        0 <= i < files.len(),
    ensures
        files[i] matches FoundFile::Present(file) ==> file.contents@.len() <= files_bytes(files),
        files_bytes(files) == files_bytes(files.drop_last()) + found_bytes(files.last()),
    decreases files.len(),
{
    if i < files.len() - 1 {
        law_every_byte_counts(files.drop_last(), i);
        assert(files.drop_last()[i] == files[i]);
    }
}

/// What stands for a repository is taken from these six files, in this order.
pub proof fn law_six_files_decide()
    ensures
        authority_names().len() == 6,
        authority_names()[0] == "HEAD"@,
        authority_names()[1] == "index"@,
        authority_names()[2] == "config"@,
        authority_names()[3] == "info/exclude"@,
        authority_names()[4] == "info/attributes"@,
        authority_names()[5] == "packed-refs"@,
{
}

} // verus!
