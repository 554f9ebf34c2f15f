//! What a workspace fingerprint is bound to: the message that it digests tells
//! any two workspaces apart.

use vstd::arithmetic::power::pow;
use vstd::prelude::*;
use vstd::utf8::{decode_utf8, encode_utf8, is_ascii_chars, is_ascii_chars_encode_utf8};

use super::workspace::{
    authority_bytes, authority_is_valid, authority_message, authority_names, counted, file_message,
    files_are_settled, files_bytes, files_message, found_is_settled, head_reference_of, workspace_is_available, workspace_message,
    FoundFile, GitAuthority, HeadReference, WORKSPACE_FINGERPRINT_DOMAIN,
};
use crate::bytes::{le_bytes, lemma_le_bytes_injective, lemma_le_bytes_len};
use crate::text::lemma_encoding_is_injective;

verus! {

/// The two findings are alike in all that a fingerprint covers.
pub open spec fn same_found(found: FoundFile, other: FoundFile) -> bool {
    match (found, other) {
        (FoundFile::Missing, FoundFile::Missing) => true,
        (FoundFile::Present(file), FoundFile::Present(other_file)) => {
            &&& file.before.mode == other_file.before.mode
            &&& file.before.length == other_file.before.length
            &&& file.contents@ == other_file.contents@
        },
        _ => false,
    }
}

/// The text is short enough for its length to be written down.
pub open spec fn fits_length(text: Seq<char>) -> bool {
    encode_utf8(text).len() <= u64::MAX
}

proof fn lemma_room()
    ensures
        pow(256, 8) == 0x1_0000_0000_0000_0000,
        pow(256, 4) == 0x1_0000_0000,
{
    reveal_with_fuel(pow, 9);
}

/// Parts of one length that begin the same bytes are the same.
proof fn lemma_parts_end(part: Seq<u8>, rest: Seq<u8>, other: Seq<u8>, other_rest: Seq<u8>)
    requires
        part + rest == other + other_rest,
        part.len() == other.len(),
    ensures
        part == other,
        rest == other_rest,
{
    let whole = part + rest;
    assert(part =~= whole.take(part.len() as int));
    assert(other =~= (other + other_rest).take(part.len() as int));
    assert(rest =~= whole.skip(part.len() as int));
    assert(other_rest =~= (other + other_rest).skip(part.len() as int));
}

/// Counted bytes end where their count says.
proof fn lemma_counted_ends(bytes: Seq<u8>, rest: Seq<u8>, other: Seq<u8>, other_rest: Seq<u8>)
    requires
        counted(bytes) + rest == counted(other) + other_rest,
        bytes.len() <= u64::MAX,
        other.len() <= u64::MAX,
    ensures
        bytes == other,
        rest == other_rest,
{
    let whole = counted(bytes) + rest;
    lemma_room();
    lemma_le_bytes_len(bytes.len(), 8);
    lemma_le_bytes_len(other.len(), 8);
    assert(le_bytes(bytes.len(), 8) =~= whole.take(8));
    assert(le_bytes(other.len(), 8) =~= whole.take(8));
    lemma_le_bytes_injective(bytes.len(), other.len(), 8);
    let n = bytes.len() as int;
    assert(bytes =~= whole.subrange(8, 8 + n));
    assert(other =~= whole.subrange(8, 8 + n));
    assert(rest =~= whole.skip(8 + n));
    assert(other_rest =~= whole.skip(8 + n));
}

proof fn lemma_markers_differ()
    ensures
        encode_utf8("missing\0"@).len() > 0,
        encode_utf8("file\0"@).len() > 0,
        encode_utf8("missing\0"@)[0] != encode_utf8("file\0"@)[0],
{
    reveal_strlit("missing\0");
    reveal_strlit("file\0");
    assert(is_ascii_chars("missing\0"@));
    assert(is_ascii_chars("file\0"@));
    is_ascii_chars_encode_utf8("missing\0"@);
    is_ascii_chars_encode_utf8("file\0"@);
}

/// What stands for a file ends where its length says.
proof fn lemma_file_message_ends(
    found: FoundFile,
    rest: Seq<u8>,
    other: FoundFile,
    other_rest: Seq<u8>,
)
    requires
        file_message(found) + rest == file_message(other) + other_rest,
        found_is_settled(found),
        found_is_settled(other),
    ensures
        same_found(found, other),
        rest == other_rest,
{
    let whole = file_message(found) + rest;
    let missing = encode_utf8("missing\0"@);
    let marker = encode_utf8("file\0"@);
    lemma_markers_differ();
    match (found, other) {
        (FoundFile::Missing, FoundFile::Missing) => {
            assert(rest =~= whole.skip(missing.len() as int));
            assert(other_rest =~= whole.skip(missing.len() as int));
        },
        (FoundFile::Present(file), FoundFile::Present(other_file)) => {
            let end = encode_utf8("\0file-end\0"@);
            let m = marker.len() as int;
            lemma_room();
            lemma_le_bytes_len(file.before.mode as nat, 4);
            lemma_le_bytes_len(other_file.before.mode as nat, 4);
            lemma_le_bytes_len(file.before.length as nat, 8);
            lemma_le_bytes_len(other_file.before.length as nat, 8);
            assert(le_bytes(file.before.mode as nat, 4) =~= whole.subrange(m, m + 4));
            assert(le_bytes(other_file.before.mode as nat, 4) =~= whole.subrange(m, m + 4));
            lemma_le_bytes_injective(
                file.before.mode as nat,
                other_file.before.mode as nat,
                4,
            );
            assert(le_bytes(file.before.length as nat, 8) =~= whole.subrange(m + 4, m + 12));
            assert(le_bytes(other_file.before.length as nat, 8) =~= whole.subrange(m + 4, m + 12));
            lemma_le_bytes_injective(
                file.before.length as nat,
                other_file.before.length as nat,
                8,
            );
            let n = file.contents@.len() as int;
            assert(file.contents@ =~= whole.subrange(m + 12, m + 12 + n));
            assert(other_file.contents@ =~= whole.subrange(m + 12, m + 12 + n));
            assert(rest =~= whole.skip(m + 12 + n + end.len()));
            assert(other_rest =~= whole.skip(m + 12 + n + end.len()));
        },
        (FoundFile::Missing, FoundFile::Present(_)) => {
            assert(whole[0] == missing[0]);
            assert((file_message(other) + other_rest)[0] == marker[0]);
        },
        (FoundFile::Present(_), FoundFile::Missing) => {
            assert(whole[0] == marker[0]);
            assert((file_message(other) + other_rest)[0] == missing[0]);
        },
    }
}

/// What stands for a file under its name.
pub open spec fn record(name: Seq<char>, found: FoundFile) -> Seq<u8> {
    counted(encode_utf8(name)) + file_message(found)
}

/// Files in a row begin with the first.
proof fn lemma_files_message_begins(names: Seq<Seq<char>>, files: Seq<FoundFile>)
    requires
        names.len() == files.len(),
        names.len() > 0,
    ensures
        files_message(names, files) == record(names[0], files[0]) + files_message(
            names.skip(1),
            files.skip(1),
        ),
    decreases names.len(),
{
    let last = record(names.last(), files.last());
    assert(files_message(names, files) =~= files_message(names.drop_last(), files.drop_last())
        + last);
    if names.len() == 1 {
        assert(files_message(names.drop_last(), files.drop_last()) =~= seq![]);
        assert(files_message(names.skip(1), files.skip(1)) =~= seq![]);
        assert(files_message(names, files) =~= record(names[0], files[0]));
    } else {
        lemma_files_message_begins(names.drop_last(), files.drop_last());
        assert(names.drop_last().skip(1) =~= names.skip(1).drop_last());
        assert(files.drop_last().skip(1) =~= files.skip(1).drop_last());
        assert(names.skip(1).last() == names.last());
        assert(files.skip(1).last() == files.last());
        assert(files_message(names.skip(1), files.skip(1)) =~= files_message(
            names.skip(1).drop_last(),
            files.skip(1).drop_last(),
        ) + last);
    }
}

/// Rows of files that read the same begin with the same file.
proof fn lemma_first_file_ends(
    names: Seq<Seq<char>>,
    files: Seq<FoundFile>,
    rest: Seq<u8>,
    other_names: Seq<Seq<char>>,
    other_files: Seq<FoundFile>,
    other_rest: Seq<u8>,
)
    requires
        names.len() == files.len(),
        other_names.len() == other_files.len(),
        names.len() > 0,
        other_names.len() > 0,
        fits_length(names[0]),
        fits_length(other_names[0]),
        found_is_settled(files[0]),
        found_is_settled(other_files[0]),
        files_message(names, files) + rest == files_message(other_names, other_files) + other_rest,
    ensures
        names[0] == other_names[0],
        same_found(files[0], other_files[0]),
        files_message(names.skip(1), files.skip(1)) + rest == files_message(
            other_names.skip(1),
            other_files.skip(1),
        ) + other_rest,
{
    let name = encode_utf8(names[0]);
    let other_name = encode_utf8(other_names[0]);
    let tail = files_message(names.skip(1), files.skip(1)) + rest;
    let other_tail = files_message(other_names.skip(1), other_files.skip(1)) + other_rest;
    let first = file_message(files[0]);
    let other_first = file_message(other_files[0]);
    lemma_files_message_begins(names, files);
    lemma_files_message_begins(other_names, other_files);
    lemma_regrouped(counted(name), first, files_message(names.skip(1), files.skip(1)), rest);
    lemma_regrouped(
        counted(other_name),
        other_first,
        files_message(other_names.skip(1), other_files.skip(1)),
        other_rest,
    );
    lemma_counted_ends(name, first + tail, other_name, other_first + other_tail);
    lemma_encoding_is_injective(names[0], other_names[0]);
    lemma_file_message_ends(files[0], tail, other_files[0], other_tail);
}

proof fn lemma_regrouped(a: Seq<u8>, b: Seq<u8>, c: Seq<u8>, d: Seq<u8>)
    ensures
        a + b + c + d == a + (b + (c + d)),
{
    assert(a + b + c + d =~= a + (b + (c + d)));
}

/// Every name is short enough for its length to be written down.
pub open spec fn fit_lengths(names: Seq<Seq<char>>) -> bool {
    forall|i: int| 0 <= i < names.len() ==> fits_length(#[trigger] names[i])
}

/// The findings are alike, one by one, in all that a fingerprint covers.
pub open spec fn same_findings(files: Seq<FoundFile>, other: Seq<FoundFile>) -> bool {
    &&& files.len() == other.len()
    &&& forall|i: int| 0 <= i < files.len() ==> same_found(#[trigger] files[i], other[i])
}

/// Rows of files that read the same are the same files.
proof fn lemma_files_message_ends(
    names: Seq<Seq<char>>,
    files: Seq<FoundFile>,
    rest: Seq<u8>,
    other_names: Seq<Seq<char>>,
    other_files: Seq<FoundFile>,
    other_rest: Seq<u8>,
)
    requires
        names.len() == files.len(),
        other_names.len() == other_files.len(),
        names.len() == other_names.len(),
        fit_lengths(names),
        fit_lengths(other_names),
        files_are_settled(files),
        files_are_settled(other_files),
        files_message(names, files) + rest == files_message(other_names, other_files) + other_rest,
    ensures
        names == other_names,
        same_findings(files, other_files),
        rest == other_rest,
    decreases names.len(),
{
    if names.len() == 0 {
        assert(files_message(names, files) + rest =~= rest);
        assert(files_message(other_names, other_files) + other_rest =~= other_rest);
        assert(names =~= other_names);
    } else {
        assert(fits_length(names[0]) && fits_length(other_names[0]));
        assert(found_is_settled(files[0]) && found_is_settled(other_files[0]));
        lemma_first_file_ends(names, files, rest, other_names, other_files, other_rest);
        lemma_rest_is_fit(names, files);
        lemma_rest_is_fit(other_names, other_files);
        lemma_files_message_ends(
            names.skip(1),
            files.skip(1),
            rest,
            other_names.skip(1),
            other_files.skip(1),
            other_rest,
        );
        assert forall|i: int| 0 <= i < names.len() implies names[i] == other_names[i] by {
            if i > 0 {
                assert(names.skip(1)[i - 1] == other_names.skip(1)[i - 1]);
            }
        }
        assert(names =~= other_names);
        assert forall|i: int| 0 <= i < files.len() implies same_found(
            #[trigger] files[i],
            other_files[i],
        ) by {
            if i > 0 {
                assert(same_found(files.skip(1)[i - 1], other_files.skip(1)[i - 1]));
            }
        }
    }
}

proof fn lemma_rest_is_fit(names: Seq<Seq<char>>, files: Seq<FoundFile>)
    requires
        names.len() > 0,
        files.len() > 0,
        fit_lengths(names),
        files_are_settled(files),
    ensures
        fit_lengths(names.skip(1)),
        files_are_settled(files.skip(1)),
{
    assert forall|i: int| 0 <= i < names.skip(1).len() implies fits_length(
        #[trigger] names.skip(1)[i],
    ) by {
        assert(fits_length(names[i + 1]));
    }
    assert forall|i: int| 0 <= i < files.skip(1).len() implies found_is_settled(
        #[trigger] files.skip(1)[i],
    ) by {
        assert(found_is_settled(files[i + 1]));
    }
}

proof fn lemma_authority_names_fit()
    ensures
        authority_names().len() == 6,
        fit_lengths(authority_names()),
{
    reveal_strlit("HEAD");
    reveal_strlit("index");
    reveal_strlit("config");
    reveal_strlit("info/exclude");
    reveal_strlit("info/attributes");
    reveal_strlit("packed-refs");
    assert forall|i: int| 0 <= i < 6 implies fits_length(#[trigger] authority_names()[i]) by {
        let name = authority_names()[i];
        assert(is_ascii_chars(name));
        is_ascii_chars_encode_utf8(name);
    }
}

/// The repositories are alike in all that a fingerprint covers.
pub open spec fn same_authority(authority: GitAuthority, other: GitAuthority) -> bool {
    &&& same_findings(authority.files@, other.files@)
    &&& head_of(authority) is Reference ==> same_found(authority.reference, other.reference)
}

/// What the head of the repository refers to.
pub open spec fn head_of(authority: GitAuthority) -> HeadReference {
    head_reference_of(
        decode_utf8(authority.files@[0]->Present_0.contents@),
    )
}

proof fn lemma_authority_message_ends(
    authority: GitAuthority,
    rest: Seq<u8>,
    other: GitAuthority,
    other_rest: Seq<u8>,
)
    requires
        authority_is_valid(authority),
        authority_is_valid(other),
        head_of(authority) matches HeadReference::Reference(name) ==> fits_length(name),
        authority_message(authority) + rest == authority_message(other) + other_rest,
    ensures
        same_authority(authority, other),
        rest == other_rest,
{
    let mark = encode_utf8("git-authority\0"@);
    let names = authority_names();
    let files = authority.files@;
    let other_files = other.files@;
    let whole = authority_message(authority) + rest;
    lemma_authority_names_fit();
    let after = match head_of(authority) {
        HeadReference::Reference(name) => record(name, authority.reference) + rest,
        _ => rest,
    };
    let other_after = match head_of(other) {
        HeadReference::Reference(name) => record(name, other.reference) + other_rest,
        _ => other_rest,
    };
    assert(whole =~= mark + (files_message(names, files) + after));
    assert(authority_message(other) + other_rest =~= mark + (files_message(names, other_files)
        + other_after));
    assert(files_message(names, files) + after =~= whole.skip(mark.len() as int));
    assert(files_message(names, other_files) + other_after =~= whole.skip(mark.len() as int));
    lemma_files_message_ends(names, files, after, names, other_files, other_after);
    assert(same_found(files[0], other_files[0]));
    assert(head_of(authority) == head_of(other));
    match head_of(authority) {
        HeadReference::Reference(name) => {
            let bytes = encode_utf8(name);
            assert(after =~= counted(bytes) + (file_message(authority.reference) + rest));
            assert(other_after =~= counted(bytes) + (file_message(other.reference) + other_rest));
            lemma_counted_ends(
                bytes,
                file_message(authority.reference) + rest,
                bytes,
                file_message(other.reference) + other_rest,
            );
            lemma_file_message_ends(authority.reference, rest, other.reference, other_rest);
        },
        _ => {},
    }
}

/// The end of a workspace message: the number of its bytes.
pub open spec fn total_bytes(files: Seq<FoundFile>, authority: GitAuthority) -> Seq<u8> {
    le_bytes(files_bytes(files) + authority_bytes(authority), 8)
}

proof fn lemma_workspace_message_parts(
    root: Seq<char>,
    entries: Seq<Seq<char>>,
    files: Seq<FoundFile>,
    authority: GitAuthority,
)
    ensures
        workspace_message(root, entries, files, authority) == encode_utf8(
            WORKSPACE_FINGERPRINT_DOMAIN@,
        ) + (counted(encode_utf8(root)) + (le_bytes(entries.len(), 8) + (files_message(
            entries,
            files,
        ) + (authority_message(authority) + total_bytes(files, authority))))),
{
    let domain = encode_utf8(WORKSPACE_FINGERPRINT_DOMAIN@);
    let name = counted(encode_utf8(root));
    let count = le_bytes(entries.len(), 8);
    let listed = files_message(entries, files);
    let git = authority_message(authority);
    let total = total_bytes(files, authority);
    assert(domain + name + count + listed + git + total =~= domain + (name + (count + (listed + (git
        + total)))));
}

/// A fingerprint is bound to everything that decides what a flow sees: the
/// messages of two available workspaces are the same only where the root, the
/// listed files with their permissions and contents, and the repository files
/// are the same.
pub proof fn law_fingerprints_bind_the_workspace(
    root: Seq<char>,
    entries: Seq<Seq<char>>,
    files: Seq<FoundFile>,
    authority: GitAuthority,
    other_root: Seq<char>,
    other_entries: Seq<Seq<char>>,
    other_files: Seq<FoundFile>,
    other_authority: GitAuthority,
)
    requires
        entries.len() == files.len(),
        other_entries.len() == other_files.len(),
        entries.len() <= u64::MAX,
        other_entries.len() <= u64::MAX,
        fits_length(root),
        fits_length(other_root),
        fit_lengths(entries),
        fit_lengths(other_entries),
        head_of(authority) matches HeadReference::Reference(name) ==> fits_length(name),
        workspace_is_available(files, authority),
        workspace_is_available(other_files, other_authority),
        workspace_message(root, entries, files, authority) == workspace_message(
            other_root,
            other_entries,
            other_files,
            other_authority,
        ),
    ensures
        root == other_root,
        entries == other_entries,
        same_findings(files, other_files),
        same_authority(authority, other_authority),
{
    let domain = encode_utf8(WORKSPACE_FINGERPRINT_DOMAIN@);
    let name = encode_utf8(root);
    let other_name = encode_utf8(other_root);
    let total = total_bytes(files, authority);
    let other_total = total_bytes(other_files, other_authority);
    let count = le_bytes(entries.len(), 8);
    let other_count = le_bytes(other_entries.len(), 8);
    let git = authority_message(authority) + total;
    let other_git = authority_message(other_authority) + other_total;
    let listed = files_message(entries, files) + git;
    let other_listed = files_message(other_entries, other_files) + other_git;
    lemma_workspace_message_parts(root, entries, files, authority);
    lemma_workspace_message_parts(other_root, other_entries, other_files, other_authority);
    lemma_parts_end(
        domain,
        counted(name) + (count + listed),
        domain,
        counted(other_name) + (other_count + other_listed),
    );
    lemma_counted_ends(name, count + listed, other_name, other_count + other_listed);
    lemma_encoding_is_injective(root, other_root);
    lemma_room();
    lemma_le_bytes_len(entries.len(), 8);
    lemma_le_bytes_len(other_entries.len(), 8);
    lemma_parts_end(count, listed, other_count, other_listed);
    lemma_le_bytes_injective(entries.len(), other_entries.len(), 8);
    lemma_files_message_ends(entries, files, git, other_entries, other_files, other_git);
    lemma_authority_message_ends(authority, total, other_authority, other_total);
}

} // verus!
