//! Which git commands, configurations and environments a flow may use.

use vstd::prelude::*;
use vstd::utf8::{decode_utf8, valid_utf8};

use super::machine::CommandRejection;
use super::operation::FlowSubmissionError;
use crate::split::{
    ascii_lower, ascii_upper, just, lemma_span_is, lowercase_ascii, span_before, split_by, split_text,
    texts, trim_quotes, unquoted, uppercase_ascii,
};
use crate::text::{
    chars_of, concat2, decode_text, has_prefix, is_ascii_digit_char, is_whitespace, same_text,
    spec_is_whitespace, starts_with, text_of, trim, trimmed,
};

verus! {

/// The device that reads as empty and swallows writes.
pub fn null_device() -> (path: &'static str)
    ensures
        path@ == "/dev/null"@,
{
    "/dev/null"
}

// Arguments

/// The arguments that `git status` may carry.
pub open spec fn is_safe_status_argument(argument: Seq<char>) -> bool {
    ||| argument == "--short"@
    ||| argument == "-s"@
    ||| argument == "--porcelain"@
    ||| argument == "--no-renames"@
    ||| argument == "--find-renames"@
    ||| has_prefix(argument, "--porcelain="@)
    ||| has_prefix(argument, "--untracked-files="@)
    ||| has_prefix(argument, "--find-renames="@)
}

pub fn safe_git_status_argument(argument: &str) -> (safe: bool)
    ensures
        safe == is_safe_status_argument(argument@),
{
    same_text(argument, "--short") || same_text(argument, "-s") || same_text(
        argument,
        "--porcelain",
    ) || same_text(argument, "--no-renames") || same_text(argument, "--find-renames")
        || starts_with(argument, "--porcelain=") || starts_with(argument, "--untracked-files=")
        || starts_with(argument, "--find-renames=")
}

/// `text` is one or more ASCII digits.
pub open spec fn is_digits(text: Seq<char>) -> bool {
    text.len() > 0 && forall|i: int| 0 <= i < text.len() ==> is_ascii_digit_char(#[trigger] text[i])
}

/// The arguments that `git rev-parse` may carry.
pub open spec fn is_safe_revision_argument(argument: Seq<char>) -> bool {
    ||| argument == "HEAD"@
    ||| argument == "--verify"@
    ||| argument == "--quiet"@
    ||| argument == "-q"@
    ||| argument == "--short"@
    ||| argument == "--show-toplevel"@
    ||| argument == "--show-prefix"@
    ||| argument == "--show-cdup"@
    ||| argument == "--git-dir"@
    ||| argument == "--absolute-git-dir"@
    ||| argument == "--is-inside-work-tree"@
    ||| has_prefix(argument, "--short="@) && is_digits(argument.skip("--short="@.len() as int))
}

fn digits_after(argument: &str, prefix: &str) -> (found: bool)
    ensures
        found <==> has_prefix(argument@, prefix@) && is_digits(argument@.skip(prefix@.len() as int)),
{
    if !starts_with(argument, prefix) {
        return false;
    }
    let characters = chars_of(argument);
    let skipped = chars_of(prefix).len();
    let ghost rest = argument@.skip(prefix@.len() as int);
    if characters.len() == skipped {
        return false;
    }
    let mut index: usize = skipped;
    while index < characters.len()
        invariant
            characters@ == argument@,
            skipped == prefix@.len(),
            skipped <= index <= characters@.len(),
            rest == argument@.skip(skipped as int),
            forall|i: int| skipped <= i < index ==> is_ascii_digit_char(#[trigger] argument@[i]),
        decreases characters@.len() - index,
    {
        let c = characters[index];
        if !('0' <= c && c <= '9') {
            assert(!is_ascii_digit_char(rest[index - skipped]));
            return false;
        }
        index = index + 1;
    }
    true
}

pub fn safe_git_revision_argument(argument: &str) -> (safe: bool)
    ensures
        safe == is_safe_revision_argument(argument@),
{
    same_text(argument, "HEAD") || same_text(argument, "--verify") || same_text(
        argument,
        "--quiet",
    ) || same_text(argument, "-q") || same_text(argument, "--short") || same_text(
        argument,
        "--show-toplevel",
    ) || same_text(argument, "--show-prefix") || same_text(argument, "--show-cdup") || same_text(
        argument,
        "--git-dir",
    ) || same_text(argument, "--absolute-git-dir") || same_text(argument, "--is-inside-work-tree")
        || digits_after(argument, "--short=")
}

/// The one argument that `git diff` may carry.
pub fn safe_git_diff_argument(argument: &str) -> (safe: bool)
    ensures
        safe == (argument@ == "--quiet"@),
{
    same_text(argument, "--quiet")
}

/// The configuration that every git command of a flow runs under.
pub open spec fn safe_config() -> Seq<Seq<char>> {
    seq![
        "-c"@,
        "core.fsmonitor=false"@,
        "-c"@,
        "core.untrackedCache=false"@,
        "-c"@,
        "core.excludesFile=/dev/null"@,
        "--no-pager"@,
    ]
}

pub open spec fn status_is_safe(args: Seq<Seq<char>>) -> bool {
    &&& args.len() > 0
    &&& args[0] == "status"@
    &&& forall|i: int| 1 <= i < args.len() ==> is_safe_status_argument(#[trigger] args[i])
}

pub open spec fn rev_parse_is_safe(args: Seq<Seq<char>>) -> bool {
    &&& args.len() > 1
    &&& args[0] == "rev-parse"@
    &&& forall|i: int| 1 <= i < args.len() ==> is_safe_revision_argument(#[trigger] args[i])
}

pub open spec fn diff_is_safe(args: Seq<Seq<char>>) -> bool {
    &&& args.len() > 1
    &&& args[0] == "diff"@
    &&& forall|i: int| 1 <= i < args.len() ==> #[trigger] args[i] == "--quiet"@
}

/// The arguments that git is run with, if `args` is an allowed command.
pub open spec fn git_arguments(args: Seq<Seq<char>>) -> Option<Seq<Seq<char>>> {
    if status_is_safe(args) || rev_parse_is_safe(args) {
        Some(safe_config() + args)
    } else if diff_is_safe(args) {
        Some(
            safe_config() + seq!["diff"@, "--no-ext-diff"@, "--no-textconv"@] + args.skip(1),
        )
    } else {
        None
    }
}

#[derive(Clone, Copy, PartialEq, Eq, Structural)]
enum GitCommand {
    Status,
    RevParse,
    Diff,
}

spec fn safe_for(command: GitCommand, argument: Seq<char>) -> bool {
    match command {
        GitCommand::Status => is_safe_status_argument(argument),
        GitCommand::RevParse => is_safe_revision_argument(argument),
        GitCommand::Diff => argument == "--quiet"@,
    }
}

fn rest_is_safe(command: GitCommand, args: &[String]) -> (safe: bool)
    ensures
        safe <==> forall|i: int| 1 <= i < args@.len() ==> safe_for(command, #[trigger] texts(args@)[i]),
{
    let mut index: usize = 1;
    while index < args.len()
        invariant
            1 <= index,
            index <= args@.len() || args@.len() == 0,
            forall|i: int| 1 <= i < index && i < args@.len() ==> safe_for(
                command,
                #[trigger] texts(args@)[i],
            ),
        decreases args@.len() - index,
    {
        let argument = args[index].as_str();
        let safe = match command {
            GitCommand::Status => safe_git_status_argument(argument),
            GitCommand::RevParse => safe_git_revision_argument(argument),
            GitCommand::Diff => safe_git_diff_argument(argument),
        };
        assert(texts(args@)[index as int] == argument@);
        if !safe {
            return false;
        }
        index = index + 1;
    }
    true
}

fn safe_git_config_args() -> (args: Vec<String>)
    ensures
        texts(args@) == safe_config(),
{
    let mut args: Vec<String> = Vec::new();
    args.push("-c".to_owned());
    args.push("core.fsmonitor=false".to_owned());
    args.push("-c".to_owned());
    args.push("core.untrackedCache=false".to_owned());
    args.push("-c".to_owned());
    let excludes = concat2("core.excludesFile=", null_device());
    proof {
        reveal_strlit("core.excludesFile=");
        reveal_strlit("/dev/null");
        reveal_strlit("core.excludesFile=/dev/null");
        assert(excludes@ =~= "core.excludesFile=/dev/null"@);
    }
    args.push(excludes);
    args.push("--no-pager".to_owned());
    assert(texts(args@) =~= safe_config());
    args
}

fn push_arguments(out: &mut Vec<String>, args: &[String], from: usize)
    requires
        from <= args@.len(),
    ensures
        texts(final(out)@) == texts(old(out)@) + texts(args@).skip(from as int),
{
    let mut index: usize = from;
    assert(texts(out@) =~= texts(old(out)@) + texts(args@).subrange(from as int, from as int));
    while index < args.len()
        invariant
            from <= index <= args@.len(),
            texts(out@) == texts(old(out)@) + texts(args@).subrange(from as int, index as int),
        decreases args@.len() - index,
    {
        let ghost before = out@;
        out.push(args[index].clone());
        assert(texts(out@) =~= texts(before).push(args@[index as int]@));
        assert(texts(args@).subrange(from as int, index + 1) =~= texts(args@).subrange(
            from as int,
            index as int,
        ).push(texts(args@)[index as int]));
        assert(texts(out@) =~= texts(old(out)@) + texts(args@).subrange(from as int, index + 1));
        index = index + 1;
    }
    assert(texts(args@).skip(from as int) =~= texts(args@).subrange(
        from as int,
        args@.len() as int,
    ));
}

/// Accepts the read-only git commands of the allowlist and gives the arguments
/// to run them with.
pub fn validated_git_args(args: &[String]) -> (validated: Result<Vec<String>, CommandRejection>)
    ensures
        match (validated, git_arguments(texts(args@))) {
            (Ok(arguments), Some(expected)) => texts(arguments@) == expected,
            (Err(rejection), None) => rejection == CommandRejection::Unsupported,
            _ => false,
        },
{
    let ghost given = texts(args@);
    if args.len() == 0 {
        return Err(CommandRejection::Unsupported);
    }
    let command = args[0].as_str();
    assert(given[0] == command@);
    proof {
        reveal_strlit("status");
        reveal_strlit("rev-parse");
        reveal_strlit("diff");
        assert("status"@.len() != "rev-parse"@.len());
        assert("status"@.len() != "diff"@.len());
        assert("rev-parse"@.len() != "diff"@.len());
        assert(given.skip(0) =~= given);
    }
    if same_text(command, "status") {
        if rest_is_safe(GitCommand::Status, args) {
            let mut arguments = safe_git_config_args();
            push_arguments(&mut arguments, args, 0);
            return Ok(arguments);
        }
        return Err(CommandRejection::Unsupported);
    }
    if same_text(command, "rev-parse") {
        if args.len() > 1 && rest_is_safe(GitCommand::RevParse, args) {
            let mut arguments = safe_git_config_args();
            push_arguments(&mut arguments, args, 0);
            return Ok(arguments);
        }
        return Err(CommandRejection::Unsupported);
    }
    if same_text(command, "diff") {
        if args.len() > 1 && rest_is_safe(GitCommand::Diff, args) {
            let mut arguments = safe_git_config_args();
            let ghost config = arguments@;
            arguments.push("diff".to_owned());
            arguments.push("--no-ext-diff".to_owned());
            arguments.push("--no-textconv".to_owned());
            assert(texts(arguments@) =~= safe_config() + seq![
                "diff"@,
                "--no-ext-diff"@,
                "--no-textconv"@,
            ]);
            push_arguments(&mut arguments, args, 1);
            return Ok(arguments);
        }
        return Err(CommandRejection::Unsupported);
    }
    Err(CommandRejection::Unsupported)
}

/// Every accepted git command starts with the safe configuration, which turns
/// off each configured program that git would start by itself, and names one of
/// the three read-only commands right after it.
pub proof fn law_git_runs_under_safe_configuration(args: Seq<Seq<char>>)
    requires
        git_arguments(args) is Some,
    ensures
        git_arguments(args)->0.take(safe_config().len() as int) == safe_config(),
        git_arguments(args)->0[safe_config().len() as int] == args[0],
        args[0] == "status"@ || args[0] == "rev-parse"@ || args[0] == "diff"@,
        args[0] == "diff"@ ==> git_arguments(args)->0[safe_config().len() as int + 1]
            == "--no-ext-diff"@ && git_arguments(args)->0[safe_config().len() as int + 2]
            == "--no-textconv"@,
{
    let arguments = git_arguments(args)->0;
    assert(arguments.take(safe_config().len() as int) =~= safe_config());
    reveal_strlit("status");
    reveal_strlit("rev-parse");
    reveal_strlit("diff");
    assert("status"@.len() != "diff"@.len());
    assert("rev-parse"@.len() != "diff"@.len());
}

// Listings

/// Which files of a workspace are listed.
#[derive(Clone, Copy, Debug, PartialEq, Eq, Structural)]
pub enum ListedFiles {
    /// Those that git tracks, or would.
    Visible,
    /// The attribute files that git heeds although it ignores them.
    IgnoredAttributes,
}

/// The options of the safe configuration, for a command that has no pager.
pub open spec fn safe_options() -> Seq<Seq<char>> {
    safe_config().drop_last()
}

/// The arguments that git lists the files with.
pub open spec fn listing_arguments(files: ListedFiles) -> Seq<Seq<char>> {
    safe_options() + seq!["ls-files"@, "-z"@] + match files {
        ListedFiles::Visible => seq!["--cached"@, "--others"@, "--exclude-standard"@],
        ListedFiles::IgnoredAttributes => seq![
            "--others"@,
            "--ignored"@,
            "--exclude-standard"@,
            "--"@,
            ".gitattributes"@,
            ":(glob)**/.gitattributes"@,
        ],
    }
}

/// Writes the arguments that git lists the files with.
pub fn git_listing_args(files: ListedFiles) -> (args: Vec<String>)
    ensures
        texts(args@) == listing_arguments(files),
{
    let mut args = safe_git_config_args();
    assert(texts(args@).len() == args@.len());
    let _ = args.pop();
    assert(texts(args@) =~= safe_options());
    args.push("ls-files".to_owned());
    args.push("-z".to_owned());
    match files {
        ListedFiles::Visible => {
            args.push("--cached".to_owned());
            args.push("--others".to_owned());
            args.push("--exclude-standard".to_owned());
        },
        ListedFiles::IgnoredAttributes => {
            args.push("--others".to_owned());
            args.push("--ignored".to_owned());
            args.push("--exclude-standard".to_owned());
            args.push("--".to_owned());
            args.push(".gitattributes".to_owned());
            args.push(":(glob)**/.gitattributes".to_owned());
        },
    }
    assert(texts(args@) =~= listing_arguments(files));
    args
}

/// Listings run under the options of the safe configuration too.
pub proof fn law_listings_run_under_safe_options(files: ListedFiles)
    ensures
        listing_arguments(files).take(safe_options().len() as int) == safe_options(),
        listing_arguments(files)[safe_options().len() as int] == "ls-files"@,
        safe_options() == safe_config().take(safe_options().len() as int),
{
    assert(listing_arguments(files).take(safe_options().len() as int) =~= safe_options());
    assert(safe_options() =~= safe_config().take(safe_options().len() as int));
}

// Roles

/// What a step claims to do.
#[derive(Clone, Copy, Debug, PartialEq, Eq, Structural)]
pub enum StepSemanticRole {
    Observe,
    Change,
    Verify,
}

/// The command fits the role: `diff` verifies, the others observe. The first
/// schema had no verification, so there `diff` observes too.
pub open spec fn role_fits(
    args: Seq<Seq<char>>,
    role: StepSemanticRole,
    schema_version: u16,
) -> bool {
    &&& args.len() > 0
    &&& match role {
        StepSemanticRole::Verify => args[0] == "diff"@,
        StepSemanticRole::Observe => {
            args[0] == "status"@ || args[0] == "rev-parse"@ || (args[0] == "diff"@
                && schema_version == 1)
        },
        StepSemanticRole::Change => false,
    }
}

pub fn validate_git_semantic_role(
    args: &[String],
    semantic_role: StepSemanticRole,
    schema_version: u16,
) -> (result: Result<(), CommandRejection>)
    ensures
        result == (if role_fits(texts(args@), semantic_role, schema_version) {
            Ok::<(), CommandRejection>(())
        } else {
            Err::<(), CommandRejection>(CommandRejection::Unsupported)
        }),
{
    if args.len() == 0 {
        return Err(CommandRejection::Unsupported);
    }
    let command = args[0].as_str();
    assert(texts(args@)[0] == command@);
    let fits = match semantic_role {
        StepSemanticRole::Verify => same_text(command, "diff"),
        StepSemanticRole::Observe => same_text(command, "status") || same_text(
            command,
            "rev-parse",
        ) || (same_text(command, "diff") && schema_version == 1),
        StepSemanticRole::Change => false,
    };
    if fits {
        Ok(())
    } else {
        Err(CommandRejection::Unsupported)
    }
}

// Environment

/// The environment variables that a flow command inherits, in any ASCII case.
pub open spec fn is_safe_environment_name(name: Seq<char>) -> bool {
    let upper = ascii_upper(name);
    ||| upper == "LANG"@
    ||| upper == "LC_ALL"@
    ||| upper == "LC_CTYPE"@
    ||| upper == "PATH"@
    ||| upper == "TEMP"@
    ||| upper == "TMP"@
    ||| upper == "TMPDIR"@
}

pub fn safe_environment_name(name: &str) -> (safe: bool)
    ensures
        safe == is_safe_environment_name(name@),
{
    let upper = uppercase_ascii(name);
    let upper = upper.as_str();
    same_text(upper, "LANG") || same_text(upper, "LC_ALL") || same_text(upper, "LC_CTYPE")
        || same_text(upper, "PATH") || same_text(upper, "TEMP") || same_text(upper, "TMP")
        || same_text(upper, "TMPDIR")
}

// Configuration

/// What a configuration line contributes.
pub enum ConfigLine {
    /// Nothing: an empty line or a comment.
    Blank,
    /// A section header without its closing bracket.
    Unclosed,
    /// A section header, with the first word of its name.
    Section(Seq<char>),
    /// A setting, with its key.
    Setting(Seq<char>),
}

/// Where the first word of a section name ends.
pub open spec fn ends_section_word() -> spec_fn(char) -> bool {
    |c: char| c == '.' || spec_is_whitespace(c)
}

/// Where the key of a setting ends.
pub open spec fn ends_key() -> spec_fn(char) -> bool {
    |c: char| c == '=' || c == ' ' || c == '\t'
}

/// How a line reads, without regard to case or surrounding white space.
pub open spec fn read_config_line(line: Seq<char>) -> ConfigLine {
    let content = ascii_lower(trimmed(line));
    if content.len() == 0 || content[0] == '#' || content[0] == ';' {
        ConfigLine::Blank
    } else if content[0] == '[' {
        let end = span_before(content, just(']'));
        if end >= content.len() {
            ConfigLine::Unclosed
        } else {
            let name = content.subrange(1, end as int);
            ConfigLine::Section(unquoted(name.take(span_before(name, ends_section_word()) as int)))
        }
    } else {
        ConfigLine::Setting(content.take(span_before(content, ends_key()) as int))
    }
}

/// Sections that can make git run other programs or read other files.
pub open spec fn is_refused_section(section: Seq<char>) -> bool {
    section == "include"@ || section == "includeif"@ || section == "filter"@ || section == "diff"@
}

/// Settings that can make git run other programs or read other files.
pub open spec fn is_refused_setting(section: Seq<char>, key: Seq<char>) -> bool {
    ||| section == "core"@ && (key == "worktree"@ || key == "attributesfile"@ || key
        == "hookspath"@ || key == "fsmonitor"@)
    ||| section == "extensions"@ && key == "worktreeconfig"@
    ||| key == "include.path"@
}

/// No line of `lines` is refused, reading on from inside `section`.
pub open spec fn config_lines_accepted(lines: Seq<Seq<char>>, section: Seq<char>) -> bool
    decreases lines.len(),
{
    if lines.len() == 0 {
        true
    } else {
        let rest = lines.drop_first();
        match read_config_line(lines[0]) {
            ConfigLine::Blank => config_lines_accepted(rest, section),
            ConfigLine::Unclosed => false,
            ConfigLine::Section(name) => !is_refused_section(name) && config_lines_accepted(
                rest,
                name,
            ),
            ConfigLine::Setting(key) => !is_refused_setting(section, key)
                && config_lines_accepted(rest, section),
        }
    }
}

/// The configuration text is accepted.
pub open spec fn config_accepted(text: Seq<char>) -> bool {
    config_lines_accepted(split_by(text, '\n'), Seq::empty())
}

enum ParsedLine {
    Blank,
    Unclosed,
    Section(String),
    Setting(String),
}

spec fn parsed_as(parsed: ParsedLine, line: ConfigLine) -> bool {
    match (parsed, line) {
        (ParsedLine::Blank, ConfigLine::Blank) => true,
        (ParsedLine::Unclosed, ConfigLine::Unclosed) => true,
        (ParsedLine::Section(name), ConfigLine::Section(expected)) => name@ == expected,
        (ParsedLine::Setting(key), ConfigLine::Setting(expected)) => key@ == expected,
        _ => false,
    }
}

fn parse_config_line(line: &str) -> (parsed: ParsedLine)
    ensures
        parsed_as(parsed, read_config_line(line@)),
{
    let content = trim(line);
    let lowered = lowercase_ascii(content.as_str());
    let characters = chars_of(lowered.as_str());
    if characters.len() == 0 {
        return ParsedLine::Blank;
    }
    let first = characters[0];
    if first == '#' || first == ';' {
        return ParsedLine::Blank;
    }
    if first == '[' {
        let mut end: usize = 0;
        while end < characters.len() && characters[end] != ']'
            invariant
                end <= characters@.len(),
                forall|i: int| 0 <= i < end ==> !just(']')(#[trigger] characters@[i]),
            decreases characters@.len() - end,
        {
            end = end + 1;
        }
        proof {
            lemma_span_is(characters@, just(']'), end as int);
        }
        if end == characters.len() {
            return ParsedLine::Unclosed;
        }
        assert(end >= 1);
        let ghost name = characters@.subrange(1, end as int);
        let mut stop: usize = 1;
        while stop < end && characters[stop] != '.' && !is_whitespace(characters[stop])
            invariant
                1 <= stop <= end < characters@.len(),
                name == characters@.subrange(1, end as int),
                forall|i: int| 0 <= i < stop - 1 ==> !ends_section_word()(#[trigger] name[i]),
            decreases end - stop,
        {
            assert(name[stop - 1] == characters@[stop as int]);
            stop = stop + 1;
        }
        proof {
            if stop < end {
                assert(name[stop - 1] == characters@[stop as int]);
            }
            lemma_span_is(name, ends_section_word(), stop - 1);
            assert(name.take(stop - 1) =~= characters@.subrange(1, stop as int));
        }
        let word = text_of(&characters, 1, stop);
        return ParsedLine::Section(trim_quotes(word.as_str()));
    }
    let mut stop: usize = 0;
    while stop < characters.len() && characters[stop] != '=' && characters[stop] != ' '
        && characters[stop] != '\t'
        invariant
            stop <= characters@.len(),
            forall|i: int| 0 <= i < stop ==> !ends_key()(#[trigger] characters@[i]),
        decreases characters@.len() - stop,
    {
        stop = stop + 1;
    }
    proof {
        lemma_span_is(characters@, ends_key(), stop as int);
        assert(characters@.take(stop as int) =~= characters@.subrange(0, stop as int));
    }
    ParsedLine::Setting(text_of(&characters, 0, stop))
}

fn section_is_refused(section: &str) -> (refused: bool)
    ensures
        refused == is_refused_section(section@),
{
    same_text(section, "include") || same_text(section, "includeif") || same_text(
        section,
        "filter",
    ) || same_text(section, "diff")
}

fn setting_is_refused(section: &str, key: &str) -> (refused: bool)
    ensures
        refused == is_refused_setting(section@, key@),
{
    (same_text(section, "core") && (same_text(key, "worktree") || same_text(key, "attributesfile")
        || same_text(key, "hookspath") || same_text(key, "fsmonitor"))) || (same_text(
        section,
        "extensions",
    ) && same_text(key, "worktreeconfig")) || same_text(key, "include.path")
}

/// Accepts a repository configuration only when it is UTF-8 text that sets
/// nothing which redirects git or starts another program.
pub fn validate_git_config(contents: &[u8]) -> (result: Result<(), FlowSubmissionError>)
    ensures
        result is Ok <==> valid_utf8(contents@) && config_accepted(decode_utf8(contents@)),
        result matches Err(error) ==> error == FlowSubmissionError::WorkspaceUnavailable,
{
    let config = match decode_text(contents) {
        Some(text) => text,
        None => {
            return Err(FlowSubmissionError::WorkspaceUnavailable);
        },
    };
    let lines = split_text(config, '\n');
    let ghost all = texts(lines@);
    let mut section = String::new();
    let mut index: usize = 0;
    assert(all.skip(0) =~= all);
    while index < lines.len()
        invariant
            all == texts(lines@),
            index <= lines@.len(),
            config_lines_accepted(all.skip(index as int), section@) == config_accepted(config@),
            config@ == decode_utf8(contents@),
        decreases lines@.len() - index,
    {
        let line = lines[index].as_str();
        proof {
            assert(all.skip(index as int)[0] == line@);
            assert(all.skip(index as int).drop_first() =~= all.skip(index + 1));
        }
        match parse_config_line(line) {
            ParsedLine::Blank => {},
            ParsedLine::Unclosed => {
                return Err(FlowSubmissionError::WorkspaceUnavailable);
            },
            ParsedLine::Section(name) => {
                if section_is_refused(name.as_str()) {
                    return Err(FlowSubmissionError::WorkspaceUnavailable);
                }
                section = name;
            },
            ParsedLine::Setting(key) => {
                if setting_is_refused(section.as_str(), key.as_str()) {
                    return Err(FlowSubmissionError::WorkspaceUnavailable);
                }
            },
        }
        index = index + 1;
    }
    Ok(())
}

// What is allowed, word by word

proof fn lemma_command_words()
    ensures
        "status"@ != "diff"@,
        "status"@ != "rev-parse"@,
        "rev-parse"@ != "diff"@,
{
    reveal_strlit("status");
    reveal_strlit("rev-parse");
    reveal_strlit("diff");
    assert("status"@.len() == 6 && "rev-parse"@.len() == 9 && "diff"@.len() == 4);
}

/// Only a `diff` verifies: a step that claims to verify is accepted exactly with
/// that command, and never with `status` or `rev-parse`. Those observe, and a
/// `diff` observes only under the first schema. No git command is accepted for
/// a step that claims a change.
pub proof fn law_only_diff_verifies(args: Seq<Seq<char>>, schema_version: u16)
    ensures
        role_fits(args, StepSemanticRole::Verify, schema_version) <==> args.len() > 0 && args[0]
            == "diff"@,
        args.len() > 0 && (args[0] == "status"@ || args[0] == "rev-parse"@) ==> !role_fits(
            args,
            StepSemanticRole::Verify,
            schema_version,
        ) && role_fits(args, StepSemanticRole::Observe, schema_version),
        args.len() > 0 && args[0] == "diff"@ ==> (role_fits(
            args,
            StepSemanticRole::Observe,
            schema_version,
        ) <==> schema_version == 1),
        role_fits(args, StepSemanticRole::Observe, schema_version) ==> args[0] == "status"@
            || args[0] == "rev-parse"@ || args[0] == "diff"@,
        !role_fits(args, StepSemanticRole::Change, schema_version),
{
    lemma_command_words();
}

/// The words that `git status` may be given, apart from those with a value.
pub open spec fn status_words() -> Seq<Seq<char>> {
    seq!["--short"@, "-s"@, "--porcelain"@, "--no-renames"@, "--find-renames"@]
}

/// The options of `git status` that may be given with a value.
pub open spec fn status_options() -> Seq<Seq<char>> {
    seq!["--porcelain="@, "--untracked-files="@, "--find-renames="@]
}

/// The words that `git rev-parse` may be given.
pub open spec fn revision_words() -> Seq<Seq<char>> {
    seq![
        "HEAD"@,
        "--verify"@,
        "--quiet"@,
        "-q"@,
        "--short"@,
        "--show-toplevel"@,
        "--show-prefix"@,
        "--show-cdup"@,
        "--git-dir"@,
        "--absolute-git-dir"@,
        "--is-inside-work-tree"@,
    ]
}

/// A git command is accepted exactly where it is one of three: `status` with
/// words that only shape its output, `rev-parse` with at least one word that
/// asks about the repository, or `diff` with nothing but `--quiet`, at least
/// once.
pub proof fn law_only_listed_git_commands_run(args: Seq<Seq<char>>)
    ensures
        git_arguments(args) is Some <==> {
            ||| args.len() > 0 && args[0] == "status"@ && forall|i: int|
                1 <= i < args.len() ==> status_words().contains(#[trigger] args[i]) || exists|k: int|
                    0 <= k < 3 && has_prefix(args[i], #[trigger] status_options()[k])
            ||| args.len() > 1 && args[0] == "rev-parse"@ && forall|i: int|
                1 <= i < args.len() ==> revision_words().contains(#[trigger] args[i]) || (
                has_prefix(args[i], "--short="@) && is_digits(args[i].skip(8)))
            ||| args.len() > 1 && args[0] == "diff"@ && forall|i: int|
                1 <= i < args.len() ==> #[trigger] args[i] == "--quiet"@
        },
{
    lemma_command_words();
    reveal_strlit("--short=");
    assert("--short="@.len() == 8);
    assert forall|word: Seq<char>| #[trigger] is_safe_status_argument(word)
        <==> status_words().contains(word) || exists|k: int|
        0 <= k < 3 && has_prefix(word, #[trigger] status_options()[k]) by {
        let words = status_words();
        let options = status_options();
        assert(words[0] == "--short"@ && words[1] == "-s"@ && words[2] == "--porcelain"@ && words[3]
            == "--no-renames"@ && words[4] == "--find-renames"@);
        assert(options[0] == "--porcelain="@ && options[1] == "--untracked-files="@ && options[2]
            == "--find-renames="@);
    }
    assert forall|word: Seq<char>| #[trigger] is_safe_revision_argument(word)
        <==> revision_words().contains(word) || (has_prefix(word, "--short="@) && is_digits(
        word.skip(8),
    )) by {
        let words = revision_words();
        assert(words[0] == "HEAD"@ && words[1] == "--verify"@ && words[2] == "--quiet"@ && words[3]
            == "-q"@ && words[4] == "--short"@ && words[5] == "--show-toplevel"@ && words[6]
            == "--show-prefix"@ && words[7] == "--show-cdup"@ && words[8] == "--git-dir"@
            && words[9] == "--absolute-git-dir"@ && words[10] == "--is-inside-work-tree"@);
    }
    if args.len() > 0 && args[0] == "status"@ {
        assert forall|i: int| 1 <= i < args.len() implies (is_safe_status_argument(args[i])
            <==> status_words().contains(#[trigger] args[i]) || exists|k: int|
            0 <= k < 3 && has_prefix(args[i], #[trigger] status_options()[k])) by {}
    }
    if args.len() > 0 && args[0] == "rev-parse"@ {
        assert forall|i: int| 1 <= i < args.len() implies (is_safe_revision_argument(args[i])
            <==> revision_words().contains(#[trigger] args[i]) || (has_prefix(args[i], "--short="@)
            && is_digits(args[i].skip(8)))) by {}
    }
}

/// An accepted command is run with its own words, in their order, behind the
/// options that keep git from starting other programs. For a `diff` the options
/// that keep it from external drivers come right behind the command word.
pub proof fn law_git_gets_its_own_words(args: Seq<Seq<char>>)
    requires
        git_arguments(args) is Some,
    ensures
        ({
            let out = git_arguments(args)->0;
            &&& out[0] == "-c"@ && out[1] == "core.fsmonitor=false"@
            &&& out[2] == "-c"@ && out[3] == "core.untrackedCache=false"@
            &&& out[4] == "-c"@ && out[5] == "core.excludesFile=/dev/null"@
            &&& out[6] == "--no-pager"@
            &&& out[7] == args[0]
            &&& if args[0] == "diff"@ {
                out[8] == "--no-ext-diff"@ && out[9] == "--no-textconv"@ && out.skip(10)
                    == args.skip(1)
            } else {
                out.skip(8) == args.skip(1)
            }
        }),
{
    lemma_command_words();
    let out = git_arguments(args)->0;
    if args[0] == "diff"@ {
        assert(out.skip(10) =~= args.skip(1));
    } else {
        assert(out.skip(8) =~= args.skip(1));
    }
}

/// The workspace is listed in two parts: everything that git tracks or would
/// track, and the attribute files that it ignores. Both listings end each name
/// with a zero byte.
pub proof fn law_listings_ask_for_the_workspace(files: ListedFiles)
    ensures
        ({
            let out = listing_arguments(files);
            &&& out[0] == "-c"@ && out[1] == "core.fsmonitor=false"@
            &&& out[2] == "-c"@ && out[3] == "core.untrackedCache=false"@
            &&& out[4] == "-c"@ && out[5] == "core.excludesFile=/dev/null"@
            &&& out[6] == "ls-files"@ && out[7] == "-z"@
            &&& match files {
                ListedFiles::Visible => out.len() == 11 && out[8] == "--cached"@ && out[9]
                    == "--others"@ && out[10] == "--exclude-standard"@,
                ListedFiles::IgnoredAttributes => out.len() == 14 && out[8] == "--others"@ && out[9]
                    == "--ignored"@ && out[10] == "--exclude-standard"@ && out[11] == "--"@
                    && out[12] == ".gitattributes"@ && out[13] == ":(glob)**/.gitattributes"@,
            }
        }),
{
}

/// Names of variables count without regard to case, and only seven of them are
/// safe to inherit.
pub proof fn law_few_variables_are_inherited(name: Seq<char>)
    ensures
        is_safe_environment_name(name) <==> seq![
            "LANG"@,
            "LC_ALL"@,
            "LC_CTYPE"@,
            "PATH"@,
            "TEMP"@,
            "TMP"@,
            "TMPDIR"@,
        ].contains(ascii_upper(name)),
{
    let words = seq!["LANG"@, "LC_ALL"@, "LC_CTYPE"@, "PATH"@, "TEMP"@, "TMP"@, "TMPDIR"@];
    assert(words[0] == "LANG"@ && words[1] == "LC_ALL"@ && words[2] == "LC_CTYPE"@ && words[3]
        == "PATH"@ && words[4] == "TEMP"@ && words[5] == "TMP"@ && words[6] == "TMPDIR"@);
}

/// The section that line `at` is in: that of the last header before it.
pub open spec fn section_at(lines: Seq<Seq<char>>, at: int) -> Seq<char>
    decreases at,
{
    if at <= 0 {
        Seq::empty()
    } else {
        match read_config_line(lines[at - 1]) {
            ConfigLine::Section(name) => name,
            _ => section_at(lines, at - 1),
        }
    }
}

/// A line that could make git start a program or read a file elsewhere.
pub open spec fn is_redirecting_line(line: ConfigLine, section: Seq<char>) -> bool {
    match line {
        ConfigLine::Blank => false,
        ConfigLine::Unclosed => true,
        ConfigLine::Section(name) => name == "include"@ || name == "includeif"@ || name
            == "filter"@ || name == "diff"@,
        ConfigLine::Setting(key) => {
            ||| section == "core"@ && key == "worktree"@
            ||| section == "core"@ && key == "attributesfile"@
            ||| section == "core"@ && key == "hookspath"@
            ||| section == "core"@ && key == "fsmonitor"@
            ||| section == "extensions"@ && key == "worktreeconfig"@
            ||| key == "include.path"@
        },
    }
}

spec fn section_from(lines: Seq<Seq<char>>, at: int, start: Seq<char>) -> Seq<char>
    decreases at,
{
    if at <= 0 {
        start
    } else {
        match read_config_line(lines[at - 1]) {
            ConfigLine::Section(name) => name,
            _ => section_from(lines, at - 1, start),
        }
    }
}

proof fn lemma_section_skips(lines: Seq<Seq<char>>, at: int, start: Seq<char>)
    requires
        1 <= at <= lines.len(),
    ensures
        section_from(lines, at, start) == section_from(
            lines.drop_first(),
            at - 1,
            match read_config_line(lines[0]) {
                ConfigLine::Section(name) => name,
                _ => start,
            },
        ),
    decreases at,
{
    if at > 1 {
        lemma_section_skips(lines, at - 1, start);
        assert(lines.drop_first()[at - 2] == lines[at - 1]);
    } else {
        reveal_with_fuel(section_from, 2);
    }
}

proof fn lemma_config_lines(lines: Seq<Seq<char>>, start: Seq<char>)
    ensures
        config_lines_accepted(lines, start) <==> forall|k: int|
            0 <= k < lines.len() ==> !is_redirecting_line(
                read_config_line(#[trigger] lines[k]),
                section_from(lines, k, start),
            ),
    decreases lines.len(),
{
    if lines.len() > 0 {
        let rest = lines.drop_first();
        let next = match read_config_line(lines[0]) {
            ConfigLine::Section(name) => name,
            _ => start,
        };
        lemma_config_lines(rest, next);
        assert forall|k: int| 0 <= k < rest.len() implies section_from(
            rest,
            k,
            next,
        ) == section_from(lines, k + 1, start) && #[trigger] rest[k] == lines[k + 1] by {
            lemma_section_skips(lines, k + 1, start);
        }
        assert(section_from(lines, 0, start) == start);
        if config_lines_accepted(lines, start) {
            assert forall|k: int| 0 <= k < lines.len() implies !is_redirecting_line(
                read_config_line(#[trigger] lines[k]),
                section_from(lines, k, start),
            ) by {
                if k > 0 {
                    assert(rest[k - 1] == lines[k]);
                }
            }
        }
        if forall|k: int|
            0 <= k < lines.len() ==> !is_redirecting_line(
                read_config_line(#[trigger] lines[k]),
                section_from(lines, k, start),
            ) {
            assert(!is_redirecting_line(read_config_line(lines[0]), start));
            assert forall|k: int| 0 <= k < rest.len() implies !is_redirecting_line(
                read_config_line(#[trigger] rest[k]),
                section_from(rest, k, next),
            ) by {
                assert(rest[k] == lines[k + 1]);
            }
        }
    }
}

proof fn lemma_section_at(lines: Seq<Seq<char>>, at: int)
    ensures
        section_at(lines, at) == section_from(lines, at, Seq::empty()),
    decreases at,
{
    if at > 0 {
        lemma_section_at(lines, at - 1);
    }
}

/// A repository's configuration is accepted exactly where none of its lines, in
/// the section that it stands in, could make git start a program or read a file
/// elsewhere.
pub proof fn law_configurations_do_not_redirect(text: Seq<char>)
    ensures
        config_accepted(text) <==> forall|k: int|
            0 <= k < split_by(text, '\n').len() ==> !is_redirecting_line(
                read_config_line(#[trigger] split_by(text, '\n')[k]),
                section_at(split_by(text, '\n'), k),
            ),
{
    let lines = split_by(text, '\n');
    lemma_config_lines(lines, Seq::empty());
    assert forall|k: int| 0 <= k < lines.len() implies section_at(lines, k) == section_from(
        lines,
        k,
        Seq::empty(),
    ) && #[trigger] lines[k] == lines[k] by {
        lemma_section_at(lines, k);
    }
}

} // verus!
