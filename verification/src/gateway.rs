//! What is asked of the version-control tool, and what its answers mean.
//!
//! Running the tool is left to the caller. This module says which arguments
//! each request takes and reads the output that came back.

use crate::error::PickerError;
use crate::text::{
    after_line, chars_of, decode, first_line, lemma_decode_concat, line_end, lines, text_of,
    texts, trim, trim_end_at, trim_start_at, trimmed,
};
use vstd::prelude::*;
use vstd::string::StringExecFns;
use vstd::utf8::{decode_utf8, valid_utf8};

verus! {

/// The name under which the version-control tool is started.
pub const TOOL: &'static str = "git";

/// The number of branches that a listing holds at most.
pub const RECENT_BRANCH_LIMIT: usize = 20;

/// What one run of the tool left behind.
#[derive(Debug)]
pub struct ToolOutput {
    /// Whether the tool reported success.
    pub success: bool,
    /// The bytes it wrote to its standard output.
    pub stdout: Vec<u8>,
    /// The bytes it wrote to its error stream.
    pub stderr: Vec<u8>,
}

/// The branch names in a listing that the tool printed: each line without
/// the white space around it, blank lines left out.
pub open spec fn branch_names(text: Seq<char>) -> Seq<Seq<char>> {
    lines(text).map_values(|line: Seq<char>| trimmed(line)).filter(
        |name: Seq<char>| name.len() > 0,
    )
}

/// The first `limit` branch names of a listing, or all of them where there
/// are fewer.
pub open spec fn listing(text: Seq<char>, limit: nat) -> Seq<Seq<char>> {
    if branch_names(text).len() <= limit {
        branch_names(text)
    } else {
        branch_names(text).take(limit as int)
    }
}

/// The branch names of a text are the name on its first line, unless that
/// line is blank, and then the names in the rest.
proof fn lemma_branch_names_unfold(text: Seq<char>)
    requires
        text.len() > 0,
    ensures
        branch_names(text) == if trimmed(first_line(text)).len() > 0 {
            seq![trimmed(first_line(text))] + branch_names(after_line(text))
        } else {
            branch_names(after_line(text))
        },
{
    let trim_line = |line: Seq<char>| trimmed(line);
    let named = |name: Seq<char>| name.len() > 0;
    let head = seq![first_line(text)];
    let tail = lines(after_line(text));
    assert(lines(text) == head + tail);
    assert((head + tail).map_values(trim_line) == head.map_values(trim_line) + tail.map_values(
        trim_line,
    ));
    Seq::filter_distributes_over_add(
        head.map_values(trim_line),
        tail.map_values(trim_line),
        named,
    );
    let name = trimmed(first_line(text));
    assert(head.map_values(trim_line) == seq![name]);
    reveal_with_fuel(Seq::filter, 2);
    assert(seq![name].drop_last() == Seq::<Seq<char>>::empty());
    if name.len() > 0 {
        assert(seq![name].filter(named) == seq![name]);
    } else {
        assert(seq![name].filter(named) == Seq::<Seq<char>>::empty());
    }
}

/// A listing holds at most `limit` names, and none of them is empty.
pub proof fn lemma_listing_bounds(text: Seq<char>, limit: nat)
    ensures
        listing(text, limit).len() <= limit,
        forall|i: int| 0 <= i < listing(text, limit).len() ==> listing(text, limit)[i].len() > 0,
{
    let named = |name: Seq<char>| name.len() > 0;
    let trimmed_lines = lines(text).map_values(|line: Seq<char>| trimmed(line));
    assert forall|i: int| 0 <= i < listing(text, limit).len() implies listing(text, limit)[i].len()
        > 0 by {
        trimmed_lines.lemma_filter_pred(named, i);
    }
}

/// Reads the branch listing that the tool printed: at most `limit` names, in
/// the order in which they were printed.
pub fn branch_listing(text: &str, limit: usize) -> (names: Vec<String>)
    ensures
        texts(names@) == listing(text@, limit as nat),
        names.len() <= limit,
        forall|i: int| 0 <= i < names.len() ==> names[i]@.len() > 0,
{
    let chars = chars_of(text);
    let mut names: Vec<String> = Vec::new();
    let mut start: usize = 0;
    assert(chars@.skip(0) == chars@);
    assert(texts(names@) == Seq::<Seq<char>>::empty());
    while start < chars.len() && names.len() < limit
        invariant
            start <= chars.len(),
            names.len() <= limit,
            chars@ == text@,
            texts(names@) + branch_names(chars@.skip(start as int)) == branch_names(chars@),
        decreases chars.len() - start,
    {
        let ghost rest = chars@.skip(start as int);
        let ghost before = texts(names@);
        let end = line_end(&chars, start);
        let to = trim_end_at(&chars, start, end);
        let from = trim_start_at(&chars, start, to);
        proof {
            lemma_branch_names_unfold(rest);
            assert(first_line(rest) == chars@.subrange(start as int, end as int));
            assert(trimmed(first_line(rest)) == chars@.subrange(from as int, to as int));
        }
        if from < to {
            let name = text_of(&chars, from, to);
            names.push(name);
            assert(texts(names@) == before.push(name@));
            assert(before.push(name@) + branch_names(after_line(rest)) == before + (seq![name@]
                + branch_names(after_line(rest))));
        }
        if end < chars.len() {
            assert(after_line(rest) == chars@.skip(end + 1));
            start = end + 1;
        } else {
            assert(after_line(rest) == chars@.skip(end as int));
            start = end;
        }
    }
    proof {
        let all = branch_names(chars@);
        let left = branch_names(chars@.skip(start as int));
        if start == chars.len() {
            assert(chars@.skip(start as int) == Seq::<char>::empty());
            assert(lines(Seq::<char>::empty()) == Seq::<Seq<char>>::empty());
            assert(left == Seq::<Seq<char>>::empty());
            assert(texts(names@) == all);
        } else {
            assert(texts(names@).len() == limit);
            assert(all.take(limit as int) == texts(names@));
        }
        lemma_listing_bounds(text@, limit as nat);
        assert forall|i: int| 0 <= i < names.len() implies names[i]@.len() > 0 by {
            assert(texts(names@)[i] == names[i]@);
        }
    }
    names
}

/// The arguments with which the tool lists the local branches, the one
/// changed last first, as many as a listing holds.
pub fn list_branches_args() -> (args: Vec<String>)
    ensures
        texts(args@) == seq![
            "for-each-ref"@,
            "--count=20"@,
            "--sort=-committerdate"@,
            "refs/heads/"@,
            "--format=%(refname:short)"@,
        ],
{
    let mut args: Vec<String> = Vec::new();
    args.push(String::from_str("for-each-ref"));
    args.push(String::from_str("--count=20"));
    args.push(String::from_str("--sort=-committerdate"));
    args.push(String::from_str("refs/heads/"));
    args.push(String::from_str("--format=%(refname:short)"));
    args
}

/// The arguments with which the tool names the branch that is checked out.
pub fn current_branch_args() -> (args: Vec<String>)
    ensures
        texts(args@) == seq!["rev-parse"@, "--abbrev-ref"@, "HEAD"@],
{
    let mut args: Vec<String> = Vec::new();
    args.push(String::from_str("rev-parse"));
    args.push(String::from_str("--abbrev-ref"));
    args.push(String::from_str("HEAD"));
    args
}

/// The arguments with which the tool checks out `branch_name`.
pub fn checkout_args(branch_name: &str) -> (args: Vec<String>)
    ensures
        texts(args@) == seq!["checkout"@, branch_name@],
{
    let mut args: Vec<String> = Vec::new();
    args.push(String::from_str("checkout"));
    args.push(String::from_str(branch_name));
    args
}

/// Reads the answer to a listing request: the recent branches, the one
/// changed last first. `run` is what the tool left behind, or `None` where it
/// could not be started. Whether the tool reported success is not looked
/// at: whatever it printed is read.
pub fn git_read_branches(run: Option<ToolOutput>) -> (r: Result<Vec<String>, PickerError>)
    ensures
        match r {
            Ok(names) => {
                &&& run matches Some(output)
                &&& valid_utf8(output.stdout@)
                &&& texts(names@) == listing(
                    decode_utf8(output.stdout@),
                    RECENT_BRANCH_LIMIT as nat,
                )
                &&& names.len() <= RECENT_BRANCH_LIMIT
                &&& forall|i: int| 0 <= i < names.len() ==> names[i]@.len() > 0
            },
            Err(PickerError::ToolInvocation) => run is None,
            Err(PickerError::Decoding) => run matches Some(output) && !valid_utf8(output.stdout@),
            Err(_) => false,
        },
{
    match run {
        Some(output) => match decode(output.stdout) {
            Ok(text) => Ok(branch_listing(text.as_str(), RECENT_BRANCH_LIMIT)),
            Err(e) => Err(e),
        },
        None => Err(PickerError::ToolInvocation),
    }
}

/// Reads the answer to the request for the current branch: its name,
/// without the white space around it. `run` is what the tool left behind, or
/// `None` where it could not be started. Where the tool reported failure,
/// the error holds what it wrote to its error stream.
pub fn git_read_current_branch(run: Option<ToolOutput>) -> (r: Result<String, PickerError>)
    ensures
        match r {
            Ok(name) => {
                &&& run matches Some(output)
                &&& output.success
                &&& valid_utf8(output.stdout@)
                &&& name@ == trimmed(decode_utf8(output.stdout@))
            },
            Err(PickerError::ToolInvocation) => run is None,
            Err(PickerError::ToolExecution(text)) => {
                &&& run matches Some(output)
                &&& !output.success
                &&& valid_utf8(output.stderr@)
                &&& text@ == decode_utf8(output.stderr@)
            },
            Err(PickerError::Decoding) => {
                &&& run matches Some(output)
                &&& if output.success {
                    !valid_utf8(output.stdout@)
                } else {
                    !valid_utf8(output.stderr@)
                }
            },
            Err(_) => false,
        },
{
    match run {
        Some(output) => {
            if output.success {
                match decode(output.stdout) {
                    Ok(text) => Ok(trim(text.as_str())),
                    Err(e) => Err(e),
                }
            } else {
                match decode(output.stderr) {
                    Ok(text) => Err(PickerError::ToolExecution(text)),
                    Err(e) => Err(e),
                }
            }
        },
        None => Err(PickerError::ToolInvocation),
    }
}

/// Reads the answer to a checkout request: everything the tool printed, its
/// standard output first and its error stream after it. `run` is what the
/// tool left behind, or `None` where it could not be started. The tool
/// reports some successes on its error stream, so both streams are shown
/// whatever it reported.
pub fn git_checkout(run: Option<ToolOutput>) -> (r: Result<String, PickerError>)
    ensures
        match r {
            Ok(text) => {
                &&& run matches Some(output)
                &&& valid_utf8(output.stdout@ + output.stderr@)
                &&& text@ == decode_utf8(output.stdout@ + output.stderr@)
            },
            Err(PickerError::ToolInvocation) => run is None,
            Err(PickerError::Decoding) => run matches Some(output) && !valid_utf8(
                output.stdout@ + output.stderr@,
            ),
            Err(_) => false,
        },
        run matches Some(output) ==> (valid_utf8(output.stdout@) && valid_utf8(output.stderr@)
            ==> r is Ok && r->Ok_0@ == decode_utf8(output.stdout@) + decode_utf8(
            output.stderr@,
        )),
{
    match run {
        Some(output) => {
            let mut all = output.stdout;
            let mut tail = output.stderr;
            proof {
                if valid_utf8(all@) && valid_utf8(tail@) {
                    lemma_decode_concat(all@, tail@);
                }
            }
            all.append(&mut tail);
            decode(all)
        },
        None => Err(PickerError::ToolInvocation),
    }
}

} // verus!
