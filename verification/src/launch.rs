//! Invocation identity, the delegate's exit-code mapping, and the per-alias
//! decisions of the symlink installer.
use vstd::prelude::*;

verus! {

use crate::text::{last_index, lemma_last_index, range_to_string, rfind_char, str_chars, str_eq};

/// The tool family an invocation name selects.
#[derive(Clone, Copy, Debug, PartialEq, Eq, Structural)]
pub enum ToolKind {
    /// The Maven launcher path.
    Maven,
    /// The Gradle launcher path.
    Gradle,
    /// The launcher's own command-line interface.
    Javabox,
}

/// The fixed alias table: which tool family a bare invocation name selects.
pub open spec fn alias_tool(name: Seq<char>) -> Option<ToolKind> {
    if name == "mvn"@ || name == "mvnw"@ {
        Some(ToolKind::Maven)
    } else if name == "gradle"@ || name == "gradlew"@ {
        Some(ToolKind::Gradle)
    } else if name == "javabox"@ || name == "javabox.exe"@ {
        Some(ToolKind::Javabox)
    } else {
        None
    }
}

/// Maps a bare invocation name to its tool family. An unknown name yields
/// nothing and must be treated as a fatal configuration error by the caller.
pub fn tool_for_alias(name: &str) -> (r: Option<ToolKind>)
    ensures
        r == alias_tool(name@),
{
    if str_eq(name, "mvn") || str_eq(name, "mvnw") {
        Some(ToolKind::Maven)
    } else if str_eq(name, "gradle") || str_eq(name, "gradlew") {
        Some(ToolKind::Gradle)
    } else if str_eq(name, "javabox") || str_eq(name, "javabox.exe") {
        Some(ToolKind::Javabox)
    } else {
        None
    }
}

/// The final segment of a path: what follows the last path separator,
/// `/` or `\`, or the whole string when it has neither.
pub open spec fn base_name_spec(path: Seq<char>) -> Seq<char> {
    let fwd = last_index(path, '/');
    let back = last_index(path, '\\');
    let sep = if fwd >= back {
        fwd
    } else {
        back
    };
    path.skip(sep + 1)
}

/// Strips any directory prefix from the zeroth process argument.
pub fn base_name(path: &str) -> (r: String)
    ensures
        r@ == base_name_spec(path@),
{
    let chars = str_chars(path);
    let n = chars.len();
    proof {
        lemma_last_index(path@, '/');
        lemma_last_index(path@, '\\');
    }
    let fwd = rfind_char(&chars, '/');
    let back = rfind_char(&chars, '\\');
    let start: usize = match (fwd, back) {
        (None, None) => 0,
        (Some(i), None) => i + 1,
        (None, Some(j)) => j + 1,
        (Some(i), Some(j)) => if i >= j {
            i + 1
        } else {
            j + 1
        },
    };
    let r = range_to_string(&chars, start, n);
    proof {
        assert(chars@.subrange(start as int, n as int) =~= base_name_spec(path@));
    }
    r
}

/// The aliases the installer manages, one symlink each.
pub fn aliases() -> (v: Vec<&'static str>)
    ensures
        v@.len() == 5,
        v@[0]@ == "mvn"@,
        v@[1]@ == "mvnw"@,
        v@[2]@ == "gradle"@,
        v@[3]@ == "gradlew"@,
        v@[4]@ == "javabox"@,
{
    let mut v: Vec<&'static str> = Vec::new();
    v.push("mvn");
    v.push("mvnw");
    v.push("gradle");
    v.push("gradlew");
    v.push("javabox");
    v
}

/// How a delegated run can fail without an exit code.
#[derive(Debug, PartialEq, Eq, Structural)]
pub enum DelegateError {
    /// The child was killed by a signal: no exit code exists, and the
    /// condition is reported apart from any normal exit.
    Interrupted,
}

/// Maps a child's exit status: a normal exit passes its code through
/// unchanged, and termination by signal is a distinct condition.
pub fn exit_outcome(code: Option<i32>) -> (r: Result<i32, DelegateError>)
    ensures
        code matches Some(c) ==> r == Ok::<i32, DelegateError>(c),
        code is None ==> r == Err::<i32, DelegateError>(DelegateError::Interrupted),
{
    match code {
        Some(c) => Ok(c),
        None => Err(DelegateError::Interrupted),
    }
}

/// What the installer does for one alias.
#[derive(Debug, PartialEq, Eq, Structural)]
pub enum InstallAction {
    /// Nothing exists under the alias: create the symlink.
    Create,
    /// The path is the launcher executable itself: leave it.
    SkipSelf,
    /// Something exists and overwriting was not forced: leave it.
    SkipExisting,
    /// Something exists and overwriting was forced: replace it.
    Replace,
}

/// Decides what to do for one alias path when installing symlinks.
pub fn install_action(exists: bool, is_self: bool, force: bool) -> (r: InstallAction)
    ensures
        !exists ==> r == InstallAction::Create,
        exists && is_self ==> r == InstallAction::SkipSelf,
        exists && !is_self && !force ==> r == InstallAction::SkipExisting,
        exists && !is_self && force ==> r == InstallAction::Replace,
{
    if !exists {
        InstallAction::Create
    } else if is_self {
        InstallAction::SkipSelf
    } else if !force {
        InstallAction::SkipExisting
    } else {
        InstallAction::Replace
    }
}

/// What the uninstaller does for one alias.
#[derive(Debug, PartialEq, Eq, Structural)]
pub enum UninstallAction {
    /// Nothing exists under the alias: report and move on.
    SkipMissing,
    /// The path is the launcher executable itself: leave it.
    SkipSelf,
    /// The path is no symlink: not ours, leave it.
    SkipNotSymlink,
    /// The symlink points elsewhere: not ours, leave it.
    SkipForeign,
    /// The launcher's own symlink: remove it.
    Remove,
}

/// Decides what to do for one alias path when removing symlinks: only a
/// symlink that points at the launcher itself is removed.
pub fn uninstall_action(exists: bool, is_self: bool, is_symlink: bool, points_to_self: bool) -> (r:
    UninstallAction)
    ensures
        !exists ==> r == UninstallAction::SkipMissing,
        exists && is_self ==> r == UninstallAction::SkipSelf,
        exists && !is_self && !is_symlink ==> r == UninstallAction::SkipNotSymlink,
        exists && !is_self && is_symlink && !points_to_self ==> r == UninstallAction::SkipForeign,
        exists && !is_self && is_symlink && points_to_self ==> r == UninstallAction::Remove,
{
    if !exists {
        UninstallAction::SkipMissing
    } else if is_self {
        UninstallAction::SkipSelf
    } else if !is_symlink {
        UninstallAction::SkipNotSymlink
    } else if !points_to_self {
        UninstallAction::SkipForeign
    } else {
        UninstallAction::Remove
    }
}

} // verus!
