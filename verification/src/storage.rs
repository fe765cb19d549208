//! Files and directories that only their owner may read.

use vstd::prelude::*;

verus! {

/// The permissions of a directory: the owner's alone.
pub const PRIVATE_DIR_MODE: u32 = 448;

/// The permissions of a file: the owner's alone, and not to be run.
pub const PRIVATE_FILE_MODE: u32 = 384;

/// What stands at a path, links not followed.
#[derive(Debug, Clone, Copy, PartialEq, Eq, Structural)]
pub enum PathKind {
    Missing,
    Link,
    Directory,
    File,
    Other,
}

/// Why a path cannot be used, in words.
pub open spec fn refusal(label: Seq<char>, path: Seq<char>, reason: Seq<char>) -> Seq<char> {
    "Refusing to use "@ + label + " "@ + path + ": "@ + reason
}

/// Why a path cannot be used for something that is to be of a kind, where it cannot: a link is
/// refused whatever it leads to, and nothing at all is no hindrance.
pub open spec fn path_refusal(
    kind: PathKind,
    wanted: PathKind,
    label: Seq<char>,
    path: Seq<char>,
    expected: Seq<char>,
) -> Option<Seq<char>> {
    if kind == PathKind::Missing || kind == wanted {
        None
    } else if kind == PathKind::Link {
        Some(refusal(label, path, "symlink is not allowed"@))
    } else {
        Some(refusal(label, path, expected))
    }
}

fn refuse(label: &str, path: &str, reason: &str) -> (r: String)
    ensures
        r@ == refusal(label@, path@, reason@),
{
    let mut text = "Refusing to use ".to_owned();
    text.append(label);
    text.append(" ");
    text.append(path);
    text.append(": ");
    text.append(reason);
    text
}

/// Tests whether a path can be used for a directory.
pub fn ensure_directory_not_symlink(kind: PathKind, label: &str, path: &str) -> (r: Result<
    (),
    String,
>)
    ensures
        match r {
            Ok(()) => path_refusal(
                kind,
                PathKind::Directory,
                label@,
                path@,
                "expected directory"@,
            ) is None,
            Err(message) => path_refusal(
                kind,
                PathKind::Directory,
                label@,
                path@,
                "expected directory"@,
            ) == Some(message@),
        },
{
    match kind {
        PathKind::Missing | PathKind::Directory => Ok(()),
        PathKind::Link => Err(refuse(label, path, "symlink is not allowed")),
        _ => Err(refuse(label, path, "expected directory")),
    }
}

/// Tests whether a path can be used for a file.
pub fn ensure_regular_file_or_missing(kind: PathKind, label: &str, path: &str) -> (r: Result<
    (),
    String,
>)
    ensures
        match r {
            Ok(()) => path_refusal(
                kind,
                PathKind::File,
                label@,
                path@,
                "expected regular file"@,
            ) is None,
            Err(message) => path_refusal(
                kind,
                PathKind::File,
                label@,
                path@,
                "expected regular file"@,
            ) == Some(message@),
        },
{
    match kind {
        PathKind::Missing | PathKind::File => Ok(()),
        PathKind::Link => Err(refuse(label, path, "symlink is not allowed")),
        _ => Err(refuse(label, path, "expected regular file")),
    }
}

/// Tests whether the permissions of a file that exists are to be set.
pub fn enforce_private_file_if_exists(kind: PathKind, path: &str) -> (r: Result<bool, String>)
    ensures
        match r {
            Ok(set) => path_refusal(
                kind,
                PathKind::File,
                "file"@,
                path@,
                "expected regular file"@,
            ) is None && set == (kind == PathKind::File),
            Err(message) => path_refusal(
                kind,
                PathKind::File,
                "file"@,
                path@,
                "expected regular file"@,
            ) == Some(message@),
        },
{
    match ensure_regular_file_or_missing(kind, "file", path) {
        Ok(()) => Ok(kind == PathKind::File),
        Err(message) => Err(message),
    }
}

/// Why a file of the cache cannot be removed, where it cannot.
pub open spec fn removal_refusal(kind: PathKind, path: Seq<char>) -> Option<Seq<char>> {
    match kind {
        PathKind::Missing | PathKind::File => None,
        PathKind::Link => Some(
            "Refusing to rebuild cache: symlink is not allowed ("@ + path + ")"@,
        ),
        _ => Some("Refusing to rebuild cache: expected regular file ("@ + path + ")"@),
    }
}

/// Tests whether a file of the cache is there to be removed.
pub fn clear_scan_cache_file(kind: PathKind, path: &str) -> (r: Result<bool, String>)
    ensures
        match r {
            Ok(remove) => removal_refusal(kind, path@) is None && remove == (kind
                == PathKind::File),
            Err(message) => removal_refusal(kind, path@) == Some(message@),
        },
{
    let mut message = match kind {
        PathKind::Missing => {
            return Ok(false);
        },
        PathKind::File => {
            return Ok(true);
        },
        PathKind::Link => "Refusing to rebuild cache: symlink is not allowed (".to_owned(),
        _ => "Refusing to rebuild cache: expected regular file (".to_owned(),
    };
    message.append(path);
    message.append(")");
    Err(message)
}

/// A link is never written through or removed: whatever it leads to, it serves neither as a file nor
/// as a directory.
pub proof fn links_are_refused(label: Seq<char>, path: Seq<char>, expected: Seq<char>)
    ensures
        path_refusal(PathKind::Link, PathKind::File, label, path, expected) is Some,
        path_refusal(PathKind::Link, PathKind::Directory, label, path, expected) is Some,
        removal_refusal(PathKind::Link, path) is Some,
{
}

} // verus!
