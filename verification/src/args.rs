//! The supervisor's configuration as delivered on the command line, and the
//! resolution of the user-supplied executable path into a working directory
//! and an executable file name.
//!
//! The caller canonicalizes the user-supplied path (an operating-system
//! concern) and hands the resulting absolute path in here as bytes, with `/`
//! separating the components. Resolution then splits off the last component
//! and accepts it as the executable's name only when it carries a file
//! extension; a path without one is a fatal misconfiguration.

use vstd::prelude::*;

use crate::bytes::copy_range;

verus! {

/// The byte that separates path components in a canonical path.
pub const SEPARATOR: u8 = 47;

/// The byte that separates a file name's stem from its extension.
pub const DOT: u8 = 46;

/// The command-line options, already parsed and defaulted: the executable
/// path and the five supervision settings. All delays are in milliseconds;
/// zero means "disabled" for the force-restart delay and "no pause" for the
/// other two.
#[derive(Debug)]
pub struct CommandLineArguments {
    pub path: String,
    pub watch_files: bool,
    pub only_non_zero_exit: bool,
    pub restart_delay: u64,
    pub recheck_delay: u64,
    pub force_restart_delay: u64,
}

/// Why a canonical executable path was rejected.
#[derive(Clone, Copy, PartialEq, Eq, Structural, Debug)]
pub enum PathError {
    /// The path holds no separator at all, so no parent directory can be
    /// split off.
    NoParentDirectory,
    /// The last component has no file extension, so it is not recognized as
    /// an executable name.
    NoExecutableName,
}

/// A canonical executable path split into the child's working directory and
/// the executable's file name within it.
pub struct ResolvedPath {
    pub directory: Vec<u8>,
    pub file_name: Vec<u8>,
}

/// Whether the path holds at least one component separator.
pub open spec fn has_separator(p: Seq<u8>) -> bool {
    exists|i: int| 0 <= i < p.len() && p[i] == SEPARATOR
}

/// The index of the last separator in `p`, or `-1` when there is none.
pub open spec fn last_separator(p: Seq<u8>) -> int
    decreases p.len(),
{
    if p.len() == 0 {
        -1
    } else if p[p.len() - 1] == SEPARATOR {
        p.len() - 1
    } else {
        last_separator(p.drop_last())
    }
}

/// The file-name part of `p`: everything after the last separator.
pub open spec fn file_name_of(p: Seq<u8>) -> Seq<u8> {
    p.subrange(last_separator(p) + 1, p.len() as int)
}

/// The directory part of `p`: everything before the last separator, except
/// that a file directly under the root keeps the root itself as directory.
pub open spec fn directory_of(p: Seq<u8>) -> Seq<u8> {
    if last_separator(p) == 0 {
        p.subrange(0, 1)
    } else {
        p.subrange(0, last_separator(p))
    }
}

/// Whether a file name carries an extension: a dot after a non-empty stem.
/// A leading dot alone (a hidden file) is not an extension.
pub open spec fn name_has_extension(name: Seq<u8>) -> bool {
    exists|i: int| 1 <= i < name.len() && name[i] == DOT
}

/// A separator at `j` with none after it is the last one.
proof fn lemma_last_separator_at(p: Seq<u8>, j: int)
    requires
        0 <= j < p.len(),
        p[j] == SEPARATOR,
        forall|k: int| j < k < p.len() ==> p[k] != SEPARATOR,
    ensures
        last_separator(p) == j,
    decreases p.len(),
{
    if j < p.len() - 1 {
        lemma_last_separator_at(p.drop_last(), j);
    }
}

/// A path without separators has no last separator.
proof fn lemma_no_separator(p: Seq<u8>)
    requires
        forall|k: int| 0 <= k < p.len() ==> p[k] != SEPARATOR,
    ensures
        last_separator(p) == -1,
    decreases p.len(),
{
    if p.len() > 0 {
        lemma_no_separator(p.drop_last());
    }
}

/// The index of the last separator byte in `p`, or `None` when `p` holds no
/// separator.
fn find_last_separator(p: &Vec<u8>) -> (r: Option<usize>)
    ensures
        match r {
            Some(j) => j < p@.len() && p@[j as int] == SEPARATOR && j == last_separator(p@),
            None => !has_separator(p@) && last_separator(p@) == -1,
        },
{
    let mut i: usize = p.len();
    while i > 0
        invariant
            i <= p@.len(),
            forall|k: int| i <= k < p@.len() ==> p@[k] != SEPARATOR,
        decreases i,
    {
        i = i - 1;
        if p[i] == SEPARATOR {
            proof {
                lemma_last_separator_at(p@, i as int);
            }
            return Some(i);
        }
    }
    proof {
        lemma_no_separator(p@);
    }
    None
}

/// Whether `name` carries a file extension: a dot at any position after the
/// first byte.
pub fn has_extension(name: &Vec<u8>) -> (b: bool)
    ensures
        b == name_has_extension(name@),
{
    let mut i: usize = 1;
    while i < name.len()
        invariant
            1 <= i,
            forall|k: int| 1 <= k < i ==> name@[k] != DOT,
        decreases name@.len() - i,
    {
        if name[i] == DOT {
            return true;
        }
        i = i + 1;
    }
    false
}

/// Split a canonical executable path into the child's working directory and
/// the executable's file name, mirroring how the last path component is
/// popped off its parent. The path is rejected when it has no separator to
/// split at, or when its last component carries no file extension and so
/// cannot be recognized as an executable name.
pub fn split_executable_path(p: &Vec<u8>) -> (r: Result<ResolvedPath, PathError>)
    ensures
        match r {
            Ok(rp) => {
                &&& has_separator(p@)
                &&& name_has_extension(file_name_of(p@))
                &&& rp.directory@ == directory_of(p@)
                &&& rp.file_name@ == file_name_of(p@)
            },
            Err(PathError::NoParentDirectory) => !has_separator(p@),
            Err(PathError::NoExecutableName) => has_separator(p@) && !name_has_extension(
                file_name_of(p@),
            ),
        },
{
    let j = match find_last_separator(p) {
        None => {
            return Err(PathError::NoParentDirectory);
        },
        Some(j) => j,
    };
    assert(has_separator(p@));
    let n = p.len();
    assert(j < n);
    let file_name = copy_range(p, j + 1, n);
    if !has_extension(&file_name) {
        return Err(PathError::NoExecutableName);
    }
    let directory = if j == 0 {
        copy_range(p, 0, 1)
    } else {
        copy_range(p, 0, j)
    };
    Ok(ResolvedPath { directory, file_name })
}

} // verus!
