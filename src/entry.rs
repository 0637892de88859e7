//! Archive entries, the failures of an extraction, and the plan of actions
//! that writes one entry into the destination tree.
use vstd::prelude::*;
use crate::paths::{copy_bytes, destination, destination_of, parent_destination, parent_destination_of};

verus! {

/// Mode of an extracted regular file, and the mode requested for an
/// extracted symbolic link: owner read/write, group and others read.
pub const FILE_MODE: u32 = 0o644;

/// Mode of an extracted directory: owner read/write/execute, group and
/// others read/execute.
pub const DIR_MODE: u32 = 0o755;

/// What an archive entry is.
#[derive(Clone, Debug, PartialEq, Eq)]
pub enum EntryKind {
    /// A regular file of `size` bytes.
    File { size: u64 },
    Directory,
    /// A symbolic link; `target` is stored as is, never resolved.
    Symlink { target: Vec<u8> },
    CharDevice,
    BlockDevice,
    NamedPipe,
    Socket,
}

/// One item of the archive: an absolute slash-separated path and its kind.
#[derive(Clone, Debug, PartialEq, Eq)]
pub struct Entry {
    pub path: Vec<u8>,
    pub kind: EntryKind,
}

/// How the selected entries are scheduled.
#[derive(Clone, Copy, Debug, PartialEq, Eq, Structural)]
pub enum Strategy {
    /// A pool of worker threads; files, directories and symbolic links.
    Parallel,
    /// Cooperative tasks on one scheduler; regular files only.
    Concurrent,
}

/// The operation that failed.
#[derive(Clone, Copy, Debug, PartialEq, Eq, Structural)]
pub enum ErrorKind {
    ArchiveNotFound,
    ArchiveOpenFailed,
    ArchiveDecodeFailed,
    DirectoryCreateFailed,
    FileCreateFailed,
    ContentCopyFailed,
    PermissionSetFailed,
    SymlinkCreateFailed,
    UnsupportedEntryKind,
}

/// A failure of extraction: the operation, and the destination or archive
/// path it concerned.
#[derive(Clone, Debug, PartialEq, Eq)]
pub struct ExtractError {
    pub kind: ErrorKind,
    pub path: Vec<u8>,
}

impl ExtractError {
    /// A failure of `kind` at `path`.
    pub fn new(kind: ErrorKind, path: Vec<u8>) -> (r: ExtractError)
        ensures
            r.kind == kind,
            r.path == path,
    {
        ExtractError { kind, path }
    }
}

/// One filesystem action of a plan. Paths are destination paths.
#[derive(Clone, Debug, PartialEq, Eq)]
pub enum Action {
    /// Create the directory and every missing one above it; an existing
    /// directory is no error.
    CreateDirAll { path: Vec<u8> },
    /// Create the file and copy the entry's content into it verbatim.
    WriteFile { path: Vec<u8>, size: u64 },
    /// Set the mode bits of the file or directory.
    SetMode { path: Vec<u8>, mode: u32 },
    /// Create a symbolic link at `link` whose target is `target`, exactly.
    Symlink { target: Vec<u8>, link: Vec<u8> },
    /// Ask for the link's own mode bits to be set, without following it.
    /// Some filesystems ignore mode bits on links: the request then
    /// succeeds without effect.
    SetLinkMode { link: Vec<u8>, mode: u32 },
}

/// Whether `strategy` can write an entry of `kind`.
pub open spec fn supports(strategy: Strategy, kind: EntryKind) -> bool {
    match kind {
        EntryKind::File { .. } => true,
        EntryKind::Directory | EntryKind::Symlink { .. } => strategy == Strategy::Parallel,
        _ => false,
    }
}

/// `a` creates the directory chain up to `p`.
pub open spec fn is_create_dir_all(a: Action, p: Seq<u8>) -> bool {
    match a {
        Action::CreateDirAll { path } => path@ == p,
        _ => false,
    }
}

/// `a` writes the `n` bytes of an entry's content to a new file at `p`.
pub open spec fn is_write_file(a: Action, p: Seq<u8>, n: u64) -> bool {
    match a {
        Action::WriteFile { path, size } => path@ == p && size == n,
        _ => false,
    }
}

/// `a` sets the mode of `p` to `m`.
pub open spec fn is_set_mode(a: Action, p: Seq<u8>, m: u32) -> bool {
    match a {
        Action::SetMode { path, mode } => path@ == p && mode == m,
        _ => false,
    }
}

/// `a` links `p` to the target `t`.
pub open spec fn is_symlink(a: Action, t: Seq<u8>, p: Seq<u8>) -> bool {
    match a {
        Action::Symlink { target, link } => target@ == t && link@ == p,
        _ => false,
    }
}

/// `a` asks for the link at `p` to get mode `m`.
pub open spec fn is_set_link_mode(a: Action, p: Seq<u8>, m: u32) -> bool {
    match a {
        Action::SetLinkMode { link, mode } => link@ == p && mode == m,
        _ => false,
    }
}

/// `plan` is what writes `entry` under `root`: first the parent directory
/// chain, then the kind's own steps.
pub open spec fn is_plan_of(root: Seq<u8>, entry: Entry, plan: Seq<Action>) -> bool {
    let dest = destination(root, entry.path@);
    &&& plan.len() == 3
    &&& is_create_dir_all(plan[0], parent_destination(root, entry.path@))
    &&& match entry.kind {
        EntryKind::File { size } => is_write_file(plan[1], dest, size) && is_set_mode(
            plan[2],
            dest,
            FILE_MODE,
        ),
        EntryKind::Directory => is_create_dir_all(plan[1], dest) && is_set_mode(
            plan[2],
            dest,
            DIR_MODE,
        ),
        EntryKind::Symlink { target } => is_symlink(plan[1], target@, dest) && is_set_link_mode(
            plan[2],
            dest,
            FILE_MODE,
        ),
        _ => false,
    }
}

/// The actions that write `entry` under `root` with `strategy`, or an
/// `UnsupportedEntryKind` error naming the destination when the strategy
/// cannot write that kind (devices, pipes and sockets are never written).
pub fn plan_entry(root: &[u8], entry: &Entry, strategy: Strategy) -> (r: Result<
    Vec<Action>,
    ExtractError,
>)
    ensures
        r.is_ok() == supports(strategy, entry.kind),
        r.is_ok() ==> is_plan_of(root@, *entry, r.unwrap()@),
        r.is_err() ==> r.unwrap_err().kind == ErrorKind::UnsupportedEntryKind
            && r.unwrap_err().path@ == destination(root@, entry.path@),
{
    let dest = destination_of(root, entry.path.as_slice());
    let supported = match &entry.kind {
        EntryKind::File { .. } => true,
        EntryKind::Directory | EntryKind::Symlink { .. } => strategy == Strategy::Parallel,
        _ => false,
    };
    if !supported {
        return Err(ExtractError::new(ErrorKind::UnsupportedEntryKind, dest));
    }
    let parent = parent_destination_of(root, entry.path.as_slice());
    let mut plan: Vec<Action> = Vec::new();
    plan.push(Action::CreateDirAll { path: parent });
    match &entry.kind {
        EntryKind::File { size } => {
            plan.push(Action::WriteFile { path: copy_bytes(dest.as_slice()), size: *size });
            plan.push(Action::SetMode { path: dest, mode: FILE_MODE });
        },
        EntryKind::Directory => {
            plan.push(Action::CreateDirAll { path: copy_bytes(dest.as_slice()) });
            plan.push(Action::SetMode { path: dest, mode: DIR_MODE });
        },
        EntryKind::Symlink { target } => {
            plan.push(
                Action::Symlink { target: copy_bytes(target.as_slice()), link: copy_bytes(dest.as_slice()) },
            );
            plan.push(Action::SetLinkMode { link: dest, mode: FILE_MODE });
        },
        _ => {},
    }
    Ok(plan)
}

} // verus!
