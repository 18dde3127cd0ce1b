use vstd::prelude::*;
use vstd::string::StringExecFns;

use crate::backend::{FileOpenOptions, HostBackend, RawDirEntry, RawMeta};
use crate::config::{ensure_command_allowed, spec_proc_allowed, HostConfig};
use crate::errs::{capability_error, io_error, CapabilityError, CapabilityErrorCode};
use crate::paths::{resolve_child, spec_resolve_child, within_root, ensure_within_workspace,
    ResolveRejection};
use crate::process::{check_spawn_options, process_resource_from_output, read_process_stream,
    spec_spawn_options_rejection, spec_take, to_exit_status, ExitStatus, ProcessResource,
    SpawnOptions, StreamRead};
use crate::resources::{DirHandleResource, FileHandleResource, ResourceEntry};
use crate::table::{Handle, Table, TableError};

verus! {

/// The most capability handles one guest instantiation may hold at once.
pub const MAX_HANDLES: usize = 1024;

/// Translates a resource-table failure into a capability error.
pub fn table_error(err: TableError) -> (r: CapabilityError)
    ensures
        match err {
            TableError::NotPresent | TableError::WrongType => r.code
                == CapabilityErrorCode::InvalidArgument && r.message@ == "invalid handle"@,
            TableError::Full => r.code == CapabilityErrorCode::Limit && r.message@
                == "too many open capability handles"@,
            TableError::HasChildren => r.code == CapabilityErrorCode::Conflict && r.message@
                == "resource has live children"@,
        },
{
    match err {
        TableError::NotPresent | TableError::WrongType => capability_error(
            CapabilityErrorCode::InvalidArgument,
            "invalid handle",
        ),
        TableError::Full => capability_error(
            CapabilityErrorCode::Limit,
            "too many open capability handles",
        ),
        TableError::HasChildren => capability_error(
            CapabilityErrorCode::Conflict,
            "resource has live children",
        ),
    }
}

/// The shape of a failure that came back from the operating system during
/// operation `op`: the kind-mapped code and the op-prefixed message that
/// `io_error` builds, for some OS-reported text.
pub open spec fn spec_io_failure(op: Seq<char>, e: CapabilityError) -> bool {
    &&& (e.code == CapabilityErrorCode::NotFound || e.code == CapabilityErrorCode::Denied
        || e.code == CapabilityErrorCode::Internal)
    &&& exists|t: Seq<char>| e.message@ == op + " failed: "@ + t
}

/// The failure a full resource table reports.
pub open spec fn spec_table_full(e: CapabilityError) -> bool {
    e.code == CapabilityErrorCode::Limit && e.message@ == "too many open capability handles"@
}

/// Every process entry in the table keeps its cursors inside its buffers.
pub open spec fn entries_wf(t: Table<ResourceEntry>) -> bool {
    forall|h: Handle|
        t.valid(h) ==> match #[trigger] t.entry_of(h) {
            ResourceEntry::Process(p) => p.wf(),
            _ => true,
        }
}

/// What one path-accepting operation concludes before any effect happens.
pub enum PathCheck {
    Rejected(CapabilityErrorCode, Seq<char>),
    Accepted(Seq<char>),
}

/// The sandbox decision for resolving `rel` against `base` under `root`:
/// malformed input is rejected outright, then the joined path must stay
/// under the root.
pub open spec fn spec_checked_path(root: Seq<char>, base: Seq<char>, rel: Seq<char>) -> PathCheck {
    match spec_resolve_child(base, rel) {
        Result::Err(ResolveRejection::Absolute) => PathCheck::Rejected(
            CapabilityErrorCode::InvalidArgument,
            "absolute paths are not allowed"@,
        ),
        Result::Err(ResolveRejection::ParentSegment) => PathCheck::Rejected(
            CapabilityErrorCode::InvalidArgument,
            "parent segments are not allowed"@,
        ),
        Result::Ok(p) => if within_root(root, p) {
            PathCheck::Accepted(p)
        } else {
            PathCheck::Rejected(CapabilityErrorCode::Denied, "path escapes workspace root"@)
        },
    }
}

/// Resolves a guest path against a base directory and enforces the sandbox
/// boundary, performing no filesystem operation at all.
pub fn checked_path(root: &str, base: &str, rel: &str) -> (r: Result<String, CapabilityError>)
    ensures
        match spec_checked_path(root@, base@, rel@) {
            PathCheck::Rejected(code, msg) => r matches Result::Err(e) && e.code == code
                && e.message@ == msg,
            PathCheck::Accepted(p) => r matches Result::Ok(s) && s@ == p,
        },
{
    let candidate = match resolve_child(base, rel) {
        Result::Ok(p) => p,
        Result::Err(e) => {
            return Result::Err(e);
        },
    };
    match ensure_within_workspace(root, candidate.as_str()) {
        Result::Ok(()) => Result::Ok(candidate),
        Result::Err(e) => Result::Err(e),
    }
}

/// What kind of filesystem object a directory entry is.
#[derive(Clone, Copy, Debug, PartialEq, Eq, Structural)]
pub enum EntryKind {
    File,
    Directory,
    Symlink,
    Other,
}

/// One entry of a directory listing, as reported to the guest.
#[derive(Clone, Debug)]
pub struct DirEntry {
    pub name: String,
    pub kind: EntryKind,
    pub size_bytes: Option<u64>,
    pub modified_ms: Option<u64>,
}

/// Metadata for a single filesystem entry, as reported to the guest.
#[derive(Clone, Debug)]
pub struct EntryMetadata {
    pub name: String,
    pub kind: EntryKind,
    pub size_bytes: Option<u64>,
    pub modified_ms: Option<u64>,
    pub readonly: bool,
}

/// The entry kind the raw metadata flags describe, file first.
pub open spec fn spec_entry_kind(meta: RawMeta) -> EntryKind {
    if meta.is_file {
        EntryKind::File
    } else if meta.is_dir {
        EntryKind::Directory
    } else if meta.is_symlink {
        EntryKind::Symlink
    } else {
        EntryKind::Other
    }
}

/// Classifies raw metadata flags into an entry kind.
pub fn entry_kind(meta: &RawMeta) -> (r: EntryKind)
    ensures
        r == spec_entry_kind(*meta),
{
    if meta.is_file {
        EntryKind::File
    } else if meta.is_dir {
        EntryKind::Directory
    } else if meta.is_symlink {
        EntryKind::Symlink
    } else {
        EntryKind::Other
    }
}

/// Builds one listing entry from a name and raw metadata.
pub fn metadata_to_entry(entry_name: String, meta: &RawMeta) -> (r: DirEntry)
    ensures
        r.name == entry_name,
        r.kind == spec_entry_kind(*meta),
        r.size_bytes == Some(meta.size_bytes),
        r.modified_ms == meta.modified_ms,
{
    DirEntry {
        name: entry_name,
        kind: entry_kind(meta),
        size_bytes: Some(meta.size_bytes),
        modified_ms: meta.modified_ms,
    }
}

/// Converts whatever raw listing the filesystem reported into the guest's
/// entry shape, entry by entry, in the filesystem's order.
pub fn entries_from_raw(raw: Vec<RawDirEntry>) -> (r: Vec<DirEntry>)
    ensures
        r@.len() == raw@.len(),
        forall|i: int|
            0 <= i < raw@.len() ==> {
                &&& (#[trigger] r@[i]).name == raw@[i].name
                &&& r@[i].kind == spec_entry_kind(raw@[i].meta)
                &&& r@[i].size_bytes == Some(raw@[i].meta.size_bytes)
                &&& r@[i].modified_ms == raw@[i].meta.modified_ms
            },
{
    let n = raw.len();
    let mut out: Vec<DirEntry> = Vec::new();
    let mut i: usize = 0;
    while i < n
        invariant
            0 <= i <= n,
            n == raw@.len(),
            out@.len() == i,
            forall|k: int|
                0 <= k < i ==> {
                    &&& (#[trigger] out@[k]).name == raw@[k].name
                    &&& out@[k].kind == spec_entry_kind(raw@[k].meta)
                    &&& out@[k].size_bytes == Some(raw@[k].meta.size_bytes)
                    &&& out@[k].modified_ms == raw@[k].meta.modified_ms
                },
        decreases n - i,
    {
        let name = raw[i].name.clone();
        let entry = metadata_to_entry(name, &raw[i].meta);
        out.push(entry);
        i = i + 1;
    }
    out
}

/// The per-instantiation host state: the immutable run configuration, the
/// resource table, and the backend that performs real effects.
pub struct HostState<B> {
    pub config: HostConfig,
    pub resources: Table<ResourceEntry>,
    pub backend: B,
}

impl<B: HostBackend> HostState<B> {
    /// The state's invariant: a well-formed table of well-formed entries.
    pub open spec fn wf(self) -> bool {
        &&& self.resources.wf()
        &&& entries_wf(self.resources)
    }

    /// A fresh host state with an empty resource table.
    pub fn new(config: HostConfig, backend: B) -> (r: HostState<B>)
        ensures
            r.wf(),
            r.config == config,
            r.resources.contents() == Map::<Handle, ResourceEntry>::empty(),
            forall|h: Handle| !r.resources.valid(h),
    {
        let resources = Table::new(MAX_HANDLES);
        HostState { config, resources, backend }
    }

    /// The path a directory handle stands for; any other handle is refused.
    pub fn dir_path(&self, handle: Handle) -> (r: Result<String, CapabilityError>)
        ensures
            match r {
                Result::Ok(p) => self.resources.valid(handle)
                    && (self.resources.entry_of(handle) matches ResourceEntry::Dir(d)
                    && p == d.path),
                Result::Err(e) => e.code == CapabilityErrorCode::InvalidArgument && e.message@
                    == "invalid handle"@ && !(self.resources.valid(handle)
                    && self.resources.entry_of(handle) matches ResourceEntry::Dir(_)),
            },
    {
        match self.resources.get(handle) {
            Result::Ok(entry) => match entry {
                ResourceEntry::Dir(d) => Result::Ok(d.path.clone()),
                _ => Result::Err(table_error(TableError::WrongType)),
            },
            Result::Err(te) => Result::Err(table_error(te)),
        }
    }

    /// Stores a directory entry and hands out its handle.
    fn insert_dir(&mut self, path: String) -> (r: Result<Handle, CapabilityError>)
        requires
            old(self).wf(),
        ensures
            final(self).wf(),
            final(self).config == old(self).config,
            match r {
                Result::Ok(h) => {
                    &&& !old(self).resources.valid(h)
                    &&& final(self).resources.valid(h)
                    &&& final(self).resources.dependents_of(h) == 0
                    &&& final(self).resources.parent_of(h) is None
                    &&& forall|h2: Handle|
                        h2 != h && old(self).resources.valid(h2) ==> (#[trigger] final(self).resources.dependents_of(h2)) == old(self).resources.dependents_of(h2)
                            && final(self).resources.parent_of(h2) == old(self).resources.parent_of(h2)
                    &&& final(self).resources.contents() == old(self).resources.contents().insert(
                        h,
                        ResourceEntry::Dir(DirHandleResource { path }),
                    )
                },
                Result::Err(e) => {
                    &&& spec_table_full(e)
                    &&& final(self).resources.contents() == old(self).resources.contents()
                    &&& forall|h2: Handle|
                        old(self).resources.valid(h2) ==> (#[trigger] final(self).resources.dependents_of(h2)) == old(self).resources.dependents_of(h2)
                            && final(self).resources.parent_of(h2) == old(self).resources.parent_of(h2)
                },
            },
    {
        let ghost pre = self.resources;
        let r = self.resources.insert(ResourceEntry::Dir(DirHandleResource { path }));
        match r {
            Result::Ok(h) => {
                proof {
                    assert forall|h2: Handle| self.resources.valid(h2) implies match self
                        .resources.entry_of(h2) {
                        ResourceEntry::Process(p) => p.wf(),
                        _ => true,
                    } by {
                        if h2 != h {
                            assert(pre.valid(h2));
                            assert(self.resources.entry_of(h2) == pre.entry_of(h2));
                        }
                    }
                    assert forall|h2: Handle| h2 != h && pre.valid(h2) implies (#[trigger] self
                        .resources.dependents_of(h2)) == pre.dependents_of(h2)
                        && self.resources.parent_of(h2) == pre.parent_of(h2) by {
                        assert(self.resources.entry_of(h2) == pre.entry_of(h2));
                    }
                }
                Result::Ok(h)
            },
            Result::Err(te) => {
                proof {
                    assert forall|h2: Handle| pre.valid(h2) implies (#[trigger] self
                        .resources.dependents_of(h2)) == pre.dependents_of(h2)
                        && self.resources.parent_of(h2) == pre.parent_of(h2) by {
                        assert(self.resources.entry_of(h2) == pre.entry_of(h2));
                    }
                }
                Result::Err(table_error(te))
            },
        }
    }

    /// Stores a file entry and hands out its handle.
    fn insert_file(&mut self, entry: FileHandleResource) -> (r: Result<Handle, CapabilityError>)
        requires
            old(self).wf(),
        ensures
            final(self).wf(),
            final(self).config == old(self).config,
            match r {
                Result::Ok(h) => {
                    &&& !old(self).resources.valid(h)
                    &&& final(self).resources.valid(h)
                    &&& final(self).resources.dependents_of(h) == 0
                    &&& final(self).resources.parent_of(h) is None
                    &&& forall|h2: Handle|
                        h2 != h && old(self).resources.valid(h2) ==> (#[trigger] final(self).resources.dependents_of(h2)) == old(self).resources.dependents_of(h2)
                            && final(self).resources.parent_of(h2) == old(self).resources.parent_of(h2)
                    &&& final(self).resources.contents() == old(self).resources.contents().insert(
                        h,
                        ResourceEntry::File(entry),
                    )
                },
                Result::Err(e) => {
                    &&& spec_table_full(e)
                    &&& final(self).resources.contents() == old(self).resources.contents()
                    &&& forall|h2: Handle|
                        old(self).resources.valid(h2) ==> (#[trigger] final(self).resources.dependents_of(h2)) == old(self).resources.dependents_of(h2)
                            && final(self).resources.parent_of(h2) == old(self).resources.parent_of(h2)
                },
            },
    {
        let ghost pre = self.resources;
        let r = self.resources.insert(ResourceEntry::File(entry));
        match r {
            Result::Ok(h) => {
                proof {
                    assert forall|h2: Handle| self.resources.valid(h2) implies match self
                        .resources.entry_of(h2) {
                        ResourceEntry::Process(p) => p.wf(),
                        _ => true,
                    } by {
                        if h2 != h {
                            assert(pre.valid(h2));
                            assert(self.resources.entry_of(h2) == pre.entry_of(h2));
                        }
                    }
                    assert forall|h2: Handle| h2 != h && pre.valid(h2) implies (#[trigger] self
                        .resources.dependents_of(h2)) == pre.dependents_of(h2)
                        && self.resources.parent_of(h2) == pre.parent_of(h2) by {
                        assert(self.resources.entry_of(h2) == pre.entry_of(h2));
                    }
                }
                Result::Ok(h)
            },
            Result::Err(te) => {
                proof {
                    assert forall|h2: Handle| pre.valid(h2) implies (#[trigger] self
                        .resources.dependents_of(h2)) == pre.dependents_of(h2)
                        && self.resources.parent_of(h2) == pre.parent_of(h2) by {
                        assert(self.resources.entry_of(h2) == pre.entry_of(h2));
                    }
                }
                Result::Err(table_error(te))
            },
        }
    }

    /// Stores a finished process record and hands out its handle.
    fn insert_process(&mut self, process: ProcessResource) -> (r: Result<Handle, CapabilityError>)
        requires
            old(self).wf(),
            process.wf(),
        ensures
            final(self).wf(),
            final(self).config == old(self).config,
            match r {
                Result::Ok(h) => {
                    &&& !old(self).resources.valid(h)
                    &&& final(self).resources.valid(h)
                    &&& final(self).resources.dependents_of(h) == 0
                    &&& final(self).resources.parent_of(h) is None
                    &&& forall|h2: Handle|
                        h2 != h && old(self).resources.valid(h2) ==> (#[trigger] final(self).resources.dependents_of(h2)) == old(self).resources.dependents_of(h2)
                            && final(self).resources.parent_of(h2) == old(self).resources.parent_of(h2)
                    &&& final(self).resources.contents() == old(self).resources.contents().insert(
                        h,
                        ResourceEntry::Process(process),
                    )
                },
                Result::Err(e) => {
                    &&& spec_table_full(e)
                    &&& final(self).resources.contents() == old(self).resources.contents()
                    &&& forall|h2: Handle|
                        old(self).resources.valid(h2) ==> (#[trigger] final(self).resources.dependents_of(h2)) == old(self).resources.dependents_of(h2)
                            && final(self).resources.parent_of(h2) == old(self).resources.parent_of(h2)
                },
            },
    {
        let ghost pre = self.resources;
        let r = self.resources.insert(ResourceEntry::Process(process));
        match r {
            Result::Ok(h) => {
                proof {
                    assert forall|h2: Handle| self.resources.valid(h2) implies match self
                        .resources.entry_of(h2) {
                        ResourceEntry::Process(p) => p.wf(),
                        _ => true,
                    } by {
                        if h2 != h {
                            assert(pre.valid(h2));
                            assert(self.resources.entry_of(h2) == pre.entry_of(h2));
                        }
                    }
                    assert forall|h2: Handle| h2 != h && pre.valid(h2) implies (#[trigger] self
                        .resources.dependents_of(h2)) == pre.dependents_of(h2)
                        && self.resources.parent_of(h2) == pre.parent_of(h2) by {
                        assert(self.resources.entry_of(h2) == pre.entry_of(h2));
                    }
                }
                Result::Ok(h)
            },
            Result::Err(te) => {
                proof {
                    assert forall|h2: Handle| pre.valid(h2) implies (#[trigger] self
                        .resources.dependents_of(h2)) == pre.dependents_of(h2)
                        && self.resources.parent_of(h2) == pre.parent_of(h2) by {
                        assert(self.resources.entry_of(h2) == pre.entry_of(h2));
                    }
                }
                Result::Err(table_error(te))
            },
        }
    }

    /// Deletes whatever entry the handle names, ignoring failures, as the
    /// close path of every capability does.
    pub fn close_handle(&mut self, handle: Handle)
        requires
            old(self).wf(),
        ensures
            final(self).wf(),
            final(self).config == old(self).config,
            old(self).resources.valid(handle) && old(self).resources.dependents_of(handle) == 0
                ==> final(self).resources.contents() == old(self).resources.contents().remove(
                handle,
            ) && !final(self).resources.valid(handle) && final(self).resources.retired(handle),
            !(old(self).resources.valid(handle) && old(self).resources.dependents_of(handle) == 0)
                ==> final(self).resources.contents() == old(self).resources.contents(),
            old(self).resources.valid(handle) && old(self).resources.parent_of(handle) is None
                ==> forall|h2: Handle|
                h2 != handle && old(self).resources.valid(h2) ==> (#[trigger] final(self).resources.dependents_of(h2)) == old(self).resources.dependents_of(h2) && final(self).resources.parent_of(h2) == old(self).resources.parent_of(h2),
            !old(self).resources.valid(handle) ==> forall|h2: Handle|
                old(self).resources.valid(h2) ==> (#[trigger] final(self).resources.dependents_of(
                    h2,
                )) == old(self).resources.dependents_of(h2) && final(self).resources.parent_of(h2)
                    == old(self).resources.parent_of(h2),
    {
        let ghost pre = self.resources;
        let r = self.resources.delete(handle);
        proof {
            assert forall|h2: Handle| self.resources.valid(h2) implies match self
                .resources.entry_of(h2) {
                ResourceEntry::Process(p) => p.wf(),
                _ => true,
            } by {
                assert(pre.valid(h2));
                if r is Ok {
                    assert(h2 != handle);
                    assert(self.resources.entry_of(h2) == pre.entry_of(h2));
                } else {
                    assert(self.resources.entry_of(h2) == pre.entry_of(h2));
                }
            }
            if pre.valid(handle) && pre.parent_of(handle) is None {
                assert forall|h2: Handle| h2 != handle && pre.valid(h2) implies (#[trigger] self
                    .resources.dependents_of(h2)) == pre.dependents_of(h2)
                    && self.resources.parent_of(h2) == pre.parent_of(h2) by {
                    assert(self.resources.entry_of(h2) == pre.entry_of(h2));
                    assert(self.resources.dependents_of(h2) == pre.dependents_of(h2));
                }
            }
            if !pre.valid(handle) {
                assert forall|h2: Handle| pre.valid(h2) implies (#[trigger] self
                    .resources.dependents_of(h2)) == pre.dependents_of(h2)
                    && self.resources.parent_of(h2) == pre.parent_of(h2) by {
                    assert(self.resources.entry_of(h2) == pre.entry_of(h2));
                }
            }
        }
    }

    /// The path a valid directory handle stands for, at the spec level.
    pub open spec fn spec_dir_base(self, parent: Handle) -> Option<Seq<char>> {
        if self.resources.valid(parent) {
            match self.resources.entry_of(parent) {
                ResourceEntry::Dir(d) => Some(d.path@),
                _ => None,
            }
        } else {
            None
        }
    }

    /// Opens an existing directory under a parent directory handle: the
    /// relative path is resolved and sandbox-checked before the filesystem
    /// is consulted, and the target must be a directory.
    pub fn open_dir(&mut self, parent: Handle, relative_path: String) -> (r: Result<
        Handle,
        CapabilityError,
    >)
        requires
            old(self).wf(),
        ensures
            final(self).wf(),
            final(self).config == old(self).config,
            r is Err ==> forall|h2: Handle|
                old(self).resources.valid(h2) ==> (#[trigger] final(self).resources.dependents_of(
                    h2,
                )) == old(self).resources.dependents_of(h2) && final(self).resources.parent_of(h2)
                    == old(self).resources.parent_of(h2),
            (match old(self).spec_dir_base(parent) {
                Some(base) => spec_checked_path(
                    old(self).config.workspace_root@,
                    base,
                    relative_path@,
                ) matches PathCheck::Accepted(_),
                None => false,
            }) ==> (r matches Result::Err(e) ==> (spec_io_failure("fs.open-dir"@, e) || (e.code
                == CapabilityErrorCode::InvalidArgument && e.message@
                == "path is not a directory"@) || spec_table_full(e))),
            match old(self).spec_dir_base(parent) {
                None => (r matches Result::Err(e) && e.code == CapabilityErrorCode::InvalidArgument
                    && e.message@ == "invalid handle"@) && final(self).resources.contents() == old(self).resources.contents(),
                Some(base) => match spec_checked_path(
                    old(self).config.workspace_root@,
                    base,
                    relative_path@,
                ) {
                    PathCheck::Rejected(code, msg) => (r matches Result::Err(e) && e.code == code
                        && e.message@ == msg) && final(self).resources.contents() == old(self).resources.contents(),
                    PathCheck::Accepted(p) => match r {
                        Result::Ok(h) => final(self).resources.valid(h) && !old(self).resources.valid(h)
                            && final(self).resources.dependents_of(h) == 0
                            && final(self).resources.parent_of(h) is None && (forall|h2: Handle|
                            h2 != h && old(self).resources.valid(h2) ==> (#[trigger] final(self).resources.dependents_of(h2))
                                == old(self).resources.dependents_of(h2)
                                && final(self).resources.parent_of(h2) == old(self).resources.parent_of(h2))
                            && (final(self).resources.entry_of(h) matches ResourceEntry::Dir(d)
                            && d.path@ == p) && final(self).resources.contents() == old(self).resources.contents().insert(h, final(self).resources.entry_of(h)),
                        Result::Err(e) => final(self).resources.contents() == old(self).resources.contents(),
                    },
                },
            },
    {
        let base = match self.dir_path(parent) {
            Result::Ok(p) => p,
            Result::Err(e) => {
                return Result::Err(e);
            },
        };
        let root = self.config.workspace_root.clone();
        let candidate = match checked_path(root.as_str(), base.as_str(), relative_path.as_str()) {
            Result::Ok(p) => p,
            Result::Err(e) => {
                return Result::Err(e);
            },
        };
        let meta = match self.backend.path_metadata(candidate.as_str()) {
            Result::Ok(m) => m,
            Result::Err(err) => {
                let e = io_error("fs.open-dir", err);
                proof {
                    assert(spec_io_failure("fs.open-dir"@, e)) by {
                        assert(e.message@ == "fs.open-dir"@ + " failed: "@ + err.text@);
                    }
                }
                return Result::Err(e);
            },
        };
        match ensure_directory(&meta) {
            Result::Ok(()) => (),
            Result::Err(e) => {
                return Result::Err(e);
            },
        }
        match self.insert_dir(candidate) {
            Result::Ok(h) => {
                proof {
                    assert(self.resources.contents()[h] == self.resources.entry_of(h));
                }
                Result::Ok(h)
            },
            Result::Err(e) => Result::Err(e),
        }
    }

    /// Opens a directory under a parent handle, creating it (and any missing
    /// parents) first; the path is resolved and sandbox-checked before the
    /// filesystem is touched.
    pub fn ensure_dir(&mut self, parent: Handle, relative_path: String) -> (r: Result<
        Handle,
        CapabilityError,
    >)
        requires
            old(self).wf(),
        ensures
            final(self).wf(),
            final(self).config == old(self).config,
            r is Err ==> forall|h2: Handle|
                old(self).resources.valid(h2) ==> (#[trigger] final(self).resources.dependents_of(
                    h2,
                )) == old(self).resources.dependents_of(h2) && final(self).resources.parent_of(h2)
                    == old(self).resources.parent_of(h2),
            (match old(self).spec_dir_base(parent) {
                Some(base) => spec_checked_path(
                    old(self).config.workspace_root@,
                    base,
                    relative_path@,
                ) matches PathCheck::Accepted(_),
                None => false,
            }) ==> (r matches Result::Err(e) ==> (spec_io_failure("fs.ensure-dir"@, e)
                || spec_table_full(e))),
            match old(self).spec_dir_base(parent) {
                None => (r matches Result::Err(e) && e.code == CapabilityErrorCode::InvalidArgument
                    && e.message@ == "invalid handle"@) && final(self).resources.contents() == old(self).resources.contents(),
                Some(base) => match spec_checked_path(
                    old(self).config.workspace_root@,
                    base,
                    relative_path@,
                ) {
                    PathCheck::Rejected(code, msg) => (r matches Result::Err(e) && e.code == code
                        && e.message@ == msg) && final(self).resources.contents() == old(self).resources.contents(),
                    PathCheck::Accepted(p) => match r {
                        Result::Ok(h) => final(self).resources.valid(h) && !old(self).resources.valid(h)
                            && final(self).resources.dependents_of(h) == 0
                            && final(self).resources.parent_of(h) is None && (forall|h2: Handle|
                            h2 != h && old(self).resources.valid(h2) ==> (#[trigger] final(self).resources.dependents_of(h2))
                                == old(self).resources.dependents_of(h2)
                                && final(self).resources.parent_of(h2) == old(self).resources.parent_of(h2))
                            && (final(self).resources.entry_of(h) matches ResourceEntry::Dir(d)
                            && d.path@ == p) && final(self).resources.contents() == old(self).resources.contents().insert(h, final(self).resources.entry_of(h)),
                        Result::Err(e) => final(self).resources.contents() == old(self).resources.contents(),
                    },
                },
            },
    {
        let base = match self.dir_path(parent) {
            Result::Ok(p) => p,
            Result::Err(e) => {
                return Result::Err(e);
            },
        };
        let root = self.config.workspace_root.clone();
        let candidate = match checked_path(root.as_str(), base.as_str(), relative_path.as_str()) {
            Result::Ok(p) => p,
            Result::Err(e) => {
                return Result::Err(e);
            },
        };
        match self.backend.create_dir_all(candidate.as_str()) {
            Result::Ok(()) => (),
            Result::Err(err) => {
                let e = io_error("fs.ensure-dir", err);
                proof {
                    assert(spec_io_failure("fs.ensure-dir"@, e)) by {
                        assert(e.message@ == "fs.ensure-dir"@ + " failed: "@ + err.text@);
                    }
                }
                return Result::Err(e);
            },
        }
        match self.insert_dir(candidate) {
            Result::Ok(h) => {
                proof {
                    assert(self.resources.contents()[h] == self.resources.entry_of(h));
                }
                Result::Ok(h)
            },
            Result::Err(e) => Result::Err(e),
        }
    }

    /// Removes a directory under a parent handle; the resource table is
    /// never touched, and the path is validated before the filesystem is.
    pub fn remove_dir(&mut self, parent: Handle, relative_path: String, recursive: bool) -> (r:
        Result<(), CapabilityError>)
        requires
            old(self).wf(),
        ensures
            final(self).wf(),
            final(self).config == old(self).config,
            final(self).resources == old(self).resources,
            match old(self).spec_dir_base(parent) {
                None => r matches Result::Err(e) && e.code == CapabilityErrorCode::InvalidArgument
                    && e.message@ == "invalid handle"@,
                Some(base) => match spec_checked_path(
                    old(self).config.workspace_root@,
                    base,
                    relative_path@,
                ) {
                    PathCheck::Rejected(code, msg) => r matches Result::Err(e) && e.code == code
                        && e.message@ == msg,
                    PathCheck::Accepted(p) => r matches Result::Err(e) ==> spec_io_failure(
                        "fs.remove-dir"@,
                        e,
                    ),
                },
            },
    {
        let base = match self.dir_path(parent) {
            Result::Ok(p) => p,
            Result::Err(e) => {
                return Result::Err(e);
            },
        };
        let root = self.config.workspace_root.clone();
        let target = match checked_path(root.as_str(), base.as_str(), relative_path.as_str()) {
            Result::Ok(p) => p,
            Result::Err(e) => {
                return Result::Err(e);
            },
        };
        match self.backend.remove_dir(target.as_str(), recursive) {
            Result::Ok(()) => Result::Ok(()),
            Result::Err(err) => {
                let e = io_error("fs.remove-dir", err);
                proof {
                    assert(spec_io_failure("fs.remove-dir"@, e)) by {
                        assert(e.message@ == "fs.remove-dir"@ + " failed: "@ + err.text@);
                    }
                }
                Result::Err(e)
            },
        }
    }

    /// Removes a file under a parent handle, with the same validation.
    pub fn remove_file(&mut self, parent: Handle, relative_path: String) -> (r: Result<
        (),
        CapabilityError,
    >)
        requires
            old(self).wf(),
        ensures
            final(self).wf(),
            final(self).config == old(self).config,
            final(self).resources == old(self).resources,
            match old(self).spec_dir_base(parent) {
                None => r matches Result::Err(e) && e.code == CapabilityErrorCode::InvalidArgument
                    && e.message@ == "invalid handle"@,
                Some(base) => match spec_checked_path(
                    old(self).config.workspace_root@,
                    base,
                    relative_path@,
                ) {
                    PathCheck::Rejected(code, msg) => r matches Result::Err(e) && e.code == code
                        && e.message@ == msg,
                    PathCheck::Accepted(p) => r matches Result::Err(e) ==> spec_io_failure(
                        "fs.remove-file"@,
                        e,
                    ),
                },
            },
    {
        let base = match self.dir_path(parent) {
            Result::Ok(p) => p,
            Result::Err(e) => {
                return Result::Err(e);
            },
        };
        let root = self.config.workspace_root.clone();
        let target = match checked_path(root.as_str(), base.as_str(), relative_path.as_str()) {
            Result::Ok(p) => p,
            Result::Err(e) => {
                return Result::Err(e);
            },
        };
        match self.backend.remove_file(target.as_str()) {
            Result::Ok(()) => Result::Ok(()),
            Result::Err(err) => {
                let e = io_error("fs.remove-file", err);
                proof {
                    assert(spec_io_failure("fs.remove-file"@, e)) by {
                        assert(e.message@ == "fs.remove-file"@ + " failed: "@ + err.text@);
                    }
                }
                Result::Err(e)
            },
        }
    }

    /// Renames one sandboxed path to another; the source and the destination
    /// are resolved and checked independently, source first.
    pub fn rename(&mut self, parent: Handle, old_path: String, new_path: String) -> (r: Result<
        (),
        CapabilityError,
    >)
        requires
            old(self).wf(),
        ensures
            final(self).wf(),
            final(self).config == old(self).config,
            final(self).resources == old(self).resources,
            match old(self).spec_dir_base(parent) {
                None => r matches Result::Err(e) && e.code == CapabilityErrorCode::InvalidArgument
                    && e.message@ == "invalid handle"@,
                Some(base) => {
                    let root = old(self).config.workspace_root@;
                    match spec_checked_path(root, base, old_path@) {
                        PathCheck::Rejected(code, msg) => r matches Result::Err(e) && e.code
                            == code && e.message@ == msg,
                        PathCheck::Accepted(p_from) => match spec_checked_path(
                            root,
                            base,
                            new_path@,
                        ) {
                            PathCheck::Rejected(code, msg) => r matches Result::Err(e) && e.code
                                == code && e.message@ == msg,
                            PathCheck::Accepted(p_to) => r matches Result::Err(e)
                                ==> spec_io_failure("fs.rename"@, e),
                        },
                    }
                },
            },
    {
        let base = match self.dir_path(parent) {
            Result::Ok(p) => p,
            Result::Err(e) => {
                return Result::Err(e);
            },
        };
        let root = self.config.workspace_root.clone();
        let from = match checked_path(root.as_str(), base.as_str(), old_path.as_str()) {
            Result::Ok(p) => p,
            Result::Err(e) => {
                return Result::Err(e);
            },
        };
        let to = match checked_path(root.as_str(), base.as_str(), new_path.as_str()) {
            Result::Ok(p) => p,
            Result::Err(e) => {
                return Result::Err(e);
            },
        };
        match self.backend.rename(from.as_str(), to.as_str()) {
            Result::Ok(()) => Result::Ok(()),
            Result::Err(err) => {
                let e = io_error("fs.rename", err);
                proof {
                    assert(spec_io_failure("fs.rename"@, e)) by {
                        assert(e.message@ == "fs.rename"@ + " failed: "@ + err.text@);
                    }
                }
                Result::Err(e)
            },
        }
    }

    /// Opens the workspace root itself as a directory handle.
    #[verifier::rlimit(100)]
    #[verifier::spinoff_prover]
    pub fn open_workspace(&mut self) -> (r: Result<Handle, CapabilityError>)
        requires
            old(self).wf(),
        ensures
            final(self).wf(),
            final(self).config == old(self).config,
            match r {
                Result::Ok(h) => final(self).resources.valid(h) && !old(self).resources.valid(h)
                    && final(self).resources.dependents_of(h) == 0 && final(self).resources.parent_of(h) is None && (forall|h2: Handle|
                    h2 != h && old(self).resources.valid(h2) ==> (#[trigger] final(self).resources.dependents_of(h2)) == old(self).resources.dependents_of(h2)
                        && final(self).resources.parent_of(h2) == old(self).resources.parent_of(
                        h2,
                    )) && final(self).resources.contents()
                    == old(self).resources.contents().insert(
                    h,
                    ResourceEntry::Dir(
                        DirHandleResource { path: old(self).config.workspace_root },
                    ),
                ),
                Result::Err(e) => spec_table_full(e) && final(self).resources.contents() == old(
                    self,
                ).resources.contents(),
            },
    {
        let path = self.config.workspace_root.clone();
        self.insert_dir(path)
    }

    /// Lists the directory a handle stands for, in the filesystem's order.
    /// The table is never changed; an invalid or non-directory handle is
    /// refused before the filesystem is consulted.
    pub fn list_dir(&mut self, target: Handle) -> (r: Result<Vec<DirEntry>, CapabilityError>)
        requires
            old(self).wf(),
        ensures
            final(self).wf(),
            final(self).config == old(self).config,
            final(self).resources == old(self).resources,
            old(self).spec_dir_base(target) is None ==> (r matches Result::Err(e) && e.code
                == CapabilityErrorCode::InvalidArgument && e.message@ == "invalid handle"@),
            r is Ok ==> old(self).spec_dir_base(target) is Some,
            old(self).spec_dir_base(target) is Some ==> (r matches Result::Err(e)
                ==> spec_io_failure("fs.list-dir"@, e)),
    {
        let dir = match self.dir_path(target) {
            Result::Ok(p) => p,
            Result::Err(e) => {
                return Result::Err(e);
            },
        };
        match self.backend.read_dir(dir.as_str()) {
            Result::Ok(raw) => Result::Ok(entries_from_raw(raw)),
            Result::Err(err) => {
                let e = io_error("fs.list-dir", err);
                proof {
                    assert(spec_io_failure("fs.list-dir"@, e)) by {
                        assert(e.message@ == "fs.list-dir"@ + " failed: "@ + err.text@);
                    }
                }
                Result::Err(e)
            },
        }
    }

    /// Metadata for a directory handle itself, or for a sandbox-checked
    /// relative path under it.
    pub fn metadata(&mut self, parent: Handle, relative_path: Option<String>) -> (r: Result<
        EntryMetadata,
        CapabilityError,
    >)
        requires
            old(self).wf(),
        ensures
            final(self).wf(),
            final(self).config == old(self).config,
            final(self).resources == old(self).resources,
            match old(self).spec_dir_base(parent) {
                None => r matches Result::Err(e) && e.code == CapabilityErrorCode::InvalidArgument
                    && e.message@ == "invalid handle"@,
                Some(base) => match relative_path {
                    Some(rel) => match spec_checked_path(
                        old(self).config.workspace_root@,
                        base,
                        rel@,
                    ) {
                        PathCheck::Rejected(code, msg) => r matches Result::Err(e) && e.code
                            == code && e.message@ == msg,
                        PathCheck::Accepted(p) => (r matches Result::Err(e) ==> spec_io_failure(
                            "fs.metadata"@,
                            e,
                        )) && (r matches Result::Ok(m) ==> m.name@ == (
                        if crate::paths::spec_basename(p).len() > 0 {
                            crate::paths::spec_basename(p)
                        } else {
                            "."@
                        })),
                    },
                    None => (r matches Result::Err(e) ==> spec_io_failure("fs.metadata"@, e)) && (
                    r matches Result::Ok(m) ==> m.name@ == (
                    if crate::paths::spec_basename(base).len() > 0 {
                        crate::paths::spec_basename(base)
                    } else {
                        "."@
                    })),
                },
            },
    {
        let base = match self.dir_path(parent) {
            Result::Ok(p) => p,
            Result::Err(e) => {
                return Result::Err(e);
            },
        };
        let path = match relative_path {
            Some(rel) => {
                let root = self.config.workspace_root.clone();
                match checked_path(root.as_str(), base.as_str(), rel.as_str()) {
                    Result::Ok(p) => p,
                    Result::Err(e) => {
                        return Result::Err(e);
                    },
                }
            },
            None => base,
        };
        let meta = match self.backend.path_metadata(path.as_str()) {
            Result::Ok(m) => m,
            Result::Err(err) => {
                let e = io_error("fs.metadata", err);
                proof {
                    assert(spec_io_failure("fs.metadata"@, e)) by {
                        assert(e.message@ == "fs.metadata"@ + " failed: "@ + err.text@);
                    }
                }
                return Result::Err(e);
            },
        };
        Result::Ok(metadata_from_raw(path.as_str(), &meta))
    }

    /// Opens a file under a parent directory handle with the requested
    /// options; the path is resolved and sandbox-checked first.
    pub fn open_file(&mut self, parent: Handle, relative_path: String, options: FileOpenOptions)
        -> (r: Result<Handle, CapabilityError>)
        requires
            old(self).wf(),
        ensures
            final(self).wf(),
            final(self).config == old(self).config,
            r is Err ==> forall|h2: Handle|
                old(self).resources.valid(h2) ==> (#[trigger] final(self).resources.dependents_of(
                    h2,
                )) == old(self).resources.dependents_of(h2) && final(self).resources.parent_of(h2)
                    == old(self).resources.parent_of(h2),
            (match old(self).spec_dir_base(parent) {
                Some(base) => spec_checked_path(
                    old(self).config.workspace_root@,
                    base,
                    relative_path@,
                ) matches PathCheck::Accepted(_),
                None => false,
            }) ==> (r matches Result::Err(e) ==> (spec_io_failure("fs.open-file"@, e)
                || spec_table_full(e))),
            match old(self).spec_dir_base(parent) {
                None => (r matches Result::Err(e) && e.code == CapabilityErrorCode::InvalidArgument
                    && e.message@ == "invalid handle"@) && final(self).resources.contents() == old(self).resources.contents(),
                Some(base) => match spec_checked_path(
                    old(self).config.workspace_root@,
                    base,
                    relative_path@,
                ) {
                    PathCheck::Rejected(code, msg) => (r matches Result::Err(e) && e.code == code
                        && e.message@ == msg) && final(self).resources.contents() == old(self).resources.contents(),
                    PathCheck::Accepted(p) => match r {
                        Result::Ok(h) => final(self).resources.valid(h) && !old(self).resources.valid(h) && final(self).resources.dependents_of(h) == 0
                            && final(self).resources.parent_of(h) is None && (forall|h2: Handle|
                            h2 != h && old(self).resources.valid(h2) ==> (#[trigger] final(self).resources.dependents_of(h2)) == old(self).resources.dependents_of(
                                h2,
                            ) && final(self).resources.parent_of(h2) == old(self).resources.parent_of(h2))
                            && (final(self).resources.entry_of(h) matches ResourceEntry::File(f)
                            && f.path@ == p) && final(self).resources.contents() == old(self).resources.contents().insert(h, final(self).resources.entry_of(h)),
                        Result::Err(e) => final(self).resources.contents() == old(self).resources.contents(),
                    },
                },
            },
    {
        let base = match self.dir_path(parent) {
            Result::Ok(p) => p,
            Result::Err(e) => {
                return Result::Err(e);
            },
        };
        let root = self.config.workspace_root.clone();
        let file_path = match checked_path(root.as_str(), base.as_str(), relative_path.as_str()) {
            Result::Ok(p) => p,
            Result::Err(e) => {
                return Result::Err(e);
            },
        };
        let fd = match self.backend.open_file(file_path.as_str(), &options) {
            Result::Ok(fd) => fd,
            Result::Err(err) => {
                let e = io_error("fs.open-file", err);
                proof {
                    assert(spec_io_failure("fs.open-file"@, e)) by {
                        assert(e.message@ == "fs.open-file"@ + " failed: "@ + err.text@);
                    }
                }
                return Result::Err(e);
            },
        };
        match self.insert_file(FileHandleResource { path: file_path, fd }) {
            Result::Ok(h) => {
                proof {
                    assert(self.resources.contents()[h] == self.resources.entry_of(h));
                }
                Result::Ok(h)
            },
            Result::Err(e) => Result::Err(e),
        }
    }

    /// The backend token of a file handle, or the invalid-handle error.
    fn file_fd(&self, handle: Handle) -> (r: Result<u64, CapabilityError>)
        ensures
            match r {
                Result::Ok(fd) => self.resources.valid(handle)
                    && (self.resources.entry_of(handle) matches ResourceEntry::File(f) && f.fd
                    == fd),
                Result::Err(e) => e.code == CapabilityErrorCode::InvalidArgument && e.message@
                    == "invalid handle"@ && !(self.resources.valid(handle)
                    && self.resources.entry_of(handle) matches ResourceEntry::File(_)),
            },
    {
        match self.resources.get(handle) {
            Result::Ok(entry) => match entry {
                ResourceEntry::File(f) => Result::Ok(f.fd),
                _ => Result::Err(table_error(TableError::WrongType)),
            },
            Result::Err(te) => Result::Err(table_error(te)),
        }
    }

    /// Reads at most `max_bytes` bytes from an open file handle on behalf of
    /// operation `op`, enforcing the byte ceiling in verified code whatever
    /// the backend handed back.
    fn read_bytes(&mut self, handle: Handle, max_bytes: u64, op: &str) -> (r: Result<
        Vec<u8>,
        CapabilityError,
    >)
        requires
            old(self).wf(),
        ensures
            final(self).wf(),
            final(self).config == old(self).config,
            final(self).resources == old(self).resources,
            r matches Result::Ok(b) ==> b@.len() <= max_bytes,
            !(old(self).resources.valid(handle) && old(self).resources.entry_of(handle)
                matches ResourceEntry::File(_)) ==> (r matches Result::Err(e) && e.code
                == CapabilityErrorCode::InvalidArgument && e.message@ == "invalid handle"@),
            (old(self).resources.valid(handle) && old(self).resources.entry_of(handle)
                matches ResourceEntry::File(_)) ==> (r matches Result::Err(e)
                ==> spec_io_failure(op@, e)),
    {
        let fd = match self.file_fd(handle) {
            Result::Ok(fd) => fd,
            Result::Err(e) => {
                return Result::Err(e);
            },
        };
        match self.backend.file_read(fd, max_bytes) {
            Result::Ok(bytes) => {
                let mut bytes = bytes;
                if bytes.len() as u64 > max_bytes {
                    bytes.truncate(max_bytes as usize);
                }
                Result::Ok(bytes)
            },
            Result::Err(err) => {
                let e = io_error(op, err);
                proof {
                    assert(spec_io_failure(op@, e)) by {
                        assert(e.message@ == op@ + " failed: "@ + err.text@);
                    }
                }
                Result::Err(e)
            },
        }
    }

    /// Reads at most `max_bytes` bytes from an open file handle; the byte
    /// ceiling holds even where the backend returned more.
    pub fn read(&mut self, handle: Handle, max_bytes: u64) -> (r: Result<Vec<u8>, CapabilityError>)
        requires
            old(self).wf(),
        ensures
            final(self).wf(),
            final(self).config == old(self).config,
            final(self).resources == old(self).resources,
            r matches Result::Ok(b) ==> b@.len() <= max_bytes,
            !(old(self).resources.valid(handle) && old(self).resources.entry_of(handle)
                matches ResourceEntry::File(_)) ==> (r matches Result::Err(e) && e.code
                == CapabilityErrorCode::InvalidArgument && e.message@ == "invalid handle"@),
            (old(self).resources.valid(handle) && old(self).resources.entry_of(handle)
                matches ResourceEntry::File(_)) ==> (r matches Result::Err(e)
                ==> spec_io_failure("fs.file.read"@, e)),
    {
        self.read_bytes(handle, max_bytes, "fs.file.read")
    }

    /// Reads at most `max_bytes` bytes and decodes them as UTF-8 text,
    /// refusing bytes that are not valid text.
    pub fn read_to_string(&mut self, handle: Handle, max_bytes: u64) -> (r: Result<
        String,
        CapabilityError,
    >)
        requires
            old(self).wf(),
        ensures
            final(self).wf(),
            final(self).config == old(self).config,
            final(self).resources == old(self).resources,
            !(old(self).resources.valid(handle) && old(self).resources.entry_of(handle)
                matches ResourceEntry::File(_)) ==> (r matches Result::Err(e) && e.code
                == CapabilityErrorCode::InvalidArgument && e.message@ == "invalid handle"@),
            r matches Result::Ok(s) ==> exists|bytes: Seq<u8>|
                vstd::utf8::valid_utf8(bytes) && s@ == vstd::utf8::decode_utf8(bytes),
            (old(self).resources.valid(handle) && old(self).resources.entry_of(handle)
                matches ResourceEntry::File(_)) ==> (r matches Result::Err(e) ==> ((e.code
                == CapabilityErrorCode::InvalidArgument && e.message@
                == "file is not valid UTF-8"@) || spec_io_failure("fs.file.read-to-string"@, e))),
    {
        let bytes = match self.read_bytes(handle, max_bytes, "fs.file.read-to-string") {
            Result::Ok(b) => b,
            Result::Err(e) => {
                return Result::Err(e);
            },
        };
        let ghost bytes_view = bytes@;
        match text_of_file_bytes(bytes) {
            Result::Ok(s) => {
                proof {
                    assert(exists|b: Seq<u8>|
                        vstd::utf8::valid_utf8(b) && s@ == vstd::utf8::decode_utf8(b)) by {
                        assert(vstd::utf8::valid_utf8(bytes_view) && s@
                            == vstd::utf8::decode_utf8(bytes_view));
                    }
                }
                Result::Ok(s)
            },
            Result::Err(e) => Result::Err(e),
        }
    }

    /// Writes the bytes to an open file handle and reports how many the
    /// filesystem accepted.
    pub fn write(&mut self, handle: Handle, bytes: Vec<u8>) -> (r: Result<u64, CapabilityError>)
        requires
            old(self).wf(),
        ensures
            final(self).wf(),
            final(self).config == old(self).config,
            final(self).resources == old(self).resources,
            !(old(self).resources.valid(handle) && old(self).resources.entry_of(handle)
                matches ResourceEntry::File(_)) ==> (r matches Result::Err(e) && e.code
                == CapabilityErrorCode::InvalidArgument && e.message@ == "invalid handle"@),
            (old(self).resources.valid(handle) && old(self).resources.entry_of(handle)
                matches ResourceEntry::File(_)) ==> (r matches Result::Err(e)
                ==> spec_io_failure("fs.file.write"@, e)),
    {
        let fd = match self.file_fd(handle) {
            Result::Ok(fd) => fd,
            Result::Err(e) => {
                return Result::Err(e);
            },
        };
        match self.backend.file_write(fd, &bytes) {
            Result::Ok(n) => Result::Ok(n),
            Result::Err(err) => {
                let e = io_error("fs.file.write", err);
                proof {
                    assert(spec_io_failure("fs.file.write"@, e)) by {
                        assert(e.message@ == "fs.file.write"@ + " failed: "@ + err.text@);
                    }
                }
                Result::Err(e)
            },
        }
    }

    /// Writes a text, with an optional trailing newline, to an open file.
    pub fn write_string(&mut self, handle: Handle, contents: String, newline: bool) -> (r: Result<
        u64,
        CapabilityError,
    >)
        requires
            old(self).wf(),
        ensures
            final(self).wf(),
            final(self).config == old(self).config,
            final(self).resources == old(self).resources,
            !(old(self).resources.valid(handle) && old(self).resources.entry_of(handle)
                matches ResourceEntry::File(_)) ==> (r matches Result::Err(e) && e.code
                == CapabilityErrorCode::InvalidArgument && e.message@ == "invalid handle"@),
            (old(self).resources.valid(handle) && old(self).resources.entry_of(handle)
                matches ResourceEntry::File(_)) ==> (r matches Result::Err(e)
                ==> spec_io_failure("fs.file.write-string"@, e)),
    {
        let mut data = contents.as_str().as_bytes_vec();
        if newline {
            data.push(10u8);
        }
        let fd = match self.file_fd(handle) {
            Result::Ok(fd) => fd,
            Result::Err(e) => {
                return Result::Err(e);
            },
        };
        match self.backend.file_write(fd, &data) {
            Result::Ok(n) => Result::Ok(n),
            Result::Err(err) => {
                let e = io_error("fs.file.write-string", err);
                proof {
                    assert(spec_io_failure("fs.file.write-string"@, e)) by {
                        assert(e.message@ == "fs.file.write-string"@ + " failed: "@ + err.text@);
                    }
                }
                Result::Err(e)
            },
        }
    }

    /// Truncates or extends an open file to the given length.
    pub fn set_len(&mut self, handle: Handle, new_len: u64) -> (r: Result<(), CapabilityError>)
        requires
            old(self).wf(),
        ensures
            final(self).wf(),
            final(self).config == old(self).config,
            final(self).resources == old(self).resources,
            !(old(self).resources.valid(handle) && old(self).resources.entry_of(handle)
                matches ResourceEntry::File(_)) ==> (r matches Result::Err(e) && e.code
                == CapabilityErrorCode::InvalidArgument && e.message@ == "invalid handle"@),
            (old(self).resources.valid(handle) && old(self).resources.entry_of(handle)
                matches ResourceEntry::File(_)) ==> (r matches Result::Err(e)
                ==> spec_io_failure("fs.file.set-len"@, e)),
    {
        let fd = match self.file_fd(handle) {
            Result::Ok(fd) => fd,
            Result::Err(e) => {
                return Result::Err(e);
            },
        };
        match self.backend.file_set_len(fd, new_len) {
            Result::Ok(()) => Result::Ok(()),
            Result::Err(err) => {
                let e = io_error("fs.file.set-len", err);
                proof {
                    assert(spec_io_failure("fs.file.set-len"@, e)) by {
                        assert(e.message@ == "fs.file.set-len"@ + " failed: "@ + err.text@);
                    }
                }
                Result::Err(e)
            },
        }
    }

    /// Flushes an open file's buffered writes.
    pub fn flush(&mut self, handle: Handle) -> (r: Result<(), CapabilityError>)
        requires
            old(self).wf(),
        ensures
            final(self).wf(),
            final(self).config == old(self).config,
            final(self).resources == old(self).resources,
            !(old(self).resources.valid(handle) && old(self).resources.entry_of(handle)
                matches ResourceEntry::File(_)) ==> (r matches Result::Err(e) && e.code
                == CapabilityErrorCode::InvalidArgument && e.message@ == "invalid handle"@),
            (old(self).resources.valid(handle) && old(self).resources.entry_of(handle)
                matches ResourceEntry::File(_)) ==> (r matches Result::Err(e)
                ==> spec_io_failure("fs.file.flush"@, e)),
    {
        let fd = match self.file_fd(handle) {
            Result::Ok(fd) => fd,
            Result::Err(e) => {
                return Result::Err(e);
            },
        };
        match self.backend.file_flush(fd) {
            Result::Ok(()) => Result::Ok(()),
            Result::Err(err) => {
                let e = io_error("fs.file.flush", err);
                proof {
                    assert(spec_io_failure("fs.file.flush"@, e)) by {
                        assert(e.message@ == "fs.file.flush"@ + " failed: "@ + err.text@);
                    }
                }
                Result::Err(e)
            },
        }
    }

    /// Closes a handle of any kind, telling the backend to release an open
    /// file's descriptor; failures are swallowed as on every close path.
    pub fn close(&mut self, handle: Handle)
        requires
            old(self).wf(),
        ensures
            final(self).wf(),
            final(self).config == old(self).config,
            old(self).resources.valid(handle) && old(self).resources.dependents_of(handle) == 0
                ==> final(self).resources.contents() == old(self).resources.contents().remove(
                handle,
            ) && !final(self).resources.valid(handle) && final(self).resources.retired(handle),
            !(old(self).resources.valid(handle) && old(self).resources.dependents_of(handle) == 0)
                ==> final(self).resources.contents() == old(self).resources.contents(),
            old(self).resources.valid(handle) && old(self).resources.parent_of(handle) is None
                ==> forall|h2: Handle|
                h2 != handle && old(self).resources.valid(h2) ==> (#[trigger] final(self).resources.dependents_of(h2)) == old(self).resources.dependents_of(h2) && final(self).resources.parent_of(h2) == old(self).resources.parent_of(h2),
            !old(self).resources.valid(handle) ==> forall|h2: Handle|
                old(self).resources.valid(h2) ==> (#[trigger] final(self).resources.dependents_of(
                    h2,
                )) == old(self).resources.dependents_of(h2) && final(self).resources.parent_of(h2)
                    == old(self).resources.parent_of(h2),
    {
        let fd = match self.file_fd(handle) {
            Result::Ok(fd) => Some(fd),
            Result::Err(_) => None,
        };
        self.close_handle(handle);
        match fd {
            Some(fd) => self.backend.file_close(fd),
            None => (),
        }
    }
}

impl<B: HostBackend> HostState<B> {
    /// Runs a command to completion under the process policy. The allow-list
    /// is consulted before anything else, so a command that is not allowed
    /// fails with `Denied` and never reaches the operating system; then the
    /// stdio shape and the working directory are validated, the backend runs
    /// the command, and the captured output is stored under a fresh handle.
    pub fn spawn(&mut self, command: String, options: SpawnOptions) -> (r: Result<
        Handle,
        CapabilityError,
    >)
        requires
            old(self).wf(),
        ensures
            final(self).wf(),
            final(self).config == old(self).config,
            r is Err ==> forall|h2: Handle|
                old(self).resources.valid(h2) ==> (#[trigger] final(self).resources.dependents_of(
                    h2,
                )) == old(self).resources.dependents_of(h2) && final(self).resources.parent_of(h2)
                    == old(self).resources.parent_of(h2),
            (spec_proc_allowed(old(self).config.allowed_proc_commands.deep_view(), command@)
                && spec_spawn_options_rejection(options) is None && (match options.working_dir {
                Some(dir) => spec_checked_path(
                    old(self).config.workspace_root@,
                    old(self).config.workspace_root@,
                    dir@,
                ) matches PathCheck::Accepted(_),
                None => true,
            })) ==> (r matches Result::Err(e) ==> (spec_io_failure("proc.spawn"@, e)
                || spec_table_full(e))),
            !spec_proc_allowed(old(self).config.allowed_proc_commands.deep_view(), command@) ==> (
            r matches Result::Err(e) && e.code == CapabilityErrorCode::Denied && e.message@
                == "command `"@ + command@ + "` is not allowed"@) && final(self).resources.contents() == old(self).resources.contents(),
            spec_proc_allowed(old(self).config.allowed_proc_commands.deep_view(), command@)
                ==> match spec_spawn_options_rejection(options) {
                Some(msg) => (r matches Result::Err(e) && e.code
                    == CapabilityErrorCode::InvalidArgument && e.message@ == msg) && final(self).resources.contents() == old(self).resources.contents(),
                None => match options.working_dir {
                    Some(dir) => match spec_checked_path(
                        old(self).config.workspace_root@,
                        old(self).config.workspace_root@,
                        dir@,
                    ) {
                        PathCheck::Rejected(code, msg) => (r matches Result::Err(e) && e.code
                            == code && e.message@ == msg) && final(self).resources.contents()
                            == old(self).resources.contents(),
                        PathCheck::Accepted(p) => spawn_outcome_ok(
                            old(self).resources,
                            final(self).resources,
                            r,
                            command,
                        ),
                    },
                    None => spawn_outcome_ok(
                        old(self).resources,
                        final(self).resources,
                        r,
                        command,
                    ),
                },
            },
    {
        match ensure_command_allowed(&self.config, command.as_str()) {
            Result::Ok(()) => (),
            Result::Err(e) => {
                return Result::Err(e);
            },
        }
        match check_spawn_options(&options) {
            Result::Ok(()) => (),
            Result::Err(e) => {
                return Result::Err(e);
            },
        }
        let root = self.config.workspace_root.clone();
        let cwd = match &options.working_dir {
            Some(dir) => match checked_path(root.as_str(), root.as_str(), dir.as_str()) {
                Result::Ok(p) => p,
                Result::Err(e) => {
                    return Result::Err(e);
                },
            },
            None => root,
        };
        let output = match self.backend.spawn(command.as_str(), &options, cwd.as_str()) {
            Result::Ok(o) => o,
            Result::Err(err) => {
                let e = io_error("proc.spawn", err);
                proof {
                    assert(spec_io_failure("proc.spawn"@, e)) by {
                        assert(e.message@ == "proc.spawn"@ + " failed: "@ + err.text@);
                    }
                }
                return Result::Err(e);
            },
        };
        let resource = process_resource_from_output(command, output);
        match self.insert_process(resource) {
            Result::Ok(h) => {
                proof {
                    assert(self.resources.contents()[h] == self.resources.entry_of(h));
                }
                Result::Ok(h)
            },
            Result::Err(e) => Result::Err(e),
        }
    }

    /// The finished process a handle names, or the invalid-handle error.
    fn process_view(&self, handle: Handle) -> (r: Result<(), CapabilityError>)
        ensures
            match r {
                Result::Ok(()) => self.resources.valid(handle) && self.resources.entry_of(handle)
                    matches ResourceEntry::Process(_),
                Result::Err(e) => e.code == CapabilityErrorCode::InvalidArgument && e.message@
                    == "invalid handle"@ && !(self.resources.valid(handle)
                    && self.resources.entry_of(handle) matches ResourceEntry::Process(_)),
            },
    {
        match self.resources.get(handle) {
            Result::Ok(entry) => match entry {
                ResourceEntry::Process(_) => Result::Ok(()),
                _ => Result::Err(table_error(TableError::WrongType)),
            },
            Result::Err(te) => Result::Err(table_error(te)),
        }
    }

    /// Writing to a spawned process's stdin is never possible: the process
    /// has already terminated by the time a handle exists.
    pub fn write_stdin(&mut self, handle: Handle, chunk: Vec<u8>, eof: bool) -> (r: Result<
        u32,
        CapabilityError,
    >)
        ensures
            *final(self) == *old(self),
            r matches Result::Err(e) && e.code == CapabilityErrorCode::Denied && e.message@
                == "process capability is not implemented"@,
    {
        Result::Err(
            capability_error(CapabilityErrorCode::Denied, "process capability is not implemented"),
        )
    }

    /// Drains up to `max_bytes` bytes of the captured standard output,
    /// advancing the handle's stdout cursor.
    pub fn read_stdout(&mut self, handle: Handle, max_bytes: u32) -> (r: Result<
        StreamRead,
        CapabilityError,
    >)
        requires
            old(self).wf(),
        ensures
            final(self).wf(),
            final(self).config == old(self).config,
            !(old(self).resources.valid(handle) && old(self).resources.entry_of(handle)
                matches ResourceEntry::Process(_)) ==> (r matches Result::Err(e) && e.code
                == CapabilityErrorCode::InvalidArgument && e.message@ == "invalid handle"@)
                && final(self).resources.contents() == old(self).resources.contents(),
            (old(self).resources.valid(handle) && old(self).resources.entry_of(handle)
                matches ResourceEntry::Process(_)) ==> (match old(self).resources.entry_of(handle) {
                ResourceEntry::Process(p) => {
                    let take = spec_take(p.stdout@.len() as int, p.stdout_pos as int, max_bytes);
                    &&& r matches Result::Ok(sr) && sr.data@ == p.stdout@.subrange(
                        p.stdout_pos as int,
                        p.stdout_pos + take,
                    ) && sr.eof == (p.stdout_pos + take == p.stdout@.len())
                    &&& final(self).resources.valid(handle)
                    &&& match final(self).resources.entry_of(handle) {
                        ResourceEntry::Process(q) => q.stdout@ == p.stdout@ && q.stderr@
                            == p.stderr@ && q.stderr_pos == p.stderr_pos && q.stdout_pos
                            == p.stdout_pos + take && q.exit_code == p.exit_code && q.timed_out
                            == p.timed_out,
                        _ => false,
                    }
                    &&& final(self).resources.contents()
                        == old(self).resources.contents().insert(handle,
                        final(self).resources.entry_of(handle))
                    &&& forall|h2: Handle|
                        old(self).resources.valid(h2) ==> (#[trigger] final(self).resources.dependents_of(h2)) == old(self).resources.dependents_of(h2)
                            && final(self).resources.parent_of(h2) == old(self).resources.parent_of(h2)
                },
                _ => false,
            }),
    {
        match self.process_view(handle) {
            Result::Ok(()) => (),
            Result::Err(e) => {
                return Result::Err(e);
            },
        }
        let entry = match self.resources.get(handle) {
            Result::Ok(e) => e,
            Result::Err(te) => {
                return Result::Err(table_error(te));
            },
        };
        match entry {
            ResourceEntry::Process(p) => {
                let command = p.command.clone();
                let stdout = crate::process::clone_bytes(&p.stdout);
                let stderr = crate::process::clone_bytes(&p.stderr);
                let stderr_pos = p.stderr_pos;
                let exit_code = p.exit_code;
                let timed_out = p.timed_out;
                let mut pos = p.stdout_pos;
                let sr = read_process_stream(stdout.as_slice(), &mut pos, max_bytes);
                let updated = ProcessResource {
                    command,
                    stdout,
                    stderr,
                    stdout_pos: pos,
                    stderr_pos,
                    exit_code,
                    timed_out,
                };
                let ghost pre = self.resources;
                match self.resources.set(handle, ResourceEntry::Process(updated)) {
                    Result::Ok(()) => {
                        proof {
                            assert forall|h2: Handle| self.resources.valid(h2) implies match self
                                .resources.entry_of(h2) {
                                ResourceEntry::Process(q) => q.wf(),
                                _ => true,
                            } by {
                                if h2 != handle {
                                    assert(pre.valid(h2));
                                    assert(self.resources.entry_of(h2) == pre.entry_of(h2));
                                }
                            }
                            assert(self.resources.contents()[handle] == self.resources.entry_of(
                                handle,
                            ));
                            assert forall|h2: Handle| pre.valid(h2) implies (#[trigger] self
                                .resources.dependents_of(h2)) == pre.dependents_of(h2)
                                && self.resources.parent_of(h2) == pre.parent_of(h2) by {
                                if h2 != handle {
                                    assert(self.resources.entry_of(h2) == pre.entry_of(h2));
                                }
                            }
                        }
                        Result::Ok(sr)
                    },
                    Result::Err(te) => Result::Err(table_error(te)),
                }
            },
            _ => Result::Err(table_error(TableError::WrongType)),
        }
    }

    /// Drains up to `max_bytes` bytes of the captured standard error,
    /// advancing the handle's stderr cursor.
    pub fn read_stderr(&mut self, handle: Handle, max_bytes: u32) -> (r: Result<
        StreamRead,
        CapabilityError,
    >)
        requires
            old(self).wf(),
        ensures
            final(self).wf(),
            final(self).config == old(self).config,
            !(old(self).resources.valid(handle) && old(self).resources.entry_of(handle)
                matches ResourceEntry::Process(_)) ==> (r matches Result::Err(e) && e.code
                == CapabilityErrorCode::InvalidArgument && e.message@ == "invalid handle"@)
                && final(self).resources.contents() == old(self).resources.contents(),
            (old(self).resources.valid(handle) && old(self).resources.entry_of(handle)
                matches ResourceEntry::Process(_)) ==> (match old(self).resources.entry_of(handle) {
                ResourceEntry::Process(p) => {
                    let take = spec_take(p.stderr@.len() as int, p.stderr_pos as int, max_bytes);
                    &&& r matches Result::Ok(sr) && sr.data@ == p.stderr@.subrange(
                        p.stderr_pos as int,
                        p.stderr_pos + take,
                    ) && sr.eof == (p.stderr_pos + take == p.stderr@.len())
                    &&& final(self).resources.valid(handle)
                    &&& match final(self).resources.entry_of(handle) {
                        ResourceEntry::Process(q) => q.stdout@ == p.stdout@ && q.stderr@
                            == p.stderr@ && q.stdout_pos == p.stdout_pos && q.stderr_pos
                            == p.stderr_pos + take && q.exit_code == p.exit_code && q.timed_out
                            == p.timed_out,
                        _ => false,
                    }
                    &&& final(self).resources.contents()
                        == old(self).resources.contents().insert(handle,
                        final(self).resources.entry_of(handle))
                    &&& forall|h2: Handle|
                        old(self).resources.valid(h2) ==> (#[trigger] final(self).resources.dependents_of(h2)) == old(self).resources.dependents_of(h2)
                            && final(self).resources.parent_of(h2) == old(self).resources.parent_of(h2)
                },
                _ => false,
            }),
    {
        match self.process_view(handle) {
            Result::Ok(()) => (),
            Result::Err(e) => {
                return Result::Err(e);
            },
        }
        let entry = match self.resources.get(handle) {
            Result::Ok(e) => e,
            Result::Err(te) => {
                return Result::Err(table_error(te));
            },
        };
        match entry {
            ResourceEntry::Process(p) => {
                let command = p.command.clone();
                let stdout = crate::process::clone_bytes(&p.stdout);
                let stderr = crate::process::clone_bytes(&p.stderr);
                let stdout_pos = p.stdout_pos;
                let exit_code = p.exit_code;
                let timed_out = p.timed_out;
                let mut pos = p.stderr_pos;
                let sr = read_process_stream(stderr.as_slice(), &mut pos, max_bytes);
                let updated = ProcessResource {
                    command,
                    stdout,
                    stderr,
                    stdout_pos,
                    stderr_pos: pos,
                    exit_code,
                    timed_out,
                };
                let ghost pre = self.resources;
                match self.resources.set(handle, ResourceEntry::Process(updated)) {
                    Result::Ok(()) => {
                        proof {
                            assert forall|h2: Handle| self.resources.valid(h2) implies match self
                                .resources.entry_of(h2) {
                                ResourceEntry::Process(q) => q.wf(),
                                _ => true,
                            } by {
                                if h2 != handle {
                                    assert(pre.valid(h2));
                                    assert(self.resources.entry_of(h2) == pre.entry_of(h2));
                                }
                            }
                            assert(self.resources.contents()[handle] == self.resources.entry_of(
                                handle,
                            ));
                            assert forall|h2: Handle| pre.valid(h2) implies (#[trigger] self
                                .resources.dependents_of(h2)) == pre.dependents_of(h2)
                                && self.resources.parent_of(h2) == pre.parent_of(h2) by {
                                if h2 != handle {
                                    assert(self.resources.entry_of(h2) == pre.entry_of(h2));
                                }
                            }
                        }
                        Result::Ok(sr)
                    },
                    Result::Err(te) => Result::Err(table_error(te)),
                }
            },
            _ => Result::Err(table_error(TableError::WrongType)),
        }
    }

    /// The already-known exit status of a finished process; the timeout is
    /// ignored because the process has already exited.
    pub fn wait(&mut self, handle: Handle, timeout_ms: Option<u64>) -> (r: Result<
        ExitStatus,
        CapabilityError,
    >)
        requires
            old(self).wf(),
        ensures
            final(self).wf(),
            *final(self) == *old(self),
            match r {
                Result::Ok(st) => old(self).resources.valid(handle)
                    && match old(self).resources.entry_of(handle) {
                    ResourceEntry::Process(p) => st.code == p.exit_code && st.signal is None
                        && st.timed_out == p.timed_out,
                    _ => false,
                },
                Result::Err(e) => e.code == CapabilityErrorCode::InvalidArgument && e.message@
                    == "invalid handle"@ && !(old(self).resources.valid(handle)
                    && old(self).resources.entry_of(handle) matches ResourceEntry::Process(_)),
            },
    {
        let entry = match self.resources.get(handle) {
            Result::Ok(e) => e,
            Result::Err(te) => {
                return Result::Err(table_error(te));
            },
        };
        match entry {
            ResourceEntry::Process(p) => Result::Ok(to_exit_status(p)),
            _ => Result::Err(table_error(TableError::WrongType)),
        }
    }

    /// Signalling a spawned process is never possible: it has already
    /// terminated by the time a handle exists.
    pub fn signal(&mut self, handle: Handle) -> (r: Result<(), CapabilityError>)
        ensures
            *final(self) == *old(self),
            r matches Result::Err(e) && e.code == CapabilityErrorCode::Denied && e.message@
                == "signaling processes is not supported"@,
    {
        Result::Err(
            capability_error(CapabilityErrorCode::Denied, "signaling processes is not supported"),
        )
    }
}

/// The successful half of a spawn outcome: either a fresh handle now naming
/// a finished record of `command` with both cursors at the start, or a
/// failure that left the table unchanged.
pub open spec fn spawn_outcome_ok(
    pre: Table<ResourceEntry>,
    post: Table<ResourceEntry>,
    r: Result<Handle, CapabilityError>,
    command: String,
) -> bool {
    match r {
        Result::Ok(h) => post.valid(h) && !pre.valid(h) && post.dependents_of(h) == 0
            && post.parent_of(h) is None && (forall|h2: Handle|
            h2 != h && pre.valid(h2) ==> (#[trigger] post.dependents_of(h2))
                == pre.dependents_of(h2) && post.parent_of(h2) == pre.parent_of(h2)) && (
        match post.entry_of(h) {
            ResourceEntry::Process(p) => p.command == command && p.stdout_pos == 0 && p.stderr_pos
                == 0 && !p.timed_out,
            _ => false,
        }) && post.contents() == pre.contents().insert(h, post.entry_of(h)),
        Result::Err(e) => post.contents() == pre.contents(),
    }
}

/// Decodes what the filesystem returned for a text read: valid UTF-8 becomes
/// exactly the text it encodes, and anything else is refused rather than
/// lossily decoded.
pub fn text_of_file_bytes(bytes: Vec<u8>) -> (r: Result<String, CapabilityError>)
    ensures
        vstd::utf8::valid_utf8(bytes@) ==> (r matches Result::Ok(s) && s@
            == vstd::utf8::decode_utf8(bytes@)),
        !vstd::utf8::valid_utf8(bytes@) ==> (r matches Result::Err(e) && e.code
            == CapabilityErrorCode::InvalidArgument && e.message@ == "file is not valid UTF-8"@),
{
    match crate::text::utf8_to_string(bytes) {
        Some(s) => Result::Ok(s),
        None => Result::Err(
            capability_error(CapabilityErrorCode::InvalidArgument, "file is not valid UTF-8"),
        ),
    }
}

/// Accepts only a directory's metadata, as opening a directory requires.
pub fn ensure_directory(meta: &RawMeta) -> (r: Result<(), CapabilityError>)
    ensures
        r is Ok <==> meta.is_dir,
        r matches Result::Err(e) ==> e.code == CapabilityErrorCode::InvalidArgument && e.message@
            == "path is not a directory"@,
{
    if meta.is_dir {
        Result::Ok(())
    } else {
        Result::Err(
            capability_error(CapabilityErrorCode::InvalidArgument, "path is not a directory"),
        )
    }
}

/// The metadata record for one path, named by its final path segment (or by
/// the current-directory name when the path has no final segment).
pub fn metadata_from_raw(path: &str, meta: &RawMeta) -> (r: EntryMetadata)
    ensures
        r.kind == spec_entry_kind(*meta),
        r.size_bytes == Some(meta.size_bytes),
        r.modified_ms == meta.modified_ms,
        r.readonly == meta.readonly,
        r.name@ == if crate::paths::spec_basename(path@).len() > 0 {
            crate::paths::spec_basename(path@)
        } else {
            "."@
        },
{
    let base = crate::paths::basename(path);
    let name = if base.as_str().unicode_len() > 0 {
        base
    } else {
        String::from_str(".")
    };
    EntryMetadata {
        name,
        kind: entry_kind(meta),
        size_bytes: Some(meta.size_bytes),
        modified_ms: meta.modified_ms,
        readonly: meta.readonly,
    }
}

} // verus!
