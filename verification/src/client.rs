//! The client side: how the replies of the server become the answers of the
//! FUSE file system, and the attributes and errors that it reports.

use crate::common::{
    DirEntry, FileType, GetMetadataError, LookupError, Metadata, OpenError, ReadDir, ReadDirError,
    ReadFile, ReadFileError,
};
use vstd::prelude::*;

verus! {

/// Why a file system operation failed.
#[derive(Debug, Clone, Copy, PartialEq, Eq, Structural)]
pub enum FuseError {
    /// The file does not exist.
    NotFound,
    /// The server could not be reached or did not answer.
    Transport,
    /// Anything else.
    Other,
}

/// The result of a file system operation.
pub type FuseResult<T> = Result<T, FuseError>;

/// Why a request got no answer.
#[derive(Debug, Clone, Copy, PartialEq, Eq, Structural)]
pub enum RequestError {
    /// The connection ended before the reply came.
    NoReply,
}

impl From<RequestError> for FuseError {
    fn from(e: RequestError) -> (r: Self)
        ensures
            r == FuseError::Transport,
    {
        FuseError::Transport
    }
}

impl vstd::std_specs::convert::FromSpecImpl<RequestError> for FuseError {
    open spec fn obeys_from_spec() -> bool {
        true
    }

    open spec fn from_spec(e: RequestError) -> Self {
        FuseError::Transport
    }
}

/// The name under which the client knows an inode.
pub struct InoInfo {
    path: String,
}

/// The attributes of a file that the file system reports.
#[derive(Debug, Clone, Copy, PartialEq, Eq, Structural)]
pub struct Attr {
    pub ino: u64,
    pub size: u64,
    pub kind: FileType,
}

impl From<Metadata> for Attr {
    fn from(meta: Metadata) -> (a: Self)
        ensures
            a.ino == meta.ino,
            a.size == meta.size,
            a.kind == meta.kind,
    {
        Attr { ino: meta.ino, size: meta.size, kind: meta.kind }
    }
}

impl vstd::std_specs::convert::FromSpecImpl<Metadata> for Attr {
    open spec fn obeys_from_spec() -> bool {
        true
    }

    open spec fn from_spec(meta: Metadata) -> Self {
        Attr { ino: meta.ino, size: meta.size, kind: meta.kind }
    }
}

/// An opened file: its handle and the flags it was opened with.
#[derive(Debug, Clone, Copy, PartialEq, Eq, Structural)]
pub struct Opened {
    pub fh: u64,
    pub flags: u32,
}

/// The file-type bits of the mode of a file of kind `t`.
pub open spec fn type_mode(t: FileType) -> u16 {
    match t {
        FileType::Regular => 0o0100000,
        FileType::Directory => 0o0040000,
    }
}

/// The permission bits that a file of kind `t` is reported with.
pub open spec fn default_perms(t: FileType) -> u16 {
    match t {
        FileType::Regular => 0o644,
        FileType::Directory => 0o755,
    }
}

/// The file-type bits of the mode of a file of kind `t`.
pub fn file_type_to_mode(t: FileType) -> (m: u16)
    ensures
        m == type_mode(t),
{
    match t {
        FileType::Regular => 0o0100000,
        FileType::Directory => 0o0040000,
    }
}

/// The permission bits that a file of kind `t` is reported with.
pub fn file_type_default_perms(t: FileType) -> (p: u16)
    ensures
        p == default_perms(t),
{
    match t {
        FileType::Regular => 0o644,
        FileType::Directory => 0o755,
    }
}

/// The user and group that every file is reported to belong to.
pub const OWNER_ID: u32 = 65535;

/// The block size that files are reported with.
pub const REPORTED_BLOCK_SIZE: u32 = 1;

impl Attr {
    /// The permission field of the attributes: type bits and permission
    /// bits together.
    pub fn perm(&self) -> (p: u16)
        ensures
            p == type_mode(self.kind) | default_perms(self.kind),
    {
        file_type_to_mode(self.kind) | file_type_default_perms(self.kind)
    }

    /// The number of blocks that the file is reported to take: one per byte.
    pub fn blocks(&self) -> (b: u64)
        ensures
            b == self.size,
    {
        self.size
    }
}

/// The type bits and the permission bits of a mode never overlap, and a
/// regular file and a directory are told apart by their mode.
pub proof fn lemma_modes_distinct()
    ensures
        type_mode(FileType::Regular) & default_perms(FileType::Regular) == 0,
        type_mode(FileType::Directory) & default_perms(FileType::Directory) == 0,
        (type_mode(FileType::Regular) | default_perms(FileType::Regular)) != (type_mode(
            FileType::Directory,
        ) | default_perms(FileType::Directory)),
{
    assert(0o0100000u16 & 0o644u16 == 0) by (bit_vector);
    assert(0o0040000u16 & 0o755u16 == 0) by (bit_vector);
    assert((0o0100000u16 | 0o644u16) != (0o0040000u16 | 0o755u16)) by (bit_vector);
}

/// The attributes answered for metadata the server sent, or the error.
pub fn getattr_answer(reply: Result<Result<Metadata, GetMetadataError>, RequestError>) -> (r:
    FuseResult<Attr>)
    ensures
        match reply {
            Err(_) => r == Err::<Attr, FuseError>(FuseError::Transport),
            Ok(Err(_)) => r == Err::<Attr, FuseError>(FuseError::NotFound),
            Ok(Ok(m)) => r == Ok::<Attr, FuseError>(Attr { ino: m.ino, size: m.size, kind: m.kind }),
        },
{
    match reply {
        Err(e) => Err(FuseError::from(e)),
        Ok(Ok(m)) => Ok(Attr::from(m)),
        Ok(Err(GetMetadataError::NotFound)) => Err(FuseError::NotFound),
    }
}

/// The attributes answered for a lookup, or the error.
pub fn lookup_answer(reply: Result<Result<Metadata, LookupError>, RequestError>) -> (r:
    FuseResult<Attr>)
    ensures
        match reply {
            Err(_) => r == Err::<Attr, FuseError>(FuseError::Transport),
            Ok(Err(_)) => r == Err::<Attr, FuseError>(FuseError::NotFound),
            Ok(Ok(m)) => r == Ok::<Attr, FuseError>(Attr { ino: m.ino, size: m.size, kind: m.kind }),
        },
{
    match reply {
        Err(e) => Err(FuseError::from(e)),
        Ok(Ok(m)) => Ok(Attr::from(m)),
        Ok(Err(LookupError::NotFound)) => Err(FuseError::NotFound),
    }
}

/// The opened file answered for an open with `flags`, or the error; the
/// flags must not be negative when the open succeeded.
pub fn open_answer(reply: Result<Result<u64, OpenError>, RequestError>, flags: i32) -> (r:
    FuseResult<Opened>)
    requires
        reply matches Ok(Ok(_)) ==> flags >= 0,
    ensures
        match reply {
            Err(_) => r == Err::<Opened, FuseError>(FuseError::Transport),
            Ok(Err(_)) => r == Err::<Opened, FuseError>(FuseError::NotFound),
            Ok(Ok(fh)) => r == Ok::<Opened, FuseError>(Opened { fh, flags: flags as u32 }),
        },
{
    match reply {
        Err(e) => Err(FuseError::from(e)),
        Ok(Ok(fh)) => Ok(Opened { fh, flags: flags as u32 }),
        Ok(Err(OpenError::NotFound)) => Err(FuseError::NotFound),
    }
}

/// The request for `size` bytes of inode `ino` from `offset` on; the offset
/// must not be negative.
pub fn read_request(ino: u64, offset: i64, size: u32) -> (r: ReadFile)
    requires
        offset >= 0,
    ensures
        r == (ReadFile { ino, offset: offset as u64, size: size as u64 }),
{
    ReadFile { ino, offset: offset as u64, size: size as u64 }
}

/// The bytes answered for a read, or the error.
pub fn read_answer(reply: Result<Result<Vec<u8>, ReadFileError>, RequestError>) -> (r: FuseResult<
    Vec<u8>,
>)
    ensures
        match reply {
            Err(_) => r matches Err(FuseError::Transport),
            Ok(Err(_)) => r matches Err(FuseError::NotFound),
            Ok(Ok(d)) => r matches Ok(x) && x@ == d@,
        },
{
    match reply {
        Err(e) => Err(FuseError::from(e)),
        Ok(Ok(d)) => Ok(d),
        Ok(Err(ReadFileError::NotFound)) => Err(FuseError::NotFound),
    }
}

/// The request for the entries of directory `ino` from `offset` on.
pub fn readdir_request(ino: u64, offset: i64) -> (r: ReadDir)
    ensures
        r == (ReadDir { ino, offset }),
{
    ReadDir { ino, offset }
}

/// The entries answered for a directory listing, or the error.
pub fn readdir_answer(reply: Result<Result<Vec<DirEntry>, ReadDirError>, RequestError>) -> (r:
    FuseResult<Vec<DirEntry>>)
    ensures
        match reply {
            Err(_) => r matches Err(FuseError::Transport),
            Ok(Err(_)) => r matches Err(FuseError::NotFound),
            Ok(Ok(d)) => r matches Ok(x) && x@ == d@,
        },
{
    match reply {
        Err(e) => Err(FuseError::from(e)),
        Ok(Ok(d)) => Ok(d),
        Ok(Err(ReadDirError::NotFound)) => Err(FuseError::NotFound),
    }
}

} // verus!
