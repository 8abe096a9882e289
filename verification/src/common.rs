//! The values that client, server and storage share: file metadata and the
//! requests and replies that travel between client and server.

use crate::transport::ReplyToken;
use vstd::prelude::*;
use vstd::std_specs::convert::FromSpec;

verus! {

/// The kind of a file.
#[derive(Clone, Copy, Debug, PartialEq, Eq, Structural)]
pub enum FileType {
    Directory,
    Regular,
}

/// What the storage records of a file.
#[derive(Debug)]
pub struct Metadata {
    pub ino: u64,
    pub size: u64,
    pub kind: FileType,
    pub name: String,
}

/// The metadata of a file, as values.
pub struct MetadataView {
    pub ino: u64,
    pub size: u64,
    pub kind: FileType,
    pub name: Seq<char>,
}

impl View for Metadata {
    type V = MetadataView;

    open spec fn view(&self) -> MetadataView {
        MetadataView { ino: self.ino, size: self.size, kind: self.kind, name: self.name@ }
    }
}

impl Metadata {
    /// A copy of this metadata.
    pub fn duplicate(&self) -> (m: Metadata)
        ensures
            m@ == self@,
    {
        Metadata { ino: self.ino, size: self.size, kind: self.kind, name: self.name.clone() }
    }
}

/// An entry of a directory listing: the metadata of the file it names.
pub type DirEntry = Metadata;

/// Asks for the metadata of a file.
#[derive(Debug)]
pub struct GetMetadata {
    pub ino: u64,
}

/// Why metadata could not be given.
#[derive(Debug, Clone, Copy, PartialEq, Eq, Structural)]
pub enum GetMetadataError {
    NotFound,
}

/// Asks for the file called `name` in the directory `parent`.
#[derive(Debug)]
pub struct Lookup {
    pub parent: u64,
    pub name: String,
}

/// Why a lookup found nothing.
#[derive(Debug, Clone, Copy, PartialEq, Eq, Structural)]
pub enum LookupError {
    NotFound,
}

/// Asks to open a file.
#[derive(Debug)]
pub struct Open {
    pub ino: u64,
}

/// Why a file could not be opened.
#[derive(Debug, Clone, Copy, PartialEq, Eq, Structural)]
pub enum OpenError {
    NotFound,
}

/// Asks to create a file.
#[derive(Debug, Clone)]
pub struct CreateFile {
    pub path: String,
}

/// Asks for `size` bytes of a file from `offset` on.
#[derive(Debug, Clone, Copy, PartialEq, Eq, Structural)]
pub struct ReadFile {
    pub ino: u64,
    pub offset: u64,
    pub size: u64,
}

/// Why a file could not be read.
#[derive(Debug, Clone, Copy, PartialEq, Eq, Structural)]
pub enum ReadFileError {
    NotFound,
}

/// Asks to write `data` into a file from `start` on.
#[derive(Debug, Clone)]
pub struct WriteFile {
    pub path: String,
    pub start: u64,
    pub data: Vec<u8>,
}

/// Asks to delete a file.
#[derive(Debug, Clone)]
pub struct DeleteFile {
    pub path: String,
}

/// Asks for the entries of a directory from `offset` on.
#[derive(Debug, Clone, Copy, PartialEq, Eq, Structural)]
pub struct ReadDir {
    pub ino: u64,
    pub offset: i64,
}

/// Why a directory could not be read.
#[derive(Debug, Clone, Copy, PartialEq, Eq, Structural)]
pub enum ReadDirError {
    NotFound,
}

/// The token of a `GetMetadata` request, naming its reply.
pub type GetMetadataToken = ReplyToken<Result<Metadata, GetMetadataError>>;

/// The token of a `Lookup` request, naming its reply.
pub type LookupToken = ReplyToken<Result<Metadata, LookupError>>;

/// The token of a `Open` request, naming its reply.
pub type OpenToken = ReplyToken<Result<u64, OpenError>>;

/// The token of a `CreateFile` request, naming its reply.
pub type CreateFileToken = ReplyToken<Result<(), ()>>;

/// The token of a `ReadFile` request, naming its reply.
pub type ReadFileToken = ReplyToken<Result<Vec<u8>, ReadFileError>>;

/// The token of a `WriteFile` request, naming its reply.
pub type WriteFileToken = ReplyToken<Result<u64, ()>>;

/// The token of a `DeleteFile` request, naming its reply.
pub type DeleteFileToken = ReplyToken<Result<(), ()>>;

/// The token of a `ReadDir` request, naming its reply.
pub type ReadDirToken = ReplyToken<Result<Vec<DirEntry>, ReadDirError>>;

/// A request from the client, with the token that its reply answers.
pub enum ClientMessage {
    GetMetadata(GetMetadata, GetMetadataToken),
    Lookup(Lookup, LookupToken),
    Open(Open, OpenToken),
    CreateFile(CreateFile, CreateFileToken),
    ReadFile(ReadFile, ReadFileToken),
    WriteFile(WriteFile, WriteFileToken),
    DeleteFile(DeleteFile, DeleteFileToken),
    ReadDir(ReadDir, ReadDirToken),
}

impl From<(GetMetadata, GetMetadataToken)> for ClientMessage {
    fn from(v: (GetMetadata, GetMetadataToken)) -> (m: Self)
        ensures
            m matches ClientMessage::GetMetadata(r, t) && r == v.0 && t == v.1,
    {
        ClientMessage::GetMetadata(v.0, v.1)
    }
}

impl vstd::std_specs::convert::FromSpecImpl<(GetMetadata, GetMetadataToken)> for ClientMessage {
    open spec fn obeys_from_spec() -> bool {
        true
    }

    open spec fn from_spec(v: (GetMetadata, GetMetadataToken)) -> Self {
        ClientMessage::GetMetadata(v.0, v.1)
    }
}

impl From<(Lookup, LookupToken)> for ClientMessage {
    fn from(v: (Lookup, LookupToken)) -> (m: Self)
        ensures
            m matches ClientMessage::Lookup(r, t) && r == v.0 && t == v.1,
    {
        ClientMessage::Lookup(v.0, v.1)
    }
}

impl vstd::std_specs::convert::FromSpecImpl<(Lookup, LookupToken)> for ClientMessage {
    open spec fn obeys_from_spec() -> bool {
        true
    }

    open spec fn from_spec(v: (Lookup, LookupToken)) -> Self {
        ClientMessage::Lookup(v.0, v.1)
    }
}

impl From<(Open, OpenToken)> for ClientMessage {
    fn from(v: (Open, OpenToken)) -> (m: Self)
        ensures
            m matches ClientMessage::Open(r, t) && r == v.0 && t == v.1,
    {
        ClientMessage::Open(v.0, v.1)
    }
}

impl vstd::std_specs::convert::FromSpecImpl<(Open, OpenToken)> for ClientMessage {
    open spec fn obeys_from_spec() -> bool {
        true
    }

    open spec fn from_spec(v: (Open, OpenToken)) -> Self {
        ClientMessage::Open(v.0, v.1)
    }
}

impl From<(CreateFile, CreateFileToken)> for ClientMessage {
    fn from(v: (CreateFile, CreateFileToken)) -> (m: Self)
        ensures
            m matches ClientMessage::CreateFile(r, t) && r == v.0 && t == v.1,
    {
        ClientMessage::CreateFile(v.0, v.1)
    }
}

impl vstd::std_specs::convert::FromSpecImpl<(CreateFile, CreateFileToken)> for ClientMessage {
    open spec fn obeys_from_spec() -> bool {
        true
    }

    open spec fn from_spec(v: (CreateFile, CreateFileToken)) -> Self {
        ClientMessage::CreateFile(v.0, v.1)
    }
}

impl From<(ReadFile, ReadFileToken)> for ClientMessage {
    fn from(v: (ReadFile, ReadFileToken)) -> (m: Self)
        ensures
            m matches ClientMessage::ReadFile(r, t) && r == v.0 && t == v.1,
    {
        ClientMessage::ReadFile(v.0, v.1)
    }
}

impl vstd::std_specs::convert::FromSpecImpl<(ReadFile, ReadFileToken)> for ClientMessage {
    open spec fn obeys_from_spec() -> bool {
        true
    }

    open spec fn from_spec(v: (ReadFile, ReadFileToken)) -> Self {
        ClientMessage::ReadFile(v.0, v.1)
    }
}

impl From<(WriteFile, WriteFileToken)> for ClientMessage {
    fn from(v: (WriteFile, WriteFileToken)) -> (m: Self)
        ensures
            m matches ClientMessage::WriteFile(r, t) && r == v.0 && t == v.1,
    {
        ClientMessage::WriteFile(v.0, v.1)
    }
}

impl vstd::std_specs::convert::FromSpecImpl<(WriteFile, WriteFileToken)> for ClientMessage {
    open spec fn obeys_from_spec() -> bool {
        true
    }

    open spec fn from_spec(v: (WriteFile, WriteFileToken)) -> Self {
        ClientMessage::WriteFile(v.0, v.1)
    }
}

impl From<(DeleteFile, DeleteFileToken)> for ClientMessage {
    fn from(v: (DeleteFile, DeleteFileToken)) -> (m: Self)
        ensures
            m matches ClientMessage::DeleteFile(r, t) && r == v.0 && t == v.1,
    {
        ClientMessage::DeleteFile(v.0, v.1)
    }
}

impl vstd::std_specs::convert::FromSpecImpl<(DeleteFile, DeleteFileToken)> for ClientMessage {
    open spec fn obeys_from_spec() -> bool {
        true
    }

    open spec fn from_spec(v: (DeleteFile, DeleteFileToken)) -> Self {
        ClientMessage::DeleteFile(v.0, v.1)
    }
}

impl From<(ReadDir, ReadDirToken)> for ClientMessage {
    fn from(v: (ReadDir, ReadDirToken)) -> (m: Self)
        ensures
            m matches ClientMessage::ReadDir(r, t) && r == v.0 && t == v.1,
    {
        ClientMessage::ReadDir(v.0, v.1)
    }
}

impl vstd::std_specs::convert::FromSpecImpl<(ReadDir, ReadDirToken)> for ClientMessage {
    open spec fn obeys_from_spec() -> bool {
        true
    }

    open spec fn from_spec(v: (ReadDir, ReadDirToken)) -> Self {
        ClientMessage::ReadDir(v.0, v.1)
    }
}

/// A message built from a request and its token carries that request and
/// that token unchanged, under the variant of the request's kind: the inode,
/// offsets, sizes, names and data that the server acts on are those the
/// client asked for, and the reply goes to the token's id.
pub proof fn lemma_message_carries_request(
    get: GetMetadata,
    get_t: GetMetadataToken,
    look: Lookup,
    look_t: LookupToken,
    open: Open,
    open_t: OpenToken,
    create: CreateFile,
    create_t: CreateFileToken,
    read: ReadFile,
    read_t: ReadFileToken,
    write: WriteFile,
    write_t: WriteFileToken,
    delete: DeleteFile,
    delete_t: DeleteFileToken,
    dir: ReadDir,
    dir_t: ReadDirToken,
)
    ensures
        <ClientMessage as FromSpec<(GetMetadata, GetMetadataToken)>>::obeys_from_spec(),
        <ClientMessage as FromSpec<(GetMetadata, GetMetadataToken)>>::from_spec((get, get_t)) matches ClientMessage::GetMetadata(
            r,
            t,
        ) && r == get && t == get_t,
        <ClientMessage as FromSpec<(Lookup, LookupToken)>>::obeys_from_spec(),
        <ClientMessage as FromSpec<(Lookup, LookupToken)>>::from_spec((look, look_t)) matches ClientMessage::Lookup(
            r,
            t,
        ) && r == look && t == look_t,
        <ClientMessage as FromSpec<(Open, OpenToken)>>::obeys_from_spec(),
        <ClientMessage as FromSpec<(Open, OpenToken)>>::from_spec((open, open_t)) matches ClientMessage::Open(
            r,
            t,
        ) && r == open && t == open_t,
        <ClientMessage as FromSpec<(CreateFile, CreateFileToken)>>::obeys_from_spec(),
        <ClientMessage as FromSpec<(CreateFile, CreateFileToken)>>::from_spec((create, create_t)) matches ClientMessage::CreateFile(
            r,
            t,
        ) && r == create && t == create_t,
        <ClientMessage as FromSpec<(ReadFile, ReadFileToken)>>::obeys_from_spec(),
        <ClientMessage as FromSpec<(ReadFile, ReadFileToken)>>::from_spec((read, read_t)) matches ClientMessage::ReadFile(
            r,
            t,
        ) && r == read && t == read_t,
        <ClientMessage as FromSpec<(WriteFile, WriteFileToken)>>::obeys_from_spec(),
        <ClientMessage as FromSpec<(WriteFile, WriteFileToken)>>::from_spec((write, write_t)) matches ClientMessage::WriteFile(
            r,
            t,
        ) && r == write && t == write_t,
        <ClientMessage as FromSpec<(DeleteFile, DeleteFileToken)>>::obeys_from_spec(),
        <ClientMessage as FromSpec<(DeleteFile, DeleteFileToken)>>::from_spec((delete, delete_t)) matches ClientMessage::DeleteFile(
            r,
            t,
        ) && r == delete && t == delete_t,
        <ClientMessage as FromSpec<(ReadDir, ReadDirToken)>>::obeys_from_spec(),
        <ClientMessage as FromSpec<(ReadDir, ReadDirToken)>>::from_spec((dir, dir_t)) matches ClientMessage::ReadDir(
            r,
            t,
        ) && r == dir && t == dir_t,
{
}

} // verus!
