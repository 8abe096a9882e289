//! How the server answers the requests of a client: which requests it serves,
//! and how what the store found becomes a reply.

use crate::common::{
    ClientMessage, GetMetadataError, LookupError, Metadata, Open, OpenError, ReadFileError,
};
use vstd::prelude::*;

verus! {

/// The request handlers that the server has.
#[derive(Clone, Copy, Debug, PartialEq, Eq, Structural)]
pub enum Handler {
    GetMetadata,
    Lookup,
    Open,
    ReadFile,
}

/// What the session does with what it received.
#[derive(Clone, Copy, Debug, PartialEq, Eq, Structural)]
pub enum SessionAction {
    /// Serve the request with this handler.
    Serve(Handler),
    /// The client has closed the session: end it.
    Stop,
    /// A request that this server does not implement.
    Unsupported,
}

/// What the session does with a received message, or with the end of the
/// stream (`None`).
pub fn session_action(msg: &Option<ClientMessage>) -> (a: SessionAction)
    ensures
        a == match msg {
            None => SessionAction::Stop,
            Some(ClientMessage::GetMetadata(..)) => SessionAction::Serve(Handler::GetMetadata),
            Some(ClientMessage::Lookup(..)) => SessionAction::Serve(Handler::Lookup),
            Some(ClientMessage::Open(..)) => SessionAction::Serve(Handler::Open),
            Some(ClientMessage::ReadFile(..)) => SessionAction::Serve(Handler::ReadFile),
            Some(_) => SessionAction::Unsupported,
        },
{
    match msg {
        None => SessionAction::Stop,
        Some(ClientMessage::GetMetadata(..)) => SessionAction::Serve(Handler::GetMetadata),
        Some(ClientMessage::Lookup(..)) => SessionAction::Serve(Handler::Lookup),
        Some(ClientMessage::Open(..)) => SessionAction::Serve(Handler::Open),
        Some(ClientMessage::ReadFile(..)) => SessionAction::Serve(Handler::ReadFile),
        Some(_) => SessionAction::Unsupported,
    }
}

/// The reply to a request for metadata: what the store found, or
/// `NotFound`.
pub fn get_metadata_reply(found: Option<Metadata>) -> (r: Result<Metadata, GetMetadataError>)
    ensures
        match found {
            Some(m) => r matches Ok(x) && x@ == m@,
            None => r == Err::<Metadata, GetMetadataError>(GetMetadataError::NotFound),
        },
{
    match found {
        Some(m) => Ok(m),
        None => Err(GetMetadataError::NotFound),
    }
}

/// The reply to a lookup: the metadata of the file found, or `NotFound`.
pub fn lookup_reply(found: Option<Metadata>) -> (r: Result<Metadata, LookupError>)
    ensures
        match found {
            Some(m) => r matches Ok(x) && x@ == m@,
            None => r == Err::<Metadata, LookupError>(LookupError::NotFound),
        },
{
    match found {
        Some(m) => Ok(m),
        None => Err(LookupError::NotFound),
    }
}

/// The reply to a request to open a file: the inode itself serves as the
/// file handle.
pub fn open_reply(req: &Open) -> (r: Result<u64, OpenError>)
    ensures
        r == Ok::<u64, OpenError>(req.ino),
{
    Ok(req.ino)
}

/// The reply to a read: the bytes read, or `NotFound` when the file has no
/// metadata.
pub fn read_file_reply(data: Option<Vec<u8>>) -> (r: Result<Vec<u8>, ReadFileError>)
    ensures
        match data {
            Some(d) => r matches Ok(x) && x@ == d@,
            None => r == Err::<Vec<u8>, ReadFileError>(ReadFileError::NotFound),
        },
{
    match data {
        Some(d) => Ok(d),
        None => Err(ReadFileError::NotFound),
    }
}

} // verus!
