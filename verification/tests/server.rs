use unishare::common::{
    ClientMessage, FileType, GetMetadata, GetMetadataError, Lookup, LookupError, Metadata, Open,
    OpenError, ReadFile, ReadFileError, WriteFile,
};
use unishare::server::{
    get_metadata_reply, lookup_reply, open_reply, read_file_reply, session_action, Handler,
    SessionAction,
};
use unishare::transport::ReplyToken;

#[test]
fn session_dispatch() {
    let get = ClientMessage::from((GetMetadata { ino: 1 }, ReplyToken::new(-1)));
    assert_eq!(session_action(&Some(get)), SessionAction::Serve(Handler::GetMetadata));
    let look = ClientMessage::from((Lookup { parent: 1, name: "a".to_string() }, ReplyToken::new(-2)));
    assert_eq!(session_action(&Some(look)), SessionAction::Serve(Handler::Lookup));
    let open = ClientMessage::from((Open { ino: 3 }, ReplyToken::new(-3)));
    assert_eq!(session_action(&Some(open)), SessionAction::Serve(Handler::Open));
    let read = ClientMessage::from((ReadFile { ino: 3, offset: 0, size: 4 }, ReplyToken::new(-4)));
    assert_eq!(session_action(&Some(read)), SessionAction::Serve(Handler::ReadFile));
    let write = ClientMessage::from((
        WriteFile { path: "p".to_string(), start: 0, data: vec![1] },
        ReplyToken::new(-5),
    ));
    assert_eq!(session_action(&Some(write)), SessionAction::Unsupported);
    assert_eq!(session_action(&None), SessionAction::Stop);
}

#[test]
fn replies_from_store_results() {
    let m = Metadata { ino: 2, size: 3, kind: FileType::Regular, name: "x".to_string() };
    assert_eq!(get_metadata_reply(Some(m)).unwrap().ino, 2);
    assert_eq!(get_metadata_reply(None).unwrap_err(), GetMetadataError::NotFound);
    let m = Metadata { ino: 4, size: 0, kind: FileType::Directory, name: "d".to_string() };
    assert_eq!(lookup_reply(Some(m)).unwrap().name, "d");
    assert_eq!(lookup_reply(None).unwrap_err(), LookupError::NotFound);
    assert_eq!(open_reply(&Open { ino: 9 }), Ok(9));
    assert_eq!(read_file_reply(Some(vec![5, 6])), Ok(vec![5, 6]));
    assert_eq!(read_file_reply(None), Err(ReadFileError::NotFound));
    let _ = OpenError::NotFound;
}
