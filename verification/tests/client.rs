use unishare::client::{
    file_type_default_perms, file_type_to_mode, getattr_answer, lookup_answer, open_answer,
    read_answer, read_request, readdir_answer, readdir_request, Attr, FuseError, Opened,
    RequestError,
};
use unishare::common::{
    FileType, GetMetadataError, LookupError, Metadata, OpenError, ReadDirError, ReadFileError,
};

fn meta(ino: u64, size: u64, kind: FileType) -> Metadata {
    Metadata { ino, size, kind, name: "n".to_string() }
}

#[test]
fn modes_and_permissions() {
    assert_eq!(file_type_to_mode(FileType::Regular), 0o100000);
    assert_eq!(file_type_to_mode(FileType::Directory), 0o040000);
    assert_eq!(file_type_default_perms(FileType::Regular), 0o644);
    assert_eq!(file_type_default_perms(FileType::Directory), 0o755);
    let a = Attr { ino: 1, size: 10, kind: FileType::Regular };
    assert_eq!(a.perm(), 0o100644);
    assert_eq!(a.blocks(), 10);
    let d = Attr { ino: 1, size: 0, kind: FileType::Directory };
    assert_eq!(d.perm(), 0o040755);
}

#[test]
fn attr_from_metadata() {
    let a = Attr::from(meta(5, 77, FileType::Directory));
    assert_eq!(a, Attr { ino: 5, size: 77, kind: FileType::Directory });
}

#[test]
fn request_error_is_transport() {
    assert_eq!(FuseError::from(RequestError::NoReply), FuseError::Transport);
}

#[test]
fn getattr_answers() {
    assert_eq!(
        getattr_answer(Ok(Ok(meta(3, 4, FileType::Regular)))),
        Ok(Attr { ino: 3, size: 4, kind: FileType::Regular })
    );
    assert_eq!(getattr_answer(Ok(Err(GetMetadataError::NotFound))), Err(FuseError::NotFound));
    assert_eq!(getattr_answer(Err(RequestError::NoReply)), Err(FuseError::Transport));
}

#[test]
fn lookup_answers() {
    assert_eq!(
        lookup_answer(Ok(Ok(meta(8, 0, FileType::Directory)))),
        Ok(Attr { ino: 8, size: 0, kind: FileType::Directory })
    );
    assert_eq!(lookup_answer(Ok(Err(LookupError::NotFound))), Err(FuseError::NotFound));
    assert_eq!(lookup_answer(Err(RequestError::NoReply)), Err(FuseError::Transport));
}

#[test]
fn open_answers() {
    assert_eq!(open_answer(Ok(Ok(12)), 2), Ok(Opened { fh: 12, flags: 2 }));
    assert_eq!(open_answer(Ok(Err(OpenError::NotFound)), 2), Err(FuseError::NotFound));
    assert_eq!(open_answer(Err(RequestError::NoReply), -1), Err(FuseError::Transport));
}

#[test]
fn read_requests_and_answers() {
    let r = read_request(4, 100, 50);
    assert_eq!((r.ino, r.offset, r.size), (4, 100, 50));
    assert_eq!(read_answer(Ok(Ok(vec![1, 2]))), Ok(vec![1, 2]));
    assert_eq!(read_answer(Ok(Err(ReadFileError::NotFound))), Err(FuseError::NotFound));
    assert_eq!(read_answer(Err(RequestError::NoReply)), Err(FuseError::Transport));
}

#[test]
fn readdir_requests_and_answers() {
    let r = readdir_request(1, 3);
    assert_eq!((r.ino, r.offset), (1, 3));
    let listed = readdir_answer(Ok(Ok(vec![meta(2, 0, FileType::Regular)]))).unwrap();
    assert_eq!(listed.len(), 1);
    assert_eq!(listed[0].ino, 2);
    assert!(matches!(readdir_answer(Ok(Err(ReadDirError::NotFound))), Err(FuseError::NotFound)));
    assert!(matches!(readdir_answer(Err(RequestError::NoReply)), Err(FuseError::Transport)));
}
