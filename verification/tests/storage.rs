use unishare::common::FileType;
use unishare::storage::{
    allocated_ino_of, create_verdict, directory_with_entry, grown_metadata, lookup_answer,
    new_file_metadata, next_ino_record, parse_directory, path_to_storage_path, read_progress,
    root_directory_record,
    root_metadata, root_metadata_record, serialize_directory, start_create, storage_file_name, InoKey, NameScan,
    ScanStep, StorageError, ROOT_INO,
};
use unishare::common::Metadata;

fn meta(ino: u64, name: &str) -> Metadata {
    Metadata { ino, size: 0, kind: FileType::Regular, name: name.to_string() }
}

#[test]
fn ino_key_is_big_endian() {
    let key = InoKey::from(0x0102030405060708u64);
    assert_eq!(key.as_bytes(), &[1, 2, 3, 4, 5, 6, 7, 8]);
    assert_eq!(u64::from(InoKey::from(99u64)), 99);
    assert_eq!(InoKey::of(1).as_bytes(), &[0, 0, 0, 0, 0, 0, 0, 1]);
    assert!(InoKey::read_from(&[1, 2, 3]).is_none());
    assert_eq!(InoKey::read_from(&[0, 0, 0, 0, 0, 0, 1, 0]).unwrap().ino(), 256);
}

#[test]
fn directory_roundtrip() {
    let dir = vec![1u64, 2, 300, u64::MAX];
    let data = serialize_directory(&dir);
    assert_eq!(data.len(), 32);
    assert_eq!(&data[16..24], &[0, 0, 0, 0, 0, 0, 1, 44]);
    assert_eq!(parse_directory(&data), dir);
}

#[test]
fn directory_ignores_trailing_partial_entry() {
    let mut data = serialize_directory(&[5, 6]);
    data.extend_from_slice(&[9, 9, 9]);
    assert_eq!(parse_directory(&data), vec![5, 6]);
    assert_eq!(parse_directory(&[]), Vec::<u64>::new());
}

#[test]
fn adding_to_directory() {
    let fresh = directory_with_entry(None, 4);
    assert_eq!(fresh, vec![0, 0, 0, 0, 0, 0, 0, 4]);
    let two = directory_with_entry(Some(&fresh), 5);
    assert_eq!(parse_directory(&two), vec![4, 5]);
    let again = directory_with_entry(Some(&two), 4);
    assert_eq!(parse_directory(&again), vec![4, 5]);
    let empty = directory_with_entry(Some(&[]), 7);
    assert_eq!(parse_directory(&empty), vec![7]);
}

#[test]
fn root_records() {
    assert_eq!(root_directory_record(None), Vec::<u8>::new());
    assert_eq!(root_directory_record(Some(&[1, 2])), vec![1, 2]);
    let root = root_metadata();
    assert_eq!(root.ino, ROOT_INO);
    assert_eq!(root.size, 0);
    assert_eq!(root.kind, FileType::Directory);
    assert_eq!(root.name, "");
}

#[test]
fn inode_allocation_sequence() {
    // first allocation: no record yet
    assert_eq!(allocated_ino_of(None), 2);
    let r1 = next_ino_record(None);
    assert_eq!(r1, vec![0, 0, 0, 0, 0, 0, 0, 4]);
    assert_eq!(allocated_ino_of(Some(&r1)), 4);
    let r2 = next_ino_record(Some(&r1));
    assert_eq!(allocated_ino_of(Some(&r2)), 5);
}

fn run_scan(entries: Vec<u64>, name: &str, store: &[Metadata]) -> ScanStep {
    let (mut scan, mut step) = NameScan::new(entries, name.to_string());
    loop {
        match step {
            ScanStep::ReadMetadata(ino) => {
                let m = store.iter().find(|m| m.ino == ino).map(|m| m.duplicate());
                step = scan.on_metadata(m);
            }
            other => return other,
        }
    }
}

#[test]
fn scan_finds_first_match() {
    let store = vec![meta(2, "a"), meta(4, "b"), meta(5, "b")];
    match run_scan(vec![2, 4, 5], "b", &store) {
        ScanStep::Found(m) => assert_eq!(m.ino, 4),
        _ => panic!("expected a match"),
    }
}

#[test]
fn scan_without_match_is_exhausted() {
    let store = vec![meta(2, "a"), meta(4, "b")];
    assert!(matches!(run_scan(vec![2, 4], "c", &store), ScanStep::Exhausted));
    assert!(matches!(run_scan(vec![], "c", &store), ScanStep::Exhausted));
}

#[test]
fn scan_stops_at_missing_metadata() {
    let store = vec![meta(2, "a"), meta(5, "c")];
    assert!(matches!(run_scan(vec![2, 4, 5], "c", &store), ScanStep::Missing));
}

#[test]
fn lookup_answers_from_scan() {
    let store = vec![meta(2, "a")];
    assert_eq!(lookup_answer(run_scan(vec![2], "a", &store)).unwrap().ino, 2);
    assert!(lookup_answer(ScanStep::Exhausted).is_none());
    assert!(lookup_answer(ScanStep::Missing).is_none());
}

#[test]
fn create_checks() {
    assert!(matches!(start_create(None, "x".to_string()), Err(StorageError::DoesNotExist)));
    let (_, step) = start_create(Some(vec![]), "x".to_string()).ok().unwrap();
    assert!(create_verdict(&step).is_ok());
    assert!(matches!(create_verdict(&ScanStep::Found(meta(3, "x"))), Err(StorageError::AlreadyExists)));
    let m = new_file_metadata(9, "test.txt");
    assert_eq!((m.ino, m.size, m.kind, m.name.as_str()), (9, 0, FileType::Regular, "test.txt"));
}

#[test]
fn write_grows_file() {
    let m = meta(3, "f");
    let grown = grown_metadata(&m, 0, 9).expect("grows");
    assert_eq!(grown.size, 9);
    assert_eq!(grown.name, "f");
    assert!(grown_metadata(&grown, 2, 3).is_none());
    assert_eq!(grown_metadata(&grown, 5, 10).unwrap().size, 15);
}

#[test]
fn data_file_names() {
    assert_eq!(storage_file_name(0), "0");
    assert_eq!(storage_file_name(7), "7");
    assert_eq!(storage_file_name(1234567890), "1234567890");
    assert_eq!(storage_file_name(u64::MAX), "18446744073709551615");
}

#[test]
fn storage_paths_are_url_safe_base64() {
    assert_eq!(path_to_storage_path("~~~"), "fn5-");
    assert_eq!(path_to_storage_path("dir/file?.txt"), "ZGlyL2ZpbGU_LnR4dA==");
    assert_eq!(path_to_storage_path(""), "");
    assert_eq!(path_to_storage_path("ab"), "YWI=");
    assert_eq!(path_to_storage_path("abc"), "YWJj");
}

#[test]
fn created_file_is_found() {
    let mut store = vec![meta(2, "a"), meta(4, "b")];
    let dir = serialize_directory(&[2, 4]);
    let (mut scan, mut step) = start_create(Some(parse_directory(&dir)), "c".to_string()).ok().unwrap();
    while let ScanStep::ReadMetadata(ino) = step {
        let m = store.iter().find(|m| m.ino == ino).map(|m| m.duplicate());
        step = scan.on_metadata(m);
    }
    assert!(create_verdict(&step).is_ok());
    store.push(new_file_metadata(5, "c"));
    let dir = directory_with_entry(Some(&dir), 5);
    match run_scan(parse_directory(&dir), "c", &store) {
        ScanStep::Found(m) => assert_eq!((m.ino, m.name.as_str()), (5, "c")),
        _ => panic!("created file not found"),
    }
}

#[test]
fn distinct_inodes_have_distinct_files() {
    let names: Vec<String> = (0..200u64).map(storage_file_name).collect();
    for i in 0..names.len() {
        for j in (i + 1)..names.len() {
            assert_ne!(names[i], names[j]);
        }
    }
}

#[test]
fn read_loop_progress() {
    assert_eq!(read_progress(0, 10, 4), (4, true));
    assert_eq!(read_progress(4, 10, 6), (10, false));
    assert_eq!(read_progress(4, 10, 0), (4, false));
}

#[test]
fn root_metadata_record_keeps_existing() {
    assert_eq!(root_metadata_record(Some(&[7, 8]), vec![1]), vec![7, 8]);
    assert_eq!(root_metadata_record(None, vec![1, 2]), vec![1, 2]);
}

#[test]
fn additions_keep_first_occurrence_order() {
    let mut record: Option<Vec<u8>> = None;
    for ino in [4u64, 5, 4, 6, 5, 6, 9] {
        record = Some(directory_with_entry(record.as_deref(), ino));
    }
    assert_eq!(parse_directory(&record.unwrap()), vec![4, 5, 6, 9]);
}

/// A store held in memory, driven by the library's decisions as the file
/// store drives them.
struct MemStore {
    dirs: std::collections::HashMap<u64, Vec<u8>>,
    metas: std::collections::HashMap<u64, Metadata>,
    record: Option<Vec<u8>>,
}

impl MemStore {
    fn new() -> Self {
        let mut dirs = std::collections::HashMap::new();
        dirs.insert(ROOT_INO, root_directory_record(None));
        let mut metas = std::collections::HashMap::new();
        metas.insert(ROOT_INO, root_metadata());
        MemStore { dirs, metas, record: None }
    }

    fn create(&mut self, parent: u64, name: &str) -> Result<u64, StorageError> {
        let ino = allocated_ino_of(self.record.as_deref());
        self.record = Some(next_ino_record(self.record.as_deref()));
        let dir = self.dirs.get(&parent).map(|d| parse_directory(d));
        let (mut scan, mut step) = start_create(dir, name.to_string())?;
        while let ScanStep::ReadMetadata(e) = step {
            step = scan.on_metadata(self.metas.get(&e).map(|m| m.duplicate()));
        }
        create_verdict(&step)?;
        self.metas.insert(ino, new_file_metadata(ino, name));
        let updated = directory_with_entry(self.dirs.get(&parent).map(|d| d.as_slice()), ino);
        self.dirs.insert(parent, updated);
        Ok(ino)
    }

    fn lookup(&self, parent: u64, name: &str) -> Option<Metadata> {
        let dir = parse_directory(self.dirs.get(&parent)?);
        let (mut scan, mut step) = NameScan::new(dir, name.to_string());
        while let ScanStep::ReadMetadata(e) = step {
            step = scan.on_metadata(self.metas.get(&e).map(|m| m.duplicate()));
        }
        lookup_answer(step)
    }
}

#[test]
fn store_keeps_names_unique_and_finds_created_files() {
    let mut s = MemStore::new();
    let a = s.create(ROOT_INO, "a").unwrap();
    let b = s.create(ROOT_INO, "b").unwrap();
    assert!(matches!(s.create(ROOT_INO, "a"), Err(StorageError::AlreadyExists)));
    assert!(matches!(s.create(77, "x"), Err(StorageError::DoesNotExist)));
    let c = s.create(ROOT_INO, "c").unwrap();
    assert_eq!((a, b, c), (2, 4, 7));
    let listing = parse_directory(&s.dirs[&ROOT_INO]);
    assert_eq!(listing, vec![2, 4, 7]);
    for name in ["a", "b", "c"] {
        let m = s.lookup(ROOT_INO, name).unwrap();
        assert_eq!((m.size, m.kind, m.name.as_str()), (0, FileType::Regular, name));
    }
    assert!(s.lookup(ROOT_INO, "d").is_none());
}

#[test]
fn created_file_found_even_when_its_inode_was_listed() {
    let mut s = MemStore::new();
    let a = s.create(ROOT_INO, "a").unwrap();
    s.record = None;
    let b = s.create(ROOT_INO, "b").unwrap();
    assert_eq!(a, b);
    assert_eq!(parse_directory(&s.dirs[&ROOT_INO]), vec![a]);
    let m = s.lookup(ROOT_INO, "b").unwrap();
    assert_eq!((m.ino, m.name.as_str()), (b, "b"));
}
