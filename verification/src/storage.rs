//! The decisions and encodings of the file store: inode keys, directory
//! records, inode allocation, the search of a directory by name, and how a
//! write grows a file. The database and the data files themselves are
//! reached by the program around this library.

use crate::bytes::{
    decimal, decimal_string, lemma_decimal_injective, lemma_u64_be_bytes_roundtrip,
    lemma_u64_be_value_roundtrip, push_u64_be, read_u64_be, u64_from_be, u64_to_be,
};
use crate::common::{FileType, Metadata, MetadataView};
use vstd::prelude::*;
use vstd::std_specs::convert::FromSpec;
use vstd::string::StringSliceAdditionalSpecFns;

verus! {

/// The inode of the root directory.
pub const ROOT_INO: u64 = 1;

/// The inode handed out when no allocation has been recorded yet.
pub const FIRST_ALLOCATED_INO: u64 = 2;

/// The value that the allocation record starts from when it is missing.
pub const INITIAL_INO_RECORD: u64 = 3;

/// The database key of an inode: its number as eight big-endian bytes, so
/// that keys sort as the numbers do.
pub struct InoKey {
    pub ino: [u8; 8],
}

impl View for InoKey {
    type V = Seq<u8>;

    open spec fn view(&self) -> Seq<u8> {
        self.ino@
    }
}

impl From<u64> for InoKey {
    fn from(ino: u64) -> (key: Self)
        ensures
            key@ == u64_to_be(ino),
    {
        let key = InoKey {
            ino: [
                (ino >> 56u64) as u8,
                (ino >> 48u64) as u8,
                (ino >> 40u64) as u8,
                (ino >> 32u64) as u8,
                (ino >> 24u64) as u8,
                (ino >> 16u64) as u8,
                (ino >> 8u64) as u8,
                ino as u8,
            ],
        };
        assert(key.ino@ =~= u64_to_be(ino));
        key
    }
}

impl vstd::std_specs::convert::FromSpecImpl<u64> for InoKey {
    open spec fn obeys_from_spec() -> bool {
        true
    }

    open spec fn from_spec(ino: u64) -> Self {
        InoKey { ino: u64_to_be_array(ino) }
    }
}

/// The eight big-endian bytes of `v` as an array.
pub open spec fn u64_to_be_array(v: u64) -> [u8; 8] {
    [
        (v >> 56u64) as u8,
        (v >> 48u64) as u8,
        (v >> 40u64) as u8,
        (v >> 32u64) as u8,
        (v >> 24u64) as u8,
        (v >> 16u64) as u8,
        (v >> 8u64) as u8,
        v as u8,
    ]
}

impl From<InoKey> for u64 {
    fn from(key: InoKey) -> (ino: u64)
        ensures
            ino == u64_from_be(key@),
    {
        assert(key.ino@.subrange(0, 8) =~= key.ino@);
        read_u64_be(key.ino.as_slice(), 0)
    }
}

impl vstd::std_specs::convert::FromSpecImpl<InoKey> for u64 {
    open spec fn obeys_from_spec() -> bool {
        true
    }

    open spec fn from_spec(key: InoKey) -> u64 {
        u64_from_be(key.ino@.subrange(0, 8))
    }
}

impl InoKey {
    /// The key of inode `ino`.
    pub fn of(ino: u64) -> (key: Self)
        ensures
            key@ == u64_to_be(ino),
    {
        let key = InoKey::from(ino);
        assert(key.ino@ =~= u64_to_be(ino));
        key
    }

    /// The bytes of the key.
    pub fn as_bytes(&self) -> (b: &[u8])
        ensures
            b@ == self@,
    {
        self.ino.as_slice()
    }

    /// The key held in `bytes`, if they are exactly eight.
    pub fn read_from(bytes: &[u8]) -> (key: Option<Self>)
        ensures
            key is Some <==> bytes@.len() == 8,
            key matches Some(k) ==> k@ == bytes@,
    {
        if bytes.len() != 8 {
            return None;
        }
        let key = InoKey {
            ino: [bytes[0], bytes[1], bytes[2], bytes[3], bytes[4], bytes[5], bytes[6], bytes[7]],
        };
        assert(key.ino@ =~= bytes@);
        Some(key)
    }

    /// The inode number that the key names.
    pub fn ino(&self) -> (ino: u64)
        ensures
            ino == u64_from_be(self@),
    {
        let ino = read_u64_be(self.ino.as_slice(), 0);
        assert(self.ino@.subrange(0, 8) =~= self@);
        ino
    }
}

/// Converting an inode number to its key and back gives the number, and
/// distinct inodes have distinct keys.
pub proof fn lemma_ino_key_conversions(ino: u64, other: u64)
    ensures
        <InoKey as FromSpec<u64>>::obeys_from_spec(),
        <u64 as FromSpec<InoKey>>::obeys_from_spec(),
        <u64 as FromSpec<InoKey>>::from_spec(<InoKey as FromSpec<u64>>::from_spec(ino)) == ino,
        ino != other ==> <InoKey as FromSpec<u64>>::from_spec(ino)@ != <InoKey as FromSpec<
            u64,
        >>::from_spec(other)@,
{
    let k = <InoKey as FromSpec<u64>>::from_spec(ino);
    assert(k.ino@ =~= u64_to_be(ino));
    assert(k.ino@.subrange(0, 8) =~= u64_to_be(ino));
    lemma_u64_be_value_roundtrip(ino);
    let k2 = <InoKey as FromSpec<u64>>::from_spec(other);
    assert(k2.ino@ =~= u64_to_be(other));
    lemma_u64_be_value_roundtrip(other);
}

/// A key names the inode that it was made from.
pub proof fn lemma_ino_key_roundtrip(ino: u64)
    ensures
        u64_from_be(u64_to_be(ino)) == ino,
{
    lemma_u64_be_value_roundtrip(ino);
}

/// The inodes that a directory record lists: one per complete group of
/// eight bytes, read big-endian; trailing bytes that do not fill a group are
/// ignored.
pub open spec fn directory_entries(data: Seq<u8>) -> Seq<u64> {
    Seq::new(data.len() / 8, |i: int| u64_from_be(data.subrange(8 * i, 8 * i + 8)))
}

/// The record of a directory that lists `dir`.
pub open spec fn directory_bytes(dir: Seq<u64>) -> Seq<u8>
    decreases dir.len(),
{
    if dir.len() == 0 {
        Seq::empty()
    } else {
        directory_bytes(dir.drop_last()) + u64_to_be(dir.last())
    }
}

/// A directory record holds the eight bytes of each entry in turn.
pub proof fn lemma_directory_bytes_layout(dir: Seq<u64>)
    ensures
        directory_bytes(dir).len() == 8 * dir.len(),
        forall|i: int|
            0 <= i < dir.len() ==> #[trigger] directory_bytes(dir).subrange(8 * i, 8 * i + 8)
                == u64_to_be(dir[i]),
    decreases dir.len(),
{
    if dir.len() > 0 {
        let init = dir.drop_last();
        lemma_directory_bytes_layout(init);
        lemma_u64_be_value_roundtrip(dir.last());
        let b = directory_bytes(dir);
        assert forall|i: int| 0 <= i < dir.len() implies #[trigger] b.subrange(8 * i, 8 * i + 8)
            == u64_to_be(dir[i]) by {
            if i < init.len() {
                assert(b.subrange(8 * i, 8 * i + 8) =~= directory_bytes(init).subrange(
                    8 * i,
                    8 * i + 8,
                ));
            } else {
                assert(b.subrange(8 * i, 8 * i + 8) =~= u64_to_be(dir.last()));
            }
        }
    }
}

/// Reading a written directory record gives back the same entries in the
/// same order.
pub proof fn lemma_directory_roundtrip(dir: Seq<u64>)
    ensures
        directory_entries(directory_bytes(dir)) == dir,
{
    lemma_directory_bytes_layout(dir);
    let b = directory_bytes(dir);
    assert forall|i: int| 0 <= i < dir.len() implies #[trigger] directory_entries(b)[i]
        == dir[i] by {
        assert(b.subrange(8 * i, 8 * i + 8) == u64_to_be(dir[i]));
        lemma_u64_be_value_roundtrip(dir[i]);
    }
    assert(directory_entries(b) =~= dir);
}

/// The entries listed by a directory record (`chunks_exact(8)`, read
/// big-endian).
pub fn parse_directory(data: &[u8]) -> (dir: Vec<u64>)
    ensures
        dir@ == directory_entries(data@),
{
    let n = data.len() / 8;
    let mut dir: Vec<u64> = Vec::new();
    let mut i: usize = 0;
    while i < n
        invariant
            n == data@.len() / 8,
            data@.len() <= usize::MAX,
            i <= n,
            dir@ =~= directory_entries(data@).subrange(0, i as int),
        decreases n - i,
    {
        assert(8 * i + 8 <= data@.len()) by (nonlinear_arith)
            requires
                i < n,
                n == data@.len() / 8,
        ;
        let v = read_u64_be(data, 8 * i);
        dir.push(v);
        i = i + 1;
    }
    dir
}

/// The record of a directory that lists `dir`.
pub fn serialize_directory(dir: &[u64]) -> (data: Vec<u8>)
    ensures
        data@ == directory_bytes(dir@),
{
    let mut data: Vec<u8> = Vec::new();
    let mut i: usize = 0;
    while i < dir.len()
        invariant
            i <= dir@.len(),
            data@ == directory_bytes(dir@.subrange(0, i as int)),
        decreases dir@.len() - i,
    {
        push_u64_be(&mut data, dir[i]);
        i = i + 1;
        assert(dir@.subrange(0, i as int).drop_last() =~= dir@.subrange(0, i - 1));
    }
    assert(dir@.subrange(0, i as int) =~= dir@);
    data
}

/// The entries of a directory after `ino` has been added to it: unchanged if
/// it is there already, else with `ino` at the end.
pub open spec fn entries_with(dir: Seq<u64>, ino: u64) -> Seq<u64> {
    if dir.contains(ino) {
        dir
    } else {
        dir.push(ino)
    }
}

/// The record of directory after `ino` has been added to the directory whose
/// record was `existing` (a directory without a record gets one that lists
/// only `ino`).
pub open spec fn record_with_entry(existing: Option<Seq<u8>>, ino: u64) -> Seq<u8> {
    match existing {
        Some(data) => directory_bytes(entries_with(directory_entries(data), ino)),
        None => u64_to_be(ino),
    }
}

/// Whether `dir` holds `ino`.
pub fn directory_contains(dir: &Vec<u64>, ino: u64) -> (r: bool)
    ensures
        r == dir@.contains(ino),
{
    let mut i: usize = 0;
    while i < dir.len()
        invariant
            i <= dir@.len(),
            forall|j: int| 0 <= j < i ==> dir@[j] != ino,
        decreases dir@.len() - i,
    {
        if dir[i] == ino {
            assert(dir@[i as int] == ino);
            return true;
        }
        i = i + 1;
    }
    false
}

/// The new record of a directory that `ino` is added to, given its record
/// so far.
pub fn directory_with_entry(existing: Option<&[u8]>, ino: u64) -> (data: Vec<u8>)
    ensures
        data@ == record_with_entry(
            match existing {
                Some(d) => Some(d@),
                None => None,
            },
            ino,
        ),
{
    match existing {
        Some(d) => {
            let mut dir = parse_directory(d);
            if !directory_contains(&dir, ino) {
                dir.push(ino);
            }
            serialize_directory(dir.as_slice())
        },
        None => {
            let mut data: Vec<u8> = Vec::new();
            push_u64_be(&mut data, ino);
            assert(data@ =~= u64_to_be(ino));
            data
        },
    }
}

/// After an inode is added to a directory, the directory lists it, and it
/// still lists everything it listed before, in the same order.
pub proof fn lemma_added_entry_listed(existing: Option<Seq<u8>>, ino: u64)
    ensures
        directory_entries(record_with_entry(existing, ino)).contains(ino),
        existing matches Some(d) ==> directory_entries(d).is_prefix_of(
            directory_entries(record_with_entry(existing, ino)),
        ),
{
    match existing {
        Some(d) => {
            let dir = directory_entries(d);
            let new_dir = entries_with(dir, ino);
            lemma_directory_roundtrip(new_dir);
            if !dir.contains(ino) {
                assert(new_dir[dir.len() as int] == ino);
            }
            assert(dir.is_prefix_of(new_dir));
        },
        None => {
            lemma_directory_roundtrip(seq![ino]);
            assert(directory_bytes(seq![ino]) =~= u64_to_be(ino)) by {
                assert(seq![ino].drop_last() =~= Seq::<u64>::empty());
                assert(directory_bytes(Seq::<u64>::empty()) =~= Seq::<u8>::empty());
                assert(Seq::<u8>::empty() + u64_to_be(ino) =~= u64_to_be(ino));
            }
            assert(directory_entries(u64_to_be(ino))[0] == ino);
        },
    }
}

/// Adding an inode that a directory already lists leaves the listing as it
/// is; so adding the same inode twice lists it once.
pub proof fn lemma_add_entry_idempotent(existing: Option<Seq<u8>>, ino: u64)
    ensures
        directory_entries(record_with_entry(Some(record_with_entry(existing, ino)), ino))
            == directory_entries(record_with_entry(existing, ino)),
{
    lemma_added_entry_listed(existing, ino);
    let once = record_with_entry(existing, ino);
    let dir = directory_entries(once);
    assert(entries_with(dir, ino) == dir);
    lemma_directory_roundtrip(dir);
}

/// The entries of `s` with every repeat dropped after its first
/// occurrence, in the order of first occurrence.
pub open spec fn first_occurrences(s: Seq<u64>) -> Seq<u64>
    decreases s.len(),
{
    if s.len() == 0 {
        Seq::empty()
    } else {
        entries_with(first_occurrences(s.drop_last()), s.last())
    }
}

/// The record of a directory that had none, after `adds` were added to it
/// one after the other (none while nothing was added).
pub open spec fn record_after_adds(adds: Seq<u64>) -> Option<Seq<u8>>
    decreases adds.len(),
{
    if adds.len() == 0 {
        None
    } else {
        Some(record_with_entry(record_after_adds(adds.drop_last()), adds.last()))
    }
}

/// The listing of a directory that starts without a record and has inodes
/// added to it one after the other is the sequence of those inodes in the
/// order they were first added, each once.
pub proof fn lemma_adds_list_first_occurrences(adds: Seq<u64>)
    requires
        adds.len() >= 1,
    ensures
        record_after_adds(adds) matches Some(d) && directory_entries(d) == first_occurrences(adds),
        first_occurrences(adds).no_duplicates(),
    decreases adds.len(),
{
    let init = adds.drop_last();
    let x = adds.last();
    if init.len() == 0 {
        lemma_directory_roundtrip(seq![x]);
        assert(seq![x].drop_last() =~= Seq::<u64>::empty());
        assert(directory_bytes(Seq::<u64>::empty()) =~= Seq::<u8>::empty());
        assert(directory_bytes(seq![x]) =~= u64_to_be(x));
        assert(first_occurrences(init) =~= Seq::<u64>::empty());
        assert(entries_with(Seq::<u64>::empty(), x) =~= seq![x]);
    } else {
        lemma_adds_list_first_occurrences(init);
        let prev = first_occurrences(init);
        lemma_directory_roundtrip(entries_with(prev, x));
        if !prev.contains(x) {
            let next = prev.push(x);
            assert forall|i: int, j: int| 0 <= i < next.len() && 0 <= j < next.len() && i != j
                implies next[i] != next[j] by {
                if i < prev.len() && j < prev.len() {
                } else if i == prev.len() {
                    assert(next[j] == prev[j]);
                } else {
                    assert(next[i] == prev[i]);
                }
            }
        }
    }
}

/// The record of the root directory's metadata when the store is opened:
/// the existing record if there is one, else `default_record`, the encoding
/// of [`root_metadata`].
pub fn root_metadata_record(existing: Option<&[u8]>, default_record: Vec<u8>) -> (data: Vec<u8>)
    ensures
        data@ == match existing {
            Some(d) => d@,
            None => default_record@,
        },
{
    match existing {
        Some(d) => {
            let mut data: Vec<u8> = Vec::new();
            data.extend_from_slice(d);
            assert(data@ =~= d@);
            data
        },
        None => default_record,
    }
}

/// The record of the root directory when the store is opened: the existing
/// record if there is one, else an empty listing.
pub fn root_directory_record(existing: Option<&[u8]>) -> (data: Vec<u8>)
    ensures
        data@ == match existing {
            Some(d) => d@,
            None => Seq::<u8>::empty(),
        },
{
    match existing {
        Some(d) => {
            let mut data: Vec<u8> = Vec::new();
            data.extend_from_slice(d);
            assert(data@ =~= d@);
            data
        },
        None => Vec::new(),
    }
}

/// The metadata that the root directory starts with.
pub fn root_metadata() -> (m: Metadata)
    ensures
        m@ == (MetadataView { ino: ROOT_INO, size: 0, kind: FileType::Directory, name: Seq::empty() }),
{
    Metadata { ino: ROOT_INO, size: 0, name: String::new(), kind: FileType::Directory }
}

/// The value of the inode allocation record, or the starting value when
/// there is none.
pub open spec fn ino_record_value(record: Option<Seq<u8>>) -> u64 {
    match record {
        Some(d) => u64_from_be(d),
        None => INITIAL_INO_RECORD,
    }
}

/// The inode that an allocation hands out, given the record before it.
pub open spec fn allocated_ino(record: Option<Seq<u8>>) -> u64 {
    match record {
        Some(d) => u64_from_be(d),
        None => FIRST_ALLOCATED_INO,
    }
}

/// An allocation record can be read: it is absent or eight bytes.
pub open spec fn ino_record_readable(record: Option<Seq<u8>>) -> bool {
    record matches Some(d) ==> d.len() == 8
}

/// The allocation record after one allocation: one past the value it held.
pub fn next_ino_record(record: Option<&[u8]>) -> (data: Vec<u8>)
    requires
        ino_record_readable(
            match record {
                Some(d) => Some(d@),
                None => None,
            },
        ),
        ino_record_value(
            match record {
                Some(d) => Some(d@),
                None => None,
            },
        ) < u64::MAX,
    ensures
        data@ == u64_to_be(
            (ino_record_value(
                match record {
                    Some(d) => Some(d@),
                    None => None,
                },
            ) + 1) as u64,
        ),
{
    let current: u64 = match record {
        Some(d) => {
            let v = read_u64_be(d, 0);
            assert(d@.subrange(0, 8) =~= d@);
            v
        },
        None => INITIAL_INO_RECORD,
    };
    let mut data: Vec<u8> = Vec::new();
    push_u64_be(&mut data, current + 1);
    assert(data@ =~= u64_to_be((current + 1) as u64));
    data
}

/// The inode that an allocation hands out, given the record before it.
pub fn allocated_ino_of(record: Option<&[u8]>) -> (ino: u64)
    requires
        ino_record_readable(
            match record {
                Some(d) => Some(d@),
                None => None,
            },
        ),
    ensures
        ino == allocated_ino(
            match record {
                Some(d) => Some(d@),
                None => None,
            },
        ),
{
    match record {
        Some(d) => {
            let v = read_u64_be(d, 0);
            assert(d@.subrange(0, 8) =~= d@);
            v
        },
        None => FIRST_ALLOCATED_INO,
    }
}

/// An allocation record that this store can reach: none yet, or a value of
/// at least four.
pub open spec fn ino_record_reachable(record: Option<Seq<u8>>) -> bool {
    match record {
        None => true,
        Some(d) => d.len() == 8 && u64_from_be(d) >= 4,
    }
}

/// Allocation never hands out the root inode or zero, and each allocation
/// hands out a larger inode than the one before, so no inode is handed out
/// twice.
pub proof fn lemma_allocation_fresh(record: Option<Seq<u8>>)
    requires
        ino_record_reachable(record),
        ino_record_value(record) < u64::MAX,
    ensures
        allocated_ino(record) >= FIRST_ALLOCATED_INO,
        ({
            let next = Some(u64_to_be((ino_record_value(record) + 1) as u64));
            &&& ino_record_reachable(next)
            &&& allocated_ino(next) > allocated_ino(record)
        }),
{
    let v = (ino_record_value(record) + 1) as u64;
    lemma_u64_be_value_roundtrip(v);
}

/// What a search of a directory by name has come to: the next inode whose
/// metadata it needs, or its end.
pub enum ScanOutcome {
    Read(u64),
    Found(MetadataView),
    Missing,
    Exhausted,
}

/// The step of a search of `entries` for `name` that has asked for the
/// metadata of entry `k` and got `meta`: a match ends it with that metadata,
/// metadata that is missing ends it, else it asks for the next entry or ends
/// when there is none.
pub open spec fn scan_step(
    entries: Seq<u64>,
    k: int,
    name: Seq<char>,
    meta: Option<MetadataView>,
) -> ScanOutcome {
    match meta {
        None => ScanOutcome::Missing,
        Some(m) => {
            if m.name == name {
                ScanOutcome::Found(m)
            } else if k + 1 < entries.len() {
                ScanOutcome::Read(entries[k + 1])
            } else {
                ScanOutcome::Exhausted
            }
        },
    }
}

/// The first step of a search of `entries`.
pub open spec fn scan_start(entries: Seq<u64>) -> ScanOutcome {
    if entries.len() == 0 {
        ScanOutcome::Exhausted
    } else {
        ScanOutcome::Read(entries[0])
    }
}

/// What a search of `entries` from position `k` on comes to when the store
/// holds the metadata `metas`: the first entry whose metadata is missing or
/// whose name is `name` decides, in directory order.
pub open spec fn scan_from(
    entries: Seq<u64>,
    k: int,
    name: Seq<char>,
    metas: spec_fn(u64) -> Option<MetadataView>,
) -> ScanOutcome
    decreases entries.len() - k,
{
    if k < 0 || k >= entries.len() {
        ScanOutcome::Exhausted
    } else {
        match metas(entries[k]) {
            None => ScanOutcome::Missing,
            Some(m) => {
                if m.name == name {
                    ScanOutcome::Found(m)
                } else {
                    scan_from(entries, k + 1, name, metas)
                }
            },
        }
    }
}

/// Each step of the search keeps to the whole search: answering the request
/// for entry `k` with its metadata either ends the search with the result of
/// the whole search from `k`, or asks for entry `k + 1`, from which the whole
/// search has the same result.
pub proof fn lemma_scan_step_follows(
    entries: Seq<u64>,
    k: int,
    name: Seq<char>,
    metas: spec_fn(u64) -> Option<MetadataView>,
)
    requires
        0 <= k < entries.len(),
    ensures
        match scan_step(entries, k, name, metas(entries[k])) {
            ScanOutcome::Read(ino) => ino == entries[k + 1] && k + 1 < entries.len() && scan_from(
                entries,
                k + 1,
                name,
                metas,
            ) == scan_from(entries, k, name, metas),
            other => other == scan_from(entries, k, name, metas),
        },
{
}

/// The search starts with the first entry, and an empty directory has no
/// match.
pub proof fn lemma_scan_start_follows(
    entries: Seq<u64>,
    name: Seq<char>,
    metas: spec_fn(u64) -> Option<MetadataView>,
)
    ensures
        match scan_start(entries) {
            ScanOutcome::Read(ino) => ino == entries[0] && entries.len() > 0,
            other => other == scan_from(entries, 0, name, metas),
        },
{
}

/// A step of a search that ends with a match gives exactly the metadata it
/// was handed, and that metadata has the name searched for; it ends on
/// missing metadata exactly when it was handed none.
pub proof fn lemma_scan_step_found_is_given(
    entries: Seq<u64>,
    k: int,
    name: Seq<char>,
    meta: Option<MetadataView>,
)
    ensures
        scan_step(entries, k, name, meta) matches ScanOutcome::Found(m) ==> meta == Some(m)
            && m.name == name,
        meta is Some && meta->0.name == name ==> scan_step(entries, k, name, meta)
            == ScanOutcome::Found(meta->0),
        scan_step(entries, k, name, meta) is Missing <==> meta is None,
{
}

/// A search that ends with a match gives exactly the metadata that the store
/// holds for a listed entry of that name, and every entry before it has
/// metadata under another name.
pub proof fn lemma_scan_found_is_stored(
    entries: Seq<u64>,
    k: int,
    name: Seq<char>,
    metas: spec_fn(u64) -> Option<MetadataView>,
)
    requires
        0 <= k,
    ensures
        scan_from(entries, k, name, metas) matches ScanOutcome::Found(m) ==> exists|j: int|
            #![trigger entries[j]]
            k <= j < entries.len() && metas(entries[j]) == Some(m) && m.name == name && (forall|
                i: int,
            |
                #![trigger entries[i]]
                k <= i < j ==> (metas(entries[i]) is Some && metas(entries[i])->0.name != name)),
    decreases entries.len() - k,
{
    if k < entries.len() {
        lemma_scan_found_is_stored(entries, k + 1, name, metas);
        if let ScanOutcome::Found(m) = scan_from(entries, k, name, metas) {
            if metas(entries[k]) == Some(m) && m.name == name {
                assert(k <= k < entries.len() && metas(entries[k]) == Some(m));
            } else {
                let j = choose|j: int|
                    #![trigger entries[j]]
                    k + 1 <= j < entries.len() && metas(entries[j]) == Some(m) && m.name == name
                        && (forall|i: int|
                        #![trigger entries[i]]
                        k + 1 <= i < j ==> (metas(entries[i]) is Some && metas(entries[i])->0.name != name));
                assert forall|i: int| #![trigger entries[i]] k <= i < j implies (metas(entries[i]) is Some && metas(entries[i])->0.name != name) by {}
            }
        }
    }
}

/// A search that finds no match has looked at every entry from `k` on and
/// found metadata under another name for each.
pub proof fn lemma_scan_exhausted_has_no_match(
    entries: Seq<u64>,
    k: int,
    name: Seq<char>,
    metas: spec_fn(u64) -> Option<MetadataView>,
)
    requires
        0 <= k,
        scan_from(entries, k, name, metas) is Exhausted,
    ensures
        forall|i: int|
            #![trigger entries[i]]
            k <= i < entries.len() ==> (metas(entries[i]) is Some && metas(entries[i])->0.name != name),
    decreases entries.len() - k,
{
    if k < entries.len() {
        lemma_scan_exhausted_has_no_match(entries, k + 1, name, metas);
    }
}

/// The next step of a search, with the metadata it found.
pub enum ScanStep {
    /// The search needs the metadata of this inode.
    ReadMetadata(u64),
    /// This entry has the name searched for.
    Found(Metadata),
    /// An entry has no metadata.
    Missing,
    /// No entry has the name.
    Exhausted,
}

impl View for ScanStep {
    type V = ScanOutcome;

    open spec fn view(&self) -> ScanOutcome {
        match self {
            ScanStep::ReadMetadata(ino) => ScanOutcome::Read(*ino),
            ScanStep::Found(m) => ScanOutcome::Found(m@),
            ScanStep::Missing => ScanOutcome::Missing,
            ScanStep::Exhausted => ScanOutcome::Exhausted,
        }
    }
}

/// A search of a directory's entries, in order, for the one with a given
/// name; the metadata of each entry is handed to it as it asks.
pub struct NameScan {
    name: String,
    entries: Vec<u64>,
    next: usize,
}

impl NameScan {
    /// The entries searched.
    pub closed spec fn entries(&self) -> Seq<u64> {
        self.entries@
    }

    /// The name searched for.
    pub closed spec fn target(&self) -> Seq<char> {
        self.name@
    }

    /// The position of the entry whose metadata the search waits for.
    pub closed spec fn position(&self) -> int {
        self.next as int
    }

    /// The search waits for the metadata of an entry.
    pub open spec fn waiting(&self) -> bool {
        0 <= self.position() < self.entries().len()
    }

    /// Starts a search of `entries` for `name`.
    pub fn new(entries: Vec<u64>, name: String) -> (r: (NameScan, ScanStep))
        ensures
            r.0.entries() == entries@,
            r.0.target() == name@,
            r.0.position() == 0,
            r.1@ == scan_start(entries@),
            r.1 is ReadMetadata ==> r.0.waiting(),
    {
        let step = if entries.len() == 0 {
            ScanStep::Exhausted
        } else {
            ScanStep::ReadMetadata(entries[0])
        };
        (NameScan { name, entries, next: 0 }, step)
    }

    /// Takes the metadata of the entry that the search waits for, if the
    /// store has any, and says what comes next.
    pub fn on_metadata(&mut self, meta: Option<Metadata>) -> (step: ScanStep)
        requires
            old(self).waiting(),
        ensures
            step@ == scan_step(
                old(self).entries(),
                old(self).position(),
                old(self).target(),
                match meta {
                    Some(m) => Some(m@),
                    None => None,
                },
            ),
            final(self).entries() == old(self).entries(),
            final(self).target() == old(self).target(),
            step is ReadMetadata ==> final(self).position() == old(self).position() + 1
                && final(self).waiting(),
            step matches ScanStep::Found(found) ==> meta matches Some(given) && found@ == given@
                && given@.name == old(self).target(),
            step is Missing <==> meta is None,
            step matches ScanStep::ReadMetadata(ino) ==> ino == old(self).entries()[old(
                self,
            ).position() + 1],
    {
        proof {
            assert(self.next < self.entries@.len());
        }
        match meta {
            None => ScanStep::Missing,
            Some(m) => {
                if m.name == self.name {
                    ScanStep::Found(m)
                } else if self.next < self.entries.len() - 1 {
                    self.next = self.next + 1;
                    ScanStep::ReadMetadata(self.entries[self.next])
                } else {
                    ScanStep::Exhausted
                }
            },
        }
    }
}

/// The answer of a lookup whose search has ended: the metadata found, or
/// nothing when no entry matched or an entry had no metadata.
pub fn lookup_answer(step: ScanStep) -> (r: Option<Metadata>)
    requires
        !(step is ReadMetadata),
    ensures
        match step@ {
            ScanOutcome::Found(m) => r matches Some(x) && x@ == m,
            _ => r is None,
        },
{
    match step {
        ScanStep::Found(m) => Some(m),
        _ => None,
    }
}

/// The outside error that the database reports.
#[verifier::external_type_specification]
#[verifier::external_body]
pub struct ExSledError(sled::Error);

/// Why the store refused to create a file.
#[derive(Debug)]
pub enum StorageError {
    AlreadyExists,
    DoesNotExist,
    InternalError,
    Sled(sled::Error),
}

impl From<sled::Error> for StorageError {
    fn from(e: sled::Error) -> (r: Self)
        ensures
            r == StorageError::Sled(e),
    {
        StorageError::Sled(e)
    }
}

impl vstd::std_specs::convert::FromSpecImpl<sled::Error> for StorageError {
    open spec fn obeys_from_spec() -> bool {
        true
    }

    open spec fn from_spec(e: sled::Error) -> Self {
        StorageError::Sled(e)
    }
}

/// Starts the check that a new file's name is free in its parent directory,
/// whose listing is `parent_dir`: a parent without a listing does not exist.
pub fn start_create(parent_dir: Option<Vec<u64>>, name: String) -> (r: Result<
    (NameScan, ScanStep),
    StorageError,
>)
    ensures
        match parent_dir {
            None => r matches Err(StorageError::DoesNotExist),
            Some(dir) => r matches Ok((scan, step)) && scan.entries() == dir@ && scan.target()
                == name@ && scan.position() == 0 && step@ == scan_start(dir@) && (
            step is ReadMetadata ==> scan.waiting()),
        },
{
    match parent_dir {
        None => Err(StorageError::DoesNotExist),
        Some(dir) => Ok(NameScan::new(dir, name)),
    }
}

/// The verdict of a finished name check before a file is created: a name
/// already in use is refused, a free one may be taken.
pub fn create_verdict(step: &ScanStep) -> (r: Result<(), StorageError>)
    requires
        step is Found || step is Exhausted,
    ensures
        step is Found ==> r matches Err(StorageError::AlreadyExists),
        step is Exhausted ==> r is Ok,
{
    match step {
        ScanStep::Found(_) => Err(StorageError::AlreadyExists),
        _ => Ok(()),
    }
}

/// The metadata of a newly created, empty regular file.
pub fn new_file_metadata(ino: u64, name: &str) -> (m: Metadata)
    ensures
        m@ == (MetadataView { ino, size: 0, kind: FileType::Regular, name: name@ }),
{
    Metadata { ino, size: 0, kind: FileType::Regular, name: name.to_owned() }
}

/// The metadata of a file after `len` bytes were written into it from
/// `start` on, if the write made it grow: its size becomes the end of the
/// write.
pub fn grown_metadata(meta: &Metadata, start: u64, len: usize) -> (r: Option<Metadata>)
    requires
        start + len <= u64::MAX,
    ensures
        start + len > meta.size <==> r is Some,
        r matches Some(m) ==> m@ == (MetadataView { size: (start + len) as u64, ..meta@ }),
{
    let end = start + len as u64;
    if end > meta.size {
        let mut m = meta.duplicate();
        m.size = end;
        Some(m)
    } else {
        None
    }
}

/// Where a read of `len` bytes stands after a chunk of `n` more bytes came
/// in, `read` having come in before: the new count, and whether to read on
/// (not after an empty chunk, which marks the end of the file, nor once all
/// `len` bytes are in).
pub fn read_progress(read: u64, len: u64, n: usize) -> (r: (u64, bool))
    requires
        read < len,
        n <= len - read,
    ensures
        r.0 == read + n,
        r.1 == (n != 0 && read + n < len),
{
    let total = read + n as u64;
    (total, n != 0 && total < len)
}

/// The name of the data file of inode `ino`: its number in decimal.
pub fn storage_file_name(ino: u64) -> (name: String)
    ensures
        name@ == decimal(ino as nat),
{
    decimal_string(ino)
}

/// Distinct inodes keep their data in distinct files.
pub proof fn lemma_storage_files_distinct(a: u64, b: u64)
    requires
        a != b,
    ensures
        decimal(a as nat) != decimal(b as nat),
{
    lemma_decimal_injective(a as nat, b as nat);
}

/// The character of the URL-safe base64 alphabet for the six-bit value `v`:
/// `A`-`Z`, `a`-`z`, `0`-`9`, then `-` and `_`.
pub open spec fn url_safe_digit(v: int) -> char {
    if v < 26 {
        (65 + v) as char
    } else if v < 52 {
        (97 + v - 26) as char
    } else if v < 62 {
        (48 + v - 52) as char
    } else if v == 62 {
        '-'
    } else {
        '_'
    }
}

/// The URL-safe base64 text of `b` with padding: each group of three bytes
/// becomes four characters of six bits each, and a last group of one or two
/// bytes is padded with `=` to four characters.
pub open spec fn base64_url_safe(b: Seq<u8>) -> Seq<char>
    decreases b.len(),
{
    if b.len() == 0 {
        Seq::empty()
    } else if b.len() == 1 {
        seq![url_safe_digit(b[0] as int / 4), url_safe_digit((b[0] % 4) * 16), '=', '=']
    } else if b.len() == 2 {
        seq![
            url_safe_digit(b[0] as int / 4),
            url_safe_digit((b[0] % 4) * 16 + b[1] / 16),
            url_safe_digit((b[1] % 16) * 4),
            '=',
        ]
    } else {
        seq![
            url_safe_digit(b[0] as int / 4),
            url_safe_digit((b[0] % 4) * 16 + b[1] / 16),
            url_safe_digit((b[1] % 16) * 4 + b[2] / 64),
            url_safe_digit(b[2] as int % 64),
        ] + base64_url_safe(b.subrange(3, b.len() as int))
    }
}

/// `base64::encode_config(input, base64::URL_SAFE)`: the URL-safe, padded
/// base64 text of the bytes of `input` (RFC 4648, section 5). The function
/// panics when the length of the text overflows `usize`, which the bound on
/// the input rules out.
#[verifier::external_body]
fn encode_url_safe(input: &str) -> (s: String)
    requires
        input.spec_bytes().len() <= usize::MAX / 2,
    ensures
        s@ == base64_url_safe(input.spec_bytes()),
{
    base64::encode_config(input, base64::URL_SAFE)
}

/// The name under which a path would be stored: its URL-safe base64 text.
pub fn path_to_storage_path(path: &str) -> (s: String)
    requires
        path.spec_bytes().len() <= usize::MAX / 2,
    ensures
        s@ == base64_url_safe(path.spec_bytes()),
{
    encode_url_safe(path)
}

} // verus!
