//! The file store as a whole: what it holds, the invariant that every
//! operation keeps, and what creating a file and looking one up do to it.
//! Each step here is the effect of the store's operations as the functions
//! of `storage` decide them.

use crate::common::{FileType, MetadataView};
use crate::storage::{
    allocated_ino, directory_entries, entries_with, ino_record_reachable, ino_record_value,
    lemma_allocation_fresh, lemma_directory_roundtrip, record_with_entry, scan_from, ScanOutcome,
    ROOT_INO,
};
use crate::bytes::u64_to_be;
use vstd::prelude::*;

verus! {

/// What the store holds: the record of each directory, the metadata of each
/// inode, and the inode allocation record.
pub struct StoreView {
    pub dirs: Map<u64, Seq<u8>>,
    pub metas: Map<u64, MetadataView>,
    pub ino_record: Option<Seq<u8>>,
}

/// The metadata that the store gives for each inode, if any.
pub open spec fn meta_of(metas: Map<u64, MetadataView>) -> spec_fn(u64) -> Option<MetadataView> {
    |i: u64|
        if metas.contains_key(i) {
            Some(metas[i])
        } else {
            None
        }
}

/// A directory listing is sound: no inode is listed twice, every listed
/// inode has metadata, and no two listed files have the same name.
pub open spec fn listing_ok(metas: Map<u64, MetadataView>, l: Seq<u64>) -> bool {
    &&& l.no_duplicates()
    &&& forall|k: int| 0 <= k < l.len() ==> metas.contains_key(#[trigger] l[k])
    &&& forall|j: int, k: int|
        0 <= j < k < l.len() ==> metas[#[trigger] l[j]].name != metas[#[trigger] l[k]].name
}

/// The invariant of the store: the allocation record is one that the store
/// reaches, every inode with metadata was handed out before the next one to
/// be allocated, and every directory listing is sound.
pub open spec fn store_invariant(s: StoreView) -> bool {
    &&& ino_record_reachable(s.ino_record)
    &&& forall|i: u64| #[trigger] s.metas.contains_key(i) ==> i < allocated_ino(s.ino_record)
    &&& listings_sound(s)
}

/// Every directory listing of the store is sound.
pub open spec fn listings_sound(s: StoreView) -> bool {
    forall|p: u64|
        #[trigger] s.dirs.contains_key(p) ==> listing_ok(s.metas, directory_entries(s.dirs[p]))
}

/// A store that was just opened for the first time: an empty root directory
/// with its metadata, and no allocation yet.
pub open spec fn initial_store() -> StoreView {
    StoreView {
        dirs: Map::empty().insert(ROOT_INO, Seq::empty()),
        metas: Map::empty().insert(
            ROOT_INO,
            MetadataView { ino: ROOT_INO, size: 0, kind: FileType::Directory, name: Seq::empty() },
        ),
        ino_record: None,
    }
}

/// What a lookup of `name` in directory `parent` answers.
pub open spec fn lookup_in(s: StoreView, parent: u64, name: Seq<char>) -> Option<MetadataView> {
    if !s.dirs.contains_key(parent) {
        None
    } else {
        match scan_from(directory_entries(s.dirs[parent]), 0, name, meta_of(s.metas)) {
            ScanOutcome::Found(m) => Some(m),
            _ => None,
        }
    }
}

/// How a creation ends.
pub enum CreateOutcome {
    /// The file was created with this inode.
    Created(u64),
    /// The directory already holds a file of that name.
    AlreadyExists,
    /// The directory does not exist.
    DoesNotExist,
    /// An entry of the directory has no metadata: the store stops.
    Stopped,
}

/// The metadata of a new file.
pub open spec fn new_file_view(ino: u64, name: Seq<char>) -> MetadataView {
    MetadataView { ino, size: 0, kind: FileType::Regular, name }
}

/// The store after creating the file `name` in directory `parent`, and how
/// the creation ended. An inode is allocated first, whatever follows; the
/// file is created only when the directory exists and no entry has the name.
pub open spec fn create_in(s: StoreView, parent: u64, name: Seq<char>) -> (StoreView, CreateOutcome) {
    let ino = allocated_ino(s.ino_record);
    let allocated = StoreView {
        ino_record: Some(u64_to_be((ino_record_value(s.ino_record) + 1) as u64)),
        ..s
    };
    if !s.dirs.contains_key(parent) {
        (allocated, CreateOutcome::DoesNotExist)
    } else {
        match scan_from(directory_entries(s.dirs[parent]), 0, name, meta_of(s.metas)) {
            ScanOutcome::Found(_) => (allocated, CreateOutcome::AlreadyExists),
            ScanOutcome::Exhausted => (
                StoreView {
                    metas: s.metas.insert(ino, new_file_view(ino, name)),
                    dirs: s.dirs.insert(parent, record_with_entry(Some(s.dirs[parent]), ino)),
                    ..allocated
                },
                CreateOutcome::Created(ino),
            ),
            _ => (allocated, CreateOutcome::Stopped),
        }
    }
}

/// A store opened for the first time keeps the invariant.
pub proof fn lemma_initial_store_invariant()
    ensures
        store_invariant(initial_store()),
{
    let s = initial_store();
    assert(directory_entries(Seq::<u8>::empty()) =~= Seq::<u64>::empty());
    assert forall|p: u64| #[trigger] s.dirs.contains_key(p) implies listing_ok(
        s.metas,
        directory_entries(s.dirs[p]),
    ) by {
        assert(p == ROOT_INO);
    }
}

proof fn lemma_exhausted_names_differ(
    l: Seq<u64>,
    k: int,
    name: Seq<char>,
    metas: Map<u64, MetadataView>,
)
    requires
        0 <= k,
        scan_from(l, k, name, meta_of(metas)) == ScanOutcome::Exhausted,
    ensures
        forall|j: int|
            k <= j < l.len() ==> metas.contains_key(#[trigger] l[j]) && metas[l[j]].name != name,
    decreases l.len() - k,
{
    if k < l.len() {
        lemma_exhausted_names_differ(l, k + 1, name, metas);
    }
}

proof fn lemma_sound_listing_not_missing(
    l: Seq<u64>,
    k: int,
    name: Seq<char>,
    metas: Map<u64, MetadataView>,
)
    requires
        0 <= k,
        forall|i: int| 0 <= i < l.len() ==> metas.contains_key(#[trigger] l[i]),
    ensures
        !(scan_from(l, k, name, meta_of(metas)) is Missing),
        !(scan_from(l, k, name, meta_of(metas)) is Read),
    decreases l.len() - k,
{
    if k < l.len() {
        assert(metas.contains_key(l[k]));
        lemma_sound_listing_not_missing(l, k + 1, name, metas);
    }
}

/// The inode that a creation allocates is new: no inode of that number has
/// metadata, and no directory lists it.
pub proof fn lemma_allocated_ino_unused(s: StoreView)
    requires
        store_invariant(s),
    ensures
        !s.metas.contains_key(allocated_ino(s.ino_record)),
        forall|p: u64|
            #[trigger] s.dirs.contains_key(p) ==> !directory_entries(s.dirs[p]).contains(
                allocated_ino(s.ino_record),
            ),
{
    let ino = allocated_ino(s.ino_record);
    assert forall|p: u64| #[trigger] s.dirs.contains_key(p) implies !directory_entries(
        s.dirs[p],
    ).contains(ino) by {
        let l = directory_entries(s.dirs[p]);
        assert(listing_ok(s.metas, l));
        if l.contains(ino) {
            let k = choose|k: int| 0 <= k < l.len() && l[k] == ino;
            assert(s.metas.contains_key(l[k]));
        }
    }
}

proof fn lemma_parent_listing_after_create(
    metas: Map<u64, MetadataView>,
    l: Seq<u64>,
    name: Seq<char>,
    ino: u64,
)
    requires
        listing_ok(metas, l),
        scan_from(l, 0, name, meta_of(metas)) == ScanOutcome::Exhausted,
    ensures
        listing_ok(metas.insert(ino, new_file_view(ino, name)), entries_with(l, ino)),
{
    lemma_exhausted_names_differ(l, 0, name, metas);
    let m2 = metas.insert(ino, new_file_view(ino, name));
    if l.contains(ino) {
        assert forall|j: int, k: int| 0 <= j < k < l.len() implies m2[#[trigger] l[j]].name
            != m2[#[trigger] l[k]].name by {
            assert(metas.contains_key(l[j]) && metas.contains_key(l[k]));
            if l[j] == ino {
                assert(l[k] != ino);
            } else if l[k] == ino {
            } else {
                assert(metas[l[j]].name != metas[l[k]].name);
            }
        }
    } else {
        let l2 = l.push(ino);
        assert forall|i: int, j: int|
            0 <= i < l2.len() && 0 <= j < l2.len() && i != j implies l2[i] != l2[j] by {
            if i < l.len() && j < l.len() {
            } else if i == l.len() {
                assert(l2[j] == l[j]);
            } else {
                assert(l2[i] == l[i]);
            }
        }
        assert forall|k: int| 0 <= k < l2.len() implies m2.contains_key(#[trigger] l2[k]) by {
            if k < l.len() {
                assert(l2[k] == l[k]);
                assert(metas.contains_key(l[k]));
            }
        }
        assert forall|j: int, k: int| 0 <= j < k < l2.len() implies m2[#[trigger] l2[j]].name
            != m2[#[trigger] l2[k]].name by {
            assert(l2[j] == l[j]);
            assert(metas.contains_key(l[j]));
            assert(l[j] != ino);
            if k < l.len() {
                assert(l2[k] == l[k]);
                assert(metas.contains_key(l[k]));
                assert(l[k] != ino);
            } else {
                assert(l2[k] == ino);
            }
        }
    }
}

proof fn lemma_other_listing_after_create(
    metas: Map<u64, MetadataView>,
    l: Seq<u64>,
    ino: u64,
    m: MetadataView,
)
    requires
        listing_ok(metas, l),
        !l.contains(ino),
    ensures
        listing_ok(metas.insert(ino, m), l),
{
    let m2 = metas.insert(ino, m);
    assert forall|k: int| 0 <= k < l.len() implies m2.contains_key(#[trigger] l[k]) by {
        assert(metas.contains_key(l[k]));
    }
    assert forall|j: int, k: int| 0 <= j < k < l.len() implies m2[#[trigger] l[j]].name != m2[
        #[trigger] l[k]].name by {
        assert(metas.contains_key(l[j]) && metas.contains_key(l[k]));
        assert(l[j] != ino && l[k] != ino);
    }
}

/// Creating a file keeps every directory listing sound (no inode listed
/// twice, metadata for every entry, distinct names), whatever the creation
/// ends in, as long as the inode it allocates is not listed in another
/// directory than the one it is created in: the new metadata would rename
/// that entry.
pub proof fn lemma_create_keeps_listings_sound(s: StoreView, parent: u64, name: Seq<char>)
    requires
        listings_sound(s),
        forall|p: u64|
            #[trigger] s.dirs.contains_key(p) && p != parent ==> !directory_entries(
                s.dirs[p],
            ).contains(allocated_ino(s.ino_record)),
    ensures
        listings_sound(create_in(s, parent, name).0),
{
    let ino = allocated_ino(s.ino_record);
    let (t, outcome) = create_in(s, parent, name);
    if s.dirs.contains_key(parent) {
        let l = directory_entries(s.dirs[parent]);
        assert(listing_ok(s.metas, l));
        if scan_from(l, 0, name, meta_of(s.metas)) is Exhausted {
            lemma_directory_roundtrip(entries_with(l, ino));
            lemma_parent_listing_after_create(s.metas, l, name, ino);
            assert forall|p: u64| #[trigger] t.dirs.contains_key(p) implies listing_ok(
                t.metas,
                directory_entries(t.dirs[p]),
            ) by {
                if p != parent {
                    let lp = directory_entries(s.dirs[p]);
                    assert(listing_ok(s.metas, lp));
                    lemma_other_listing_after_create(s.metas, lp, ino, new_file_view(ino, name));
                }
            }
        }
    }
}

/// Creating a file keeps the invariant of the store, whatever the creation
/// ends in; a store that keeps the invariant never stops on missing
/// metadata.
pub proof fn lemma_create_keeps_invariant(s: StoreView, parent: u64, name: Seq<char>)
    requires
        store_invariant(s),
        ino_record_value(s.ino_record) < u64::MAX,
    ensures
        store_invariant(create_in(s, parent, name).0),
        !(create_in(s, parent, name).1 is Stopped),
{
    let ino = allocated_ino(s.ino_record);
    lemma_allocation_fresh(s.ino_record);
    lemma_allocated_ino_unused(s);
    lemma_create_keeps_listings_sound(s, parent, name);
    let (t, outcome) = create_in(s, parent, name);
    if s.dirs.contains_key(parent) {
        let l = directory_entries(s.dirs[parent]);
        assert(listing_ok(s.metas, l));
        lemma_sound_listing_not_missing(l, 0, name, s.metas);
    }
    assert forall|i: u64| #[trigger] t.metas.contains_key(i) implies i < allocated_ino(
        t.ino_record,
    ) by {
        if i != ino {
            assert(s.metas.contains_key(i));
        }
    }
}

proof fn lemma_scan_reaches_ino(
    l: Seq<u64>,
    k: int,
    name: Seq<char>,
    metas: Map<u64, MetadataView>,
    ino: u64,
)
    requires
        0 <= k,
        exists|j: int| k <= j < l.len() && l[j] == ino,
        forall|j: int|
            k <= j < l.len() && l[j] != ino ==> metas.contains_key(#[trigger] l[j])
                && metas[l[j]].name != name,
    ensures
        scan_from(l, k, name, meta_of(metas.insert(ino, new_file_view(ino, name))))
            == ScanOutcome::Found(new_file_view(ino, name)),
    decreases l.len() - k,
{
    let j0 = choose|j: int| k <= j < l.len() && l[j] == ino;
    if l[k] != ino {
        assert(j0 != k);
        lemma_scan_reaches_ino(l, k + 1, name, metas, ino);
    }
}

/// A file that was created is found by a lookup of its name in its
/// directory, with the metadata it was created with, in any store: the new
/// inode is either added at the end of the listing or already listed, and
/// no other entry of the directory has that name.
pub proof fn lemma_lookup_finds_created(s: StoreView, parent: u64, name: Seq<char>)
    requires
        create_in(s, parent, name).1 is Created,
    ensures
        ({
            let ino = allocated_ino(s.ino_record);
            &&& create_in(s, parent, name).1 == CreateOutcome::Created(ino)
            &&& lookup_in(create_in(s, parent, name).0, parent, name) == Some(
                new_file_view(ino, name),
            )
        }),
{
    let ino = allocated_ino(s.ino_record);
    let l = directory_entries(s.dirs[parent]);
    let l2 = entries_with(l, ino);
    let t = create_in(s, parent, name).0;
    lemma_exhausted_names_differ(l, 0, name, s.metas);
    lemma_directory_roundtrip(l2);
    assert(directory_entries(t.dirs[parent]) == l2);
    if !l.contains(ino) {
        assert(l2[l.len() as int] == ino);
    }
    assert forall|j: int| 0 <= j < l2.len() && l2[j] != ino implies s.metas.contains_key(
        #[trigger] l2[j],
    ) && s.metas[l2[j]].name != name by {
        assert(l2[j] == l[j]);
    }
    lemma_scan_reaches_ino(l2, 0, name, s.metas, ino);
}

} // verus!
