//! The override index: a map from the 40-bit hash of a logical asset path to
//! the location of the replacement file that supplies the asset's bytes.
//!
//! The index is fed the files discovered under one primary tree (which mirrors
//! the host's logical namespace directly) and under any number of enabled
//! secondary trees (each the root of its own mirror). Entries are inserted in
//! that order, and a later insertion of the same hash overwrites an earlier
//! one: secondary trees override the primary tree, and among secondary trees
//! the one fed later wins.

use std::collections::HashMap;
use vstd::prelude::*;

use crate::hash40::hash40;
use crate::hash40::hash40_spec;

verus! {

/// The byte that on-disk directory names use where the logical path has ':'.
pub const DISK_VARIANT_BYTE: u8 = 59;

/// The byte the host's logical paths delimit variants with.
pub const LOGICAL_VARIANT_BYTE: u8 = 58;

/// On-disk variant bytes (';') become logical delimiter bytes (':'); all
/// other bytes pass through.
pub open spec fn normalize_byte(b: u8) -> u8 {
    if b == DISK_VARIANT_BYTE {
        LOGICAL_VARIANT_BYTE
    } else {
        b
    }
}

/// The logical asset path of a file: its on-disk path with the tree root and
/// the following separator stripped, variant bytes normalized.
pub open spec fn logical_path(full: Seq<u8>, root_len: int) -> Seq<u8> {
    full.skip(root_len + 1).map_values(|b: u8| normalize_byte(b))
}

/// The hash under which a file discovered at `full` below a root of length
/// `root_len` is indexed.
pub open spec fn override_key(full: Seq<u8>, root_len: int) -> u64 {
    hash40_spec(logical_path(full, root_len))
}

/// One discovered file: its on-disk path and the length of its tree's root.
pub type IndexEntry = (Seq<u8>, int);

/// The map that inserting `entries` into `m` in order leaves behind; a later
/// entry with the same key overwrites an earlier one.
pub open spec fn insert_entries(m: Map<u64, Seq<u8>>, entries: Seq<IndexEntry>) -> Map<u64, Seq<u8>>
    decreases entries.len(),
{
    if entries.len() == 0 {
        m
    } else {
        insert_entries(m, entries.drop_last()).insert(
            override_key(entries.last().0, entries.last().1),
            entries.last().0,
        )
    }
}

/// The insertion order of one tree: its files, in discovery order, each
/// paired with the tree's root length.
pub open spec fn tree_entries(files: Seq<Seq<u8>>, root_len: int) -> Seq<IndexEntry> {
    files.map_values(|f: Seq<u8>| (f, root_len))
}

/// The whole insertion order of a build: the primary tree first, then each
/// secondary tree in the order the storage enumerated them.
pub open spec fn all_entries(
    primary: Seq<Seq<u8>>,
    primary_root_len: int,
    secondary: Seq<(Seq<Seq<u8>>, int)>,
) -> Seq<IndexEntry>
    decreases secondary.len(),
{
    if secondary.len() == 0 {
        tree_entries(primary, primary_root_len)
    } else {
        all_entries(primary, primary_root_len, secondary.drop_last()) + tree_entries(
            secondary.last().0,
            secondary.last().1,
        )
    }
}

/// The abstract index a build from these trees produces.
pub open spec fn build_spec(
    primary: Seq<Seq<u8>>,
    primary_root_len: int,
    secondary: Seq<(Seq<Seq<u8>>, int)>,
) -> Map<u64, Seq<u8>> {
    insert_entries(Map::empty(), all_entries(primary, primary_root_len, secondary))
}

/// What a lookup of `hash` in the abstract index `m` returns.
pub open spec fn lookup_spec(m: Map<u64, Seq<u8>>, hash: u64) -> Option<Seq<u8>> {
    if m.contains_key(hash) {
        Some(m[hash])
    } else {
        None
    }
}

/// The view of the secondary-tree build input: each tree's files and its root
/// length.
pub open spec fn secondary_view(trees: Seq<(Vec<Vec<u8>>, usize)>) -> Seq<(Seq<Seq<u8>>, int)> {
    trees.map_values(|t: (Vec<Vec<u8>>, usize)| (t.0.deep_view(), t.1 as int))
}

/// Every file of the tree reaches past its root and the separator byte, so a
/// logical path can be cut out of it.
pub open spec fn tree_input_ok(files: Seq<Seq<u8>>, root_len: int) -> bool {
    forall|i: int| 0 <= i < files.len() ==> root_len + 1 <= #[trigger] files[i].len()
}

/// The override index. Built once from the discovered trees; read-only for
/// the rest of the process.
pub struct ArcFiles {
    map: HashMap<u64, Vec<u8>>,
}

impl View for ArcFiles {
    type V = Map<u64, Seq<u8>>;

    closed spec fn view(&self) -> Map<u64, Seq<u8>> {
        Map::new(
            |h: u64| self.map@.contains_key(h),
            |h: u64| self.map@[h]@,
        )
    }
}

impl ArcFiles {
    /// An empty index; `visit_file` and `add_tree` fill it.
    pub fn new() -> (index: ArcFiles)
        ensures
            index@ == Map::<u64, Seq<u8>>::empty(),
    {
        let index = ArcFiles { map: HashMap::new() };
        proof {
            assert(index@ =~= Map::<u64, Seq<u8>>::empty());
        }
        index
    }

    /// Index one discovered file: hash its logical path and record the
    /// on-disk location, overwriting any earlier entry with the same hash.
    pub fn visit_file(&mut self, path: &Vec<u8>, root_len: usize)
        requires
            root_len + 1 <= path@.len(),
        ensures
            final(self)@ == old(self)@.insert(override_key(path@, root_len as int), path@),
    {
        let logical = normalize_suffix(path, root_len);
        let hash = hash40(logical.as_slice());
        let stored = clone_bytes(path);
        self.map.insert(hash, stored);
        proof {
            assert(self@ =~= old(self)@.insert(override_key(path@, root_len as int), path@));
        }
    }

    /// Index every file of one tree, in discovery order.
    pub fn add_tree(&mut self, files: &Vec<Vec<u8>>, root_len: usize)
        requires
            tree_input_ok(files.deep_view(), root_len as int),
        ensures
            final(self)@ == insert_entries(
                old(self)@,
                tree_entries(files.deep_view(), root_len as int),
            ),
    {
        let ghost entries = tree_entries(files.deep_view(), root_len as int);
        let mut i: usize = 0;
        while i < files.len()
            invariant
                i <= files.len(),
                entries == tree_entries(files.deep_view(), root_len as int),
                tree_input_ok(files.deep_view(), root_len as int),
                self@ == insert_entries(old(self)@, entries.take(i as int)),
            decreases files.len() - i,
        {
            proof {
                assert(files.deep_view()[i as int] == files@[i as int]@);
                assert(root_len + 1 <= files.deep_view()[i as int].len());
                assert(entries.take(i + 1).drop_last() =~= entries.take(i as int));
                assert(entries.take(i + 1).last() == (files.deep_view()[i as int], root_len as int));
            }
            self.visit_file(&files[i], root_len);
            i = i + 1;
        }
        proof {
            assert(entries.take(files.len() as int) =~= entries);
        }
    }

    /// Build the index: the primary tree first, then each enabled secondary
    /// tree in the order given, so that a later tree overrides an earlier one
    /// and every secondary tree overrides the primary.
    pub fn build(
        primary_files: &Vec<Vec<u8>>,
        primary_root_len: usize,
        secondary_trees: &Vec<(Vec<Vec<u8>>, usize)>,
    ) -> (index: ArcFiles)
        requires
            tree_input_ok(primary_files.deep_view(), primary_root_len as int),
            forall|t: int|
                0 <= t < secondary_trees@.len() ==> tree_input_ok(
                    #[trigger] secondary_trees@[t].0.deep_view(),
                    secondary_trees@[t].1 as int,
                ),
        ensures
            index@ == build_spec(
                primary_files.deep_view(),
                primary_root_len as int,
                secondary_view(secondary_trees@),
            ),
    {
        let ghost secs = secondary_view(secondary_trees@);
        let mut index = ArcFiles::new();
        index.add_tree(primary_files, primary_root_len);
        proof {
            assert(all_entries(primary_files.deep_view(), primary_root_len as int, secs.take(0))
                == tree_entries(primary_files.deep_view(), primary_root_len as int));
        }
        let mut t: usize = 0;
        while t < secondary_trees.len()
            invariant
                t <= secondary_trees.len(),
                secs == secondary_view(secondary_trees@),
                tree_input_ok(primary_files.deep_view(), primary_root_len as int),
                forall|u: int|
                    0 <= u < secondary_trees@.len() ==> tree_input_ok(
                        #[trigger] secondary_trees@[u].0.deep_view(),
                        secondary_trees@[u].1 as int,
                    ),
                index@ == insert_entries(
                    Map::empty(),
                    all_entries(
                        primary_files.deep_view(),
                        primary_root_len as int,
                        secs.take(t as int),
                    ),
                ),
            decreases secondary_trees.len() - t,
        {
            let tree = &secondary_trees[t];
            let ghost before = all_entries(
                primary_files.deep_view(),
                primary_root_len as int,
                secs.take(t as int),
            );
            let ghost added = tree_entries(tree.0.deep_view(), tree.1 as int);
            index.add_tree(&tree.0, tree.1);
            proof {
                lemma_insert_entries_append(Map::empty(), before, added);
                assert(secs.take(t + 1).drop_last() =~= secs.take(t as int));
                assert(secs.take(t + 1).last() == (tree.0.deep_view(), tree.1 as int));
                assert(all_entries(
                    primary_files.deep_view(),
                    primary_root_len as int,
                    secs.take(t + 1),
                ) == before + added);
            }
            t = t + 1;
        }
        proof {
            assert(secs.take(secondary_trees@.len() as int) =~= secs);
        }
        index
    }

    /// Look up the replacement location for a host-supplied hash. Read-only:
    /// the index is borrowed shared, and the result is a function of the
    /// index's abstract map and the hash alone, so any number of lookups, in
    /// any order or interleaving, return what a sequential replay returns.
    pub fn get_from_hash(&self, hash: u64) -> (location: Option<&Vec<u8>>)
        ensures
            match location {
                Some(path) => lookup_spec(self@, hash) == Some(path@),
                None => lookup_spec(self@, hash) is None,
            },
    {
        self.map.get(&hash)
    }
}

/// Copy one byte path for storage in the index: the index owns its strings.
fn clone_bytes(path: &Vec<u8>) -> (copy: Vec<u8>)
    ensures
        copy@ == path@,
{
    let mut copy: Vec<u8> = Vec::new();
    let mut i: usize = 0;
    while i < path.len()
        invariant
            i <= path@.len(),
            copy@ == path@.take(i as int),
        decreases path@.len() - i,
    {
        copy.push(path[i]);
        proof {
            assert(path@.take(i + 1) =~= path@.take(i as int).push(path@[i as int]));
        }
        i = i + 1;
    }
    proof {
        assert(path@.take(path@.len() as int) =~= path@);
    }
    copy
}

/// Cut the logical path out of an on-disk path: drop the root and the
/// separator, normalize variant bytes.
fn normalize_suffix(path: &Vec<u8>, root_len: usize) -> (logical: Vec<u8>)
    requires
        root_len + 1 <= path@.len(),
    ensures
        logical@ == logical_path(path@, root_len as int),
{
    let mut logical: Vec<u8> = Vec::new();
    let n = path.len();
    assert(root_len < n);
    let mut i: usize = root_len + 1;
    while i < path.len()
        invariant
            root_len + 1 <= i <= path@.len(),
            logical@ == path@.subrange(root_len + 1, i as int).map_values(
                |b: u8| normalize_byte(b),
            ),
        decreases path@.len() - i,
    {
        let b = path[i];
        if b == DISK_VARIANT_BYTE {
            logical.push(LOGICAL_VARIANT_BYTE);
        } else {
            logical.push(b);
        }
        proof {
            assert(path@.subrange(root_len + 1, i + 1) =~= path@.subrange(
                root_len + 1,
                i as int,
            ).push(path@[i as int]));
            assert(path@.subrange(root_len + 1, i + 1).map_values(|x: u8| normalize_byte(x))
                =~= path@.subrange(root_len + 1, i as int).map_values(|x: u8| normalize_byte(x)).push(
                normalize_byte(path@[i as int]),
            ));
        }
        i = i + 1;
    }
    proof {
        assert(path@.subrange(root_len + 1, path@.len() as int) =~= path@.skip(root_len + 1));
    }
    logical
}

/// An insertion order none of whose entries carries key `k` leaves `k`'s
/// binding exactly as it was.
pub proof fn lemma_insert_entries_misses(m: Map<u64, Seq<u8>>, entries: Seq<IndexEntry>, k: u64)
    requires
        forall|j: int|
            0 <= j < entries.len() ==> override_key(
                #[trigger] entries[j].0,
                entries[j].1,
            ) != k,
    ensures
        insert_entries(m, entries).contains_key(k) == m.contains_key(k),
        m.contains_key(k) ==> insert_entries(m, entries)[k] == m[k],
    decreases entries.len(),
{
    if entries.len() > 0 {
        lemma_insert_entries_misses(m, entries.drop_last(), k);
    }
}

/// Law: the last writer wins. The entry at `i` decides its key in the built
/// map whenever no entry after `i` in the insertion order carries the same
/// key.
pub proof fn lemma_insert_entries_last_wins(m: Map<u64, Seq<u8>>, entries: Seq<IndexEntry>, i: int)
    requires
        0 <= i < entries.len(),
        forall|j: int|
            i < j < entries.len() ==> override_key(#[trigger] entries[j].0, entries[j].1)
                != override_key(entries[i].0, entries[i].1),
    ensures
        insert_entries(m, entries).contains_key(override_key(entries[i].0, entries[i].1)),
        insert_entries(m, entries)[override_key(entries[i].0, entries[i].1)] == entries[i].0,
    decreases entries.len(),
{
    if i < entries.len() - 1 {
        assert(entries.drop_last()[i] == entries[i]);
        lemma_insert_entries_last_wins(m, entries.drop_last(), i);
    }
}

/// Inserting a concatenation is inserting the first part, then the second.
pub proof fn lemma_insert_entries_append(
    m: Map<u64, Seq<u8>>,
    first: Seq<IndexEntry>,
    second: Seq<IndexEntry>,
)
    ensures
        insert_entries(m, first + second) == insert_entries(insert_entries(m, first), second),
    decreases second.len(),
{
    if second.len() == 0 {
        assert(first + second =~= first);
    } else {
        assert((first + second).drop_last() =~= first + second.drop_last());
        assert((first + second).last() == second.last());
        lemma_insert_entries_append(m, first, second.drop_last());
    }
}

/// Law: an index built from the primary tree alone resolves the hash of each
/// discovered file's logical path to that file's on-disk location. The one
/// proviso is that no file discovered later hashes to the same key: two
/// colliding files leave only the later one visible (last writer wins).
pub proof fn lemma_primary_lookup(primary: Seq<Seq<u8>>, primary_root_len: int, i: int)
    requires
        0 <= i < primary.len(),
        forall|j: int|
            i < j < primary.len() ==> override_key(#[trigger] primary[j], primary_root_len)
                != override_key(primary[i], primary_root_len),
    ensures
        lookup_spec(
            build_spec(primary, primary_root_len, Seq::empty()),
            override_key(primary[i], primary_root_len),
        ) == Some(primary[i]),
{
    let entries = tree_entries(primary, primary_root_len);
    assert(all_entries(primary, primary_root_len, Seq::empty()) == entries);
    assert forall|j: int|
        i < j < entries.len() implies override_key(#[trigger] entries[j].0, entries[j].1)
        != override_key(entries[i].0, entries[i].1) by {
        assert(entries[j] == (primary[j], primary_root_len));
        assert(entries[i] == (primary[i], primary_root_len));
    }
    lemma_insert_entries_last_wins(Map::empty(), entries, i);
    assert(entries[i] == (primary[i], primary_root_len));
}

/// Law: overrides win. A file of an enabled secondary tree decides its key in
/// the built index whenever nothing later in the insertion order carries the
/// same key — that is, no later file of its own tree and no file of a
/// later-enumerated tree collides with it. In particular a secondary entry
/// always beats a colliding primary entry (the whole primary tree is inserted
/// first), and of two colliding entries in different secondary trees the one
/// of the later-enumerated tree wins.
pub proof fn lemma_secondary_overrides(
    primary: Seq<Seq<u8>>,
    primary_root_len: int,
    secondary: Seq<(Seq<Seq<u8>>, int)>,
    t: int,
    i: int,
)
    requires
        0 <= t < secondary.len(),
        0 <= i < secondary[t].0.len(),
        forall|j: int|
            i < j < secondary[t].0.len() ==> override_key(
                #[trigger] secondary[t].0[j],
                secondary[t].1,
            ) != override_key(secondary[t].0[i], secondary[t].1),
        forall|u: int, j: int|
            t < u < secondary.len() && 0 <= j < secondary[u].0.len() ==> override_key(
                #[trigger] secondary[u].0[j],
                secondary[u].1,
            ) != override_key(secondary[t].0[i], secondary[t].1),
    ensures
        lookup_spec(
            build_spec(primary, primary_root_len, secondary),
            override_key(secondary[t].0[i], secondary[t].1),
        ) == Some(secondary[t].0[i]),
    decreases secondary.len(),
{
    let k = override_key(secondary[t].0[i], secondary[t].1);
    let last = secondary.last();
    let head = all_entries(primary, primary_root_len, secondary.drop_last());
    let tail = tree_entries(last.0, last.1);
    lemma_insert_entries_append(Map::empty(), head, tail);
    if t == secondary.len() - 1 {
        assert forall|j: int|
            i < j < tail.len() implies override_key(#[trigger] tail[j].0, tail[j].1)
            != override_key(tail[i].0, tail[i].1) by {
            assert(tail[j] == (secondary[t].0[j], secondary[t].1));
            assert(tail[i] == (secondary[t].0[i], secondary[t].1));
        }
        lemma_insert_entries_last_wins(insert_entries(Map::empty(), head), tail, i);
        assert(tail[i] == (secondary[t].0[i], secondary[t].1));
    } else {
        assert(secondary.drop_last()[t] == secondary[t]);
        assert forall|j: int|
            i < j < secondary.drop_last()[t].0.len() implies override_key(
            #[trigger] secondary.drop_last()[t].0[j],
            secondary.drop_last()[t].1,
        ) != override_key(secondary.drop_last()[t].0[i], secondary.drop_last()[t].1) by {
            assert(secondary[t].0[j] == secondary.drop_last()[t].0[j]);
        }
        assert forall|u: int, j: int|
            t < u < secondary.drop_last().len() && 0 <= j < secondary.drop_last()[u].0.len()
            implies override_key(
            #[trigger] secondary.drop_last()[u].0[j],
            secondary.drop_last()[u].1,
        ) != override_key(secondary.drop_last()[t].0[i], secondary.drop_last()[t].1) by {
            assert(secondary.drop_last()[u] == secondary[u]);
        }
        lemma_secondary_overrides(primary, primary_root_len, secondary.drop_last(), t, i);
        assert forall|j: int|
            0 <= j < tail.len() implies override_key(#[trigger] tail[j].0, tail[j].1) != k by {
            assert(tail[j] == (last.0[j], last.1));
            assert(last == secondary[secondary.len() - 1]);
        }
        lemma_insert_entries_misses(insert_entries(Map::empty(), head), tail, k);
    }
}

/// Law: a lookup is pure. `get_from_hash` borrows the index shared, so it
/// cannot change it, and its result is `lookup_spec` of the index's abstract
/// map — a mathematical function. Any number of lookups, in any order or
/// interleaving, on indexes with the same abstract map, return exactly what a
/// single-threaded sequential replay returns.
pub proof fn lemma_lookup_deterministic(
    index_one: Map<u64, Seq<u8>>,
    index_two: Map<u64, Seq<u8>>,
    hash: u64,
)
    requires
        index_one == index_two,
    ensures
        lookup_spec(index_one, hash) == lookup_spec(index_two, hash),
{
}

} // verus!
