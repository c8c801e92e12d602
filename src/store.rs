//! The asset store: a read-only mapping from relative paths to byte contents.
use vstd::prelude::*;

verus! {

/// The mapping that a list of entries describes: where a path occurs more
/// than once, the later entry wins.
pub open spec fn entries_map(entries: Seq<(Seq<char>, Seq<u8>)>) -> Map<Seq<char>, Seq<u8>>
    decreases entries.len(),
{
    if entries.len() == 0 {
        Map::empty()
    } else {
        let last = entries.last();
        entries_map(entries.drop_last()).insert(last.0, last.1)
    }
}

/// Looking a path up in a list of entries: the last entry with that path
/// decides, and a path that no entry past `n` holds is found as in the first `n`.
proof fn lemma_entries_map_prefix(entries: Seq<(Seq<char>, Seq<u8>)>, n: int, path: Seq<char>)
    requires
        0 <= n <= entries.len(),
        forall|j: int| n <= j < entries.len() ==> entries[j].0 != path,
    ensures
        entries_map(entries).contains_key(path) == entries_map(entries.take(n)).contains_key(path),
        entries_map(entries)[path] == entries_map(entries.take(n))[path],
    decreases entries.len(),
{
    if entries.len() > n {
        let shorter = entries.drop_last();
        assert(shorter.take(n) == entries.take(n));
        lemma_entries_map_prefix(shorter, n, path);
    } else {
        assert(entries.take(n) == entries);
    }
}

/// Copies a byte vector.
pub(crate) fn copy_bytes(v: &Vec<u8>) -> (r: Vec<u8>)
    ensures
        r@ == v@,
{
    let mut r: Vec<u8> = Vec::with_capacity(v.len());
    let mut i: usize = 0;
    while i < v.len()
        invariant
            i <= v.len(),
            r@ == v@.take(i as int),
        decreases v.len() - i,
    {
        r.push(v[i]);
        i = i + 1;
        assert(r@ =~= v@.take(i as int));
    }
    assert(v@.take(v.len() as int) =~= v@);
    r
}

/// An immutable path-to-bytes mapping, filled once before it is consulted.
pub struct AssetStore {
    entries: Vec<(String, Vec<u8>)>,
}

impl View for AssetStore {
    type V = Map<Seq<char>, Seq<u8>>;

    closed spec fn view(&self) -> Map<Seq<char>, Seq<u8>> {
        entries_map(self.entries@.map_values(|e: (String, Vec<u8>)| (e.0@, e.1@)))
    }
}

impl AssetStore {
    /// A store that holds no asset.
    pub fn new() -> (r: AssetStore)
        ensures
            r@ == Map::<Seq<char>, Seq<u8>>::empty(),
    {
        let r = AssetStore { entries: Vec::new() };
        assert(r.entries@.map_values(|e: (String, Vec<u8>)| (e.0@, e.1@)) =~= Seq::empty());
        r
    }

    /// Stores `bytes` under `path`, replacing what the path held before.
    pub fn insert(&mut self, path: String, bytes: Vec<u8>)
        ensures
            final(self)@ == old(self)@.insert(path@, bytes@),
    {
        let ghost before = self.entries@;
        let ghost entry = (path@, bytes@);
        self.entries.push((path, bytes));
        assert(self.entries@.map_values(|e: (String, Vec<u8>)| (e.0@, e.1@)).drop_last()
            =~= before.map_values(|e: (String, Vec<u8>)| (e.0@, e.1@)));
    }

    /// The contents stored under `path`, if any.
    pub fn get(&self, path: &String) -> (r: Option<&Vec<u8>>)
        ensures
            r is Some <==> self@.contains_key(path@),
            r is Some ==> r->0@ == self@[path@],
    {
        let ghost views = self.entries@.map_values(|e: (String, Vec<u8>)| (e.0@, e.1@));
        let mut i: usize = self.entries.len();
        while i > 0
            invariant
                i <= self.entries.len(),
                views == self.entries@.map_values(|e: (String, Vec<u8>)| (e.0@, e.1@)),
                forall|j: int| i <= j < views.len() ==> views[j].0 != path@,
            decreases i,
        {
            i = i - 1;
            if self.entries[i].0 == *path {
                proof {
                    lemma_entries_map_prefix(views, i + 1, path@);
                    let prefix = views.take(i + 1);
                    assert(prefix.drop_last() == views.take(i as int));
                }
                return Some(&self.entries[i].1);
            }
        }
        proof {
            lemma_entries_map_prefix(views, 0, path@);
            assert(views.take(0) =~= Seq::empty());
        }
        None
    }
}

} // verus!
