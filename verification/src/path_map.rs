//! The contents of files, kept by path, in the order of the paths.

use vstd::prelude::*;

use crate::path::{path_order, same_path};
use crate::text::TextOrder;

verus! {

/// Whether the entry `i` is the one of the path with the key `key`.
pub open spec fn holds_at(
    entries: Seq<(String, Vec<u8>)>,
    key: crate::path::PathKey,
    i: int,
) -> bool {
    0 <= i < entries.len() && crate::path::path_key(entries[i].0@) == key
}

/// Whether the paths of the entries ascend strictly, so that no two of them name the
/// same place.
pub open spec fn ascending(entries: Seq<(String, Vec<u8>)>) -> bool {
    forall|i: int, j: int|
        0 <= i < j < entries.len() ==> crate::path::path_lt(
            crate::path::path_key((#[trigger] entries[i]).0@),
            crate::path::path_key((#[trigger] entries[j]).0@),
        )
}

/// What a list of entries says, as a map from what a path names to the bytes there.
pub open spec fn contents(entries: Seq<(String, Vec<u8>)>) -> Map<crate::path::PathKey, Seq<u8>> {
    Map::new(
        |key: crate::path::PathKey| exists|i: int| holds_at(entries, key, i),
        |key: crate::path::PathKey| entries[choose|i: int| holds_at(entries, key, i)].1@,
    )
}

/// How the paths of a list of entries are spelled, by what they name.
pub open spec fn spelled(entries: Seq<(String, Vec<u8>)>) -> Map<crate::path::PathKey, Seq<char>> {
    Map::new(
        |key: crate::path::PathKey| exists|i: int| holds_at(entries, key, i),
        |key: crate::path::PathKey| entries[choose|i: int| holds_at(entries, key, i)].0@,
    )
}

/// A map from paths to bytes, in the order of the paths. Two paths that name the
/// same place are one key.
#[derive(Debug)]
pub struct PathMap {
    entries: Vec<(String, Vec<u8>)>,
}

impl View for PathMap {
    type V = Map<crate::path::PathKey, Seq<u8>>;

    closed spec fn view(&self) -> Map<crate::path::PathKey, Seq<u8>> {
        contents(self.entries@)
    }
}

/// Each of ascending entries is what the map holds for its path.
proof fn lemma_contents(entries: Seq<(String, Vec<u8>)>)
    requires
        ascending(entries),
    ensures
        forall|i: int|
            0 <= i < entries.len() ==> contents(entries).dom().contains(
                crate::path::path_key((#[trigger] entries[i]).0@),
            ) && contents(entries)[crate::path::path_key(entries[i].0@)] == entries[i].1@
                && spelled(entries)[crate::path::path_key(entries[i].0@)] == entries[i].0@,
{
    assert forall|i: int| 0 <= i < entries.len() implies contents(entries).dom().contains(
        crate::path::path_key((#[trigger] entries[i]).0@),
    ) && contents(entries)[crate::path::path_key(entries[i].0@)] == entries[i].1@ && spelled(
        entries,
    )[crate::path::path_key(entries[i].0@)] == entries[i].0@ by {
        let key = crate::path::path_key(entries[i].0@);
        assert(holds_at(entries, key, i));
        let k = choose|k: int| holds_at(entries, key, k);
        crate::path::law_paths_are_ordered(entries[i].0@, entries[i].0@, entries[i].0@);
        assert(k == i);
    }
}

/// An entry between its neighbours is in its place among all the entries.
proof fn lemma_insert_ascending(
    entries: Seq<(String, Vec<u8>)>,
    i: int,
    e: (String, Vec<u8>),
)
    requires
        ascending(entries),
        0 <= i <= entries.len(),
        i > 0 ==> crate::path::path_lt(
            crate::path::path_key(entries[i - 1].0@),
            crate::path::path_key(e.0@),
        ),
        i < entries.len() ==> crate::path::path_lt(
            crate::path::path_key(e.0@),
            crate::path::path_key(entries[i].0@),
        ),
    ensures
        ascending(entries.insert(i, e)),
{
    let longer = entries.insert(i, e);
    let key = crate::path::path_key(e.0@);
    assert forall|a: int| 0 <= a < i implies crate::path::path_lt(
        crate::path::path_key((#[trigger] entries[a]).0@),
        key,
    ) by {
        if a < i - 1 {
            let last = entries[i - 1];
            crate::path::law_paths_are_ordered(entries[a].0@, last.0@, e.0@);
        }
    }
    assert forall|b: int| i <= b < entries.len() implies crate::path::path_lt(
        key,
        crate::path::path_key((#[trigger] entries[b]).0@),
    ) by {
        if b > i {
            let first = entries[i];
            crate::path::law_paths_are_ordered(e.0@, first.0@, entries[b].0@);
        }
    }
    assert forall|a: int, b: int| 0 <= a < b < longer.len() implies crate::path::path_lt(
        crate::path::path_key((#[trigger] longer[a]).0@),
        crate::path::path_key((#[trigger] longer[b]).0@),
    ) by {
        let x = if a < i { entries[a] } else { entries[a - 1] };
        let y = if b < i { entries[b] } else { entries[b - 1] };
        assert(a != i ==> longer[a] == x);
        assert(b != i ==> longer[b] == y);
    }
}

/// An entry in its place among ascending ones is one more key of the map.
proof fn lemma_insert(entries: Seq<(String, Vec<u8>)>, i: int, e: (String, Vec<u8>))
    requires
        ascending(entries),
        0 <= i <= entries.len(),
        i > 0 ==> crate::path::path_lt(
            crate::path::path_key(entries[i - 1].0@),
            crate::path::path_key(e.0@),
        ),
        i < entries.len() ==> crate::path::path_lt(
            crate::path::path_key(e.0@),
            crate::path::path_key(entries[i].0@),
        ),
    ensures
        ascending(entries.insert(i, e)),
        !contents(entries).dom().contains(crate::path::path_key(e.0@)),
        contents(entries.insert(i, e)) == contents(entries).insert(
            crate::path::path_key(e.0@),
            e.1@,
        ),
        spelled(entries.insert(i, e)) == spelled(entries).insert(
            crate::path::path_key(e.0@),
            e.0@,
        ),
{
    let longer = entries.insert(i, e);
    let key = crate::path::path_key(e.0@);
    lemma_insert_ascending(entries, i, e);
    lemma_contents(entries);
    lemma_contents(longer);
    assert(longer[i] == e);
    assert(forall|k: int| 0 <= k < i ==> longer[k] == entries[k]);
    assert(forall|k: int| i <= k < entries.len() ==> longer[k + 1] == #[trigger] entries[k]);
    if contents(entries).dom().contains(key) {
        let k: int = choose|k: int| holds_at(entries, key, k);
        let m: int = if k < i {
            k
        } else {
            k + 1
        };
        assert(longer[m] == entries[k]);
        crate::path::law_paths_are_ordered(e.0@, entries[k].0@, e.0@);
        if m < i {
            assert(crate::path::path_lt(
                crate::path::path_key(longer[m].0@),
                crate::path::path_key(longer[i].0@),
            ));
        } else {
            assert(crate::path::path_lt(
                crate::path::path_key(longer[i].0@),
                crate::path::path_key(longer[m].0@),
            ));
        }
    }
    assert forall|k: crate::path::PathKey| contents(longer).dom().contains(k) implies #[trigger] contents(
        entries,
    ).insert(key, e.1@).dom().contains(k) && contents(longer)[k] == contents(entries).insert(
        key,
        e.1@,
    )[k] && spelled(longer)[k] == spelled(entries).insert(key, e.0@)[k] by {
        let n: int = choose|n: int| holds_at(longer, k, n);
        if n < i {
            assert(longer[n] == entries[n]);
            assert(holds_at(entries, k, n));
        } else if n > i {
            assert(longer[n] == entries[n - 1]);
            assert(holds_at(entries, k, n - 1));
        }
    }
    assert forall|k: crate::path::PathKey| #[trigger]
        contents(entries).insert(key, e.1@).dom().contains(k) implies contents(
        longer,
    ).dom().contains(k) by {
        if contents(entries).dom().contains(k) {
            let n: int = choose|n: int| holds_at(entries, k, n);
            if n < i {
                assert(holds_at(longer, k, n));
            } else {
                assert(holds_at(longer, k, n + 1));
            }
        } else {
            assert(holds_at(longer, k, i));
        }
    }
    assert(contents(longer) =~= contents(entries).insert(key, e.1@));
    assert(spelled(longer).dom() =~= contents(longer).dom());
    assert(spelled(entries).dom() =~= contents(entries).dom());
    assert forall|k: crate::path::PathKey| #[trigger] spelled(longer).dom().contains(k) implies spelled(
        longer,
    )[k] == spelled(entries).insert(key, e.0@)[k] by {
        assert(contents(longer).dom().contains(k));
        assert(contents(entries).insert(key, e.1@).dom().contains(k));
    }
    assert(spelled(longer) =~= spelled(entries).insert(key, e.0@));
}

/// Other bytes for a path, which stays spelled as it is.
proof fn lemma_replace(entries: Seq<(String, Vec<u8>)>, i: int, bytes: Vec<u8>)
    requires
        ascending(entries),
        0 <= i < entries.len(),
    ensures
        ascending(entries.update(i, (entries[i].0, bytes))),
        contents(entries).dom().contains(crate::path::path_key(entries[i].0@)),
        contents(entries.update(i, (entries[i].0, bytes))) == contents(entries).insert(
            crate::path::path_key(entries[i].0@),
            bytes@,
        ),
        spelled(entries.update(i, (entries[i].0, bytes))) == spelled(entries),
{
    let updated = entries.update(i, (entries[i].0, bytes));
    let key = crate::path::path_key(entries[i].0@);
    assert(forall|k: int| 0 <= k < entries.len() ==> (#[trigger] updated[k]).0 == entries[k].0);
    assert forall|a: int, b: int| 0 <= a < b < updated.len() implies crate::path::path_lt(
        crate::path::path_key((#[trigger] updated[a]).0@),
        crate::path::path_key((#[trigger] updated[b]).0@),
    ) by {
        assert(updated[a].0 == entries[a].0 && updated[b].0 == entries[b].0);
    }
    lemma_contents(entries);
    lemma_contents(updated);
    assert forall|k: crate::path::PathKey, n: int| #[trigger] holds_at(updated, k, n) == holds_at(
        entries,
        k,
        n,
    ) by {
        if 0 <= n < entries.len() {
            assert(updated[n].0 == entries[n].0);
        }
    }
    assert forall|k: crate::path::PathKey| #[trigger] contents(updated).dom().contains(k)
        == contents(entries).dom().contains(k) by {
        if contents(updated).dom().contains(k) {
            let n: int = choose|n: int| holds_at(updated, k, n);
            assert(holds_at(entries, k, n));
        }
        if contents(entries).dom().contains(k) {
            let n: int = choose|n: int| holds_at(entries, k, n);
            assert(holds_at(updated, k, n));
        }
    }
    assert forall|k: crate::path::PathKey| #[trigger] contents(updated).dom().contains(k) implies contents(
        updated,
    )[k] == contents(entries).insert(key, bytes@)[k] && spelled(updated)[k] == spelled(
        entries,
    )[k] by {
        let n: int = choose|n: int| holds_at(updated, k, n);
        assert(updated[n].0 == entries[n].0);
        assert(contents(updated)[k] == updated[n].1@);
        crate::path::law_paths_are_ordered(entries[n].0@, entries[i].0@, entries[n].0@);
        if n != i {
            assert(updated[n] == entries[n]);
            assert(contents(entries)[k] == entries[n].1@);
        }
    }
    assert(contents(updated) =~= contents(entries).insert(key, bytes@));
    assert(spelled(updated).dom() =~= contents(updated).dom());
    assert(spelled(entries).dom() =~= contents(entries).dom());
    assert forall|k: crate::path::PathKey| #[trigger] spelled(updated).dom().contains(k) implies spelled(
        updated,
    )[k] == spelled(entries)[k] by {
        assert(contents(updated).dom().contains(k));
    }
    assert(spelled(updated) =~= spelled(entries));
}

/// Entries that are spelled alike and hold the same bytes make the same map.
proof fn lemma_same_entries(a: Seq<(String, Vec<u8>)>, b: Seq<(String, Vec<u8>)>)
    requires
        ascending(a),
        a.len() == b.len(),
        forall|i: int|
            0 <= i < a.len() ==> (#[trigger] b[i]).0@ == a[i].0@ && b[i].1@ == a[i].1@,
    ensures
        ascending(b),
        contents(b) == contents(a),
        spelled(b) == spelled(a),
{
    assert forall|i: int, j: int| 0 <= i < j < b.len() implies crate::path::path_lt(
        crate::path::path_key((#[trigger] b[i]).0@),
        crate::path::path_key((#[trigger] b[j]).0@),
    ) by {
        assert(b[i].0@ == a[i].0@ && b[j].0@ == a[j].0@);
    }
    lemma_contents(a);
    lemma_contents(b);
    assert forall|key: crate::path::PathKey, i: int| #[trigger] holds_at(b, key, i) == holds_at(
        a,
        key,
        i,
    ) by {
        if 0 <= i < a.len() {
            assert(b[i].0@ == a[i].0@);
        }
    }
    assert forall|key: crate::path::PathKey| #[trigger] contents(b).dom().contains(key) == contents(
        a,
    ).dom().contains(key) by {
        if contents(b).dom().contains(key) {
            let i: int = choose|i: int| holds_at(b, key, i);
            assert(holds_at(a, key, i));
        }
        if contents(a).dom().contains(key) {
            let i: int = choose|i: int| holds_at(a, key, i);
            assert(holds_at(b, key, i));
        }
    }
    assert forall|key: crate::path::PathKey| #[trigger] contents(b).dom().contains(key) implies contents(
        b,
    )[key] == contents(a)[key] && spelled(b)[key] == spelled(a)[key] by {
        let i: int = choose|i: int| holds_at(b, key, i);
        assert(b[i].0@ == a[i].0@);
    }
    assert(contents(b) =~= contents(a));
    assert forall|key: crate::path::PathKey| #[trigger] spelled(b).dom().contains(key) == spelled(
        a,
    ).dom().contains(key) by {
        assert(contents(b).dom().contains(key) == contents(a).dom().contains(key));
    }
    assert forall|key: crate::path::PathKey| #[trigger] spelled(b).dom().contains(key) implies spelled(
        b,
    )[key] == spelled(a)[key] by {
        assert(contents(b).dom().contains(key));
    }
    assert(spelled(b) =~= spelled(a));
}

/// What the paths of a list name.
pub open spec fn keys_of(paths: Seq<String>) -> Set<crate::path::PathKey> {
    Set::new(
        |key: crate::path::PathKey|
            exists|i: int|
                0 <= i < paths.len() && crate::path::path_key((#[trigger] paths[i])@) == key,
    )
}

/// Whether `path` names the same place as one of `paths`.
fn names_one_of(path: &str, paths: &Vec<String>) -> (r: bool)
    ensures
        r == keys_of(paths@).contains(crate::path::path_key(path@)),
{
    let mut i: usize = 0;
    while i < paths.len()
        invariant
            i <= paths.len(),
            forall|j: int|
                0 <= j < i ==> crate::path::path_key((#[trigger] paths@[j])@)
                    != crate::path::path_key(path@),
        decreases paths.len() - i,
    {
        if same_path(paths[i].as_str(), path) {
            return true;
        }
        i = i + 1;
    }
    false
}

impl Clone for PathMap {
    fn clone(&self) -> (r: Self)
        ensures
            r@ == self@,
            r.spellings() == self.spellings(),
    {
        proof {
            use_type_invariant(self);
        }
        let mut entries: Vec<(String, Vec<u8>)> = Vec::new();
        let mut i: usize = 0;
        while i < self.entries.len()
            invariant
                i <= self.entries.len(),
                entries@.len() == i,
                forall|j: int|
                    0 <= j < i ==> (#[trigger] entries@[j]).0@ == self.entries@[j].0@
                        && entries@[j].1@ == self.entries@[j].1@,
            decreases self.entries.len() - i,
        {
            let bytes = self.entries[i].1.clone();
            assert(bytes@ =~= self.entries@[i as int].1@);
            entries.push((self.entries[i].0.clone(), bytes));
            i = i + 1;
        }
        proof {
            lemma_same_entries(self.entries@, entries@);
        }
        PathMap { entries }
    }
}

impl PathMap {
    #[verifier::type_invariant]
    spec fn well_formed(self) -> bool {
        ascending(self.entries@)
    }

    /// How the paths are spelled, by what they name.
    pub closed spec fn spellings(self) -> Map<crate::path::PathKey, Seq<char>> {
        spelled(self.entries@)
    }

    /// A map without entries.
    pub fn new() -> (m: Self)
        ensures
            m@ == Map::<crate::path::PathKey, Seq<u8>>::empty(),
            m.spellings() == Map::<crate::path::PathKey, Seq<char>>::empty(),
    {
        let m = PathMap { entries: Vec::new() };
        assert(m.spellings() =~= Map::<crate::path::PathKey, Seq<char>>::empty());
        assert(m@ =~= Map::<crate::path::PathKey, Seq<u8>>::empty());
        m
    }

    /// Whether something is kept for `path`.
    pub fn contains(&self, path: &str) -> (r: bool)
        ensures
            r == self@.dom().contains(crate::path::path_key(path@)),
    {
        self.get(path).is_some()
    }

    /// What is kept for `path`.
    pub fn get(&self, path: &str) -> (r: Option<&Vec<u8>>)
        ensures
            match r {
                Some(bytes) => self@.dom().contains(crate::path::path_key(path@))
                    && self@[crate::path::path_key(path@)] == bytes@,
                None => !self@.dom().contains(crate::path::path_key(path@)),
            },
    {
        proof {
            use_type_invariant(self);
            lemma_contents(self.entries@);
        }
        let mut i: usize = 0;
        while i < self.entries.len()
            invariant
                i <= self.entries.len(),
                forall|j: int|
                    0 <= j < i ==> !holds_at(self.entries@, crate::path::path_key(path@), j),
                forall|j: int|
                    0 <= j < self.entries@.len() ==> contents(self.entries@).dom().contains(
                        crate::path::path_key((#[trigger] self.entries@[j]).0@),
                    ) && contents(self.entries@)[crate::path::path_key(self.entries@[j].0@)]
                        == self.entries@[j].1@,
            decreases self.entries.len() - i,
        {
            if same_path(self.entries[i].0.as_str(), path) {
                return Some(&self.entries[i].1);
            }
            i = i + 1;
        }
        None
    }

    /// Where the entry for `path` is, or where it would have to be put.
    fn find(entries: &Vec<(String, Vec<u8>)>, path: &str) -> (r: (usize, bool))
        ensures
            r.0 <= entries.len(),
            r.1 ==> r.0 < entries.len() && crate::path::path_key(entries@[r.0 as int].0@)
                == crate::path::path_key(path@),
            !r.1 ==> (r.0 > 0 ==> crate::path::path_lt(
                crate::path::path_key(entries@[r.0 - 1].0@),
                crate::path::path_key(path@),
            )) && (r.0 < entries.len() ==> crate::path::path_lt(
                crate::path::path_key(path@),
                crate::path::path_key(entries@[r.0 as int].0@),
            )),
    {
        let mut i: usize = 0;
        while i < entries.len()
            invariant
                i <= entries.len(),
                i > 0 ==> crate::path::path_lt(
                    crate::path::path_key(entries@[i - 1].0@),
                    crate::path::path_key(path@),
                ),
            decreases entries.len() - i,
        {
            match path_order(entries[i].0.as_str(), path) {
                TextOrder::Before => {},
                TextOrder::Same => {
                    return (i, true);
                },
                TextOrder::After => {
                    return (i, false);
                },
            }
            i = i + 1;
        }
        (i, false)
    }

    /// Keeps `bytes` for `path`, in place of what was kept for it. A path for which
    /// something was kept stays spelled as it was.
    pub fn insert(&mut self, path: String, bytes: Vec<u8>)
        ensures
            final(self)@ == old(self)@.insert(crate::path::path_key(path@), bytes@),
            final(self).spellings() == if old(self)@.dom().contains(crate::path::path_key(path@)) {
                old(self).spellings()
            } else {
                old(self).spellings().insert(crate::path::path_key(path@), path@)
            },
    {
        proof {
            use_type_invariant(&*self);
        }
        let mut entries: Vec<(String, Vec<u8>)> = Vec::new();
        std::mem::swap(&mut entries, &mut self.entries);
        let ghost all = entries@;
        let (i, found) = Self::find(&entries, path.as_str());
        if found {
            proof {
                lemma_replace(all, i as int, bytes);
            }
            let old_entry = entries.remove(i);
            entries.insert(i, (old_entry.0, bytes));
            assert(entries@ =~= all.update(i as int, (all[i as int].0, bytes)));
        } else {
            proof {
                lemma_insert(all, i as int, (path, bytes));
            }
            entries.insert(i, (path, bytes));
        }
        self.entries = entries;
    }

    /// Keeps only what is kept for one of `paths`.
    pub fn retain(&mut self, paths: &Vec<String>)
        ensures
            final(self)@ == old(self)@.restrict(keys_of(paths@)),
            final(self).spellings() == old(self).spellings().restrict(keys_of(paths@)),
    {
        proof {
            use_type_invariant(&*self);
        }
        let ghost keys = keys_of(paths@);
        let mut old_entries: Vec<(String, Vec<u8>)> = Vec::new();
        std::mem::swap(&mut old_entries, &mut self.entries);
        let ghost all = old_entries@;
        let mut kept: Vec<(String, Vec<u8>)> = Vec::new();
        assert(contents(kept@) =~= contents(all.take(0)).restrict(keys));
        assert(spelled(kept@) =~= spelled(all.take(0)).restrict(keys));
        for e in it: old_entries
            invariant
                it.seq() == all,
                ascending(all),
                ascending(kept@),
                forall|j: int, m: int|
                    0 <= j < kept@.len() && it.index() <= m < all.len() ==> crate::path::path_lt(
                        crate::path::path_key((#[trigger] kept@[j]).0@),
                        crate::path::path_key((#[trigger] all[m]).0@),
                    ),
                keys == keys_of(paths@),
                contents(kept@) == contents(all.take(it.index() as int)).restrict(keys),
                spelled(kept@) == spelled(all.take(it.index() as int)).restrict(keys),
        {
            let ghost n = it.index() as int;
            proof {
                lemma_take_step(all, n);
                assert(all[n] == e);
            }
            if names_one_of(e.0.as_str(), paths) {
                proof {
                    lemma_insert(kept@, kept@.len() as int, e);
                    assert(kept@.insert(kept@.len() as int, e) =~= kept@.push(e));
                }
                kept.push(e);
            }
            assert(contents(kept@) =~= contents(all.take(n + 1)).restrict(keys));
            assert(spelled(kept@) =~= spelled(all.take(n + 1)).restrict(keys));
        }
        assert(all.take(all.len() as int) == all);
        self.entries = kept;
    }

    /// The entries, in the order of their paths.
    pub fn entries(&self) -> (r: &Vec<(String, Vec<u8>)>)
        ensures
            ascending(r@),
            contents(r@) == self@,
            spelled(r@) == self.spellings(),
    {
        proof {
            use_type_invariant(self);
        }
        &self.entries
    }
}

/// The map of the first entries, with one more.
proof fn lemma_take_step(entries: Seq<(String, Vec<u8>)>, n: int)
    requires
        ascending(entries),
        0 <= n < entries.len(),
    ensures
        ascending(entries.take(n)),
        !contents(entries.take(n)).dom().contains(crate::path::path_key(entries[n].0@)),
        contents(entries.take(n + 1)) == contents(entries.take(n)).insert(
            crate::path::path_key(entries[n].0@),
            entries[n].1@,
        ),
        spelled(entries.take(n + 1)) == spelled(entries.take(n)).insert(
            crate::path::path_key(entries[n].0@),
            entries[n].0@,
        ),
{
    let first = entries.take(n);
    assert(entries.take(n + 1) =~= first.insert(n, entries[n]));
    assert forall|i: int, j: int| 0 <= i < j < first.len() implies crate::path::path_lt(
        crate::path::path_key((#[trigger] first[i]).0@),
        crate::path::path_key((#[trigger] first[j]).0@),
    ) by {
        assert(first[i] == entries[i] && first[j] == entries[j]);
    }
    assert(n > 0 ==> first[n - 1] == entries[n - 1]);
    lemma_insert(first, n, entries[n]);
}

/// The entries of a map are fixed by what it holds and how its paths are spelled:
/// there is one list of them in the order of the paths.
pub proof fn law_entries_are_fixed(a: Seq<(String, Vec<u8>)>, b: Seq<(String, Vec<u8>)>)
    requires
        ascending(a),
        ascending(b),
        contents(a) == contents(b),
        spelled(a) == spelled(b),
    ensures
        a.len() == b.len(),
        forall|i: int|
            0 <= i < a.len() ==> (#[trigger] a[i]).0@ == b[i].0@ && a[i].1@ == b[i].1@,
    decreases a.len(),
{
    lemma_contents(a);
    lemma_contents(b);
    if a.len() == 0 {
        if b.len() > 0 {
            assert(contents(b).dom().contains(crate::path::path_key(b[0].0@)));
        }
    } else {
        let m: int = a.len() - 1;
        let x = crate::path::path_key(a[m].0@);
        assert(contents(a).dom().contains(x));
        let j: int = choose|j: int| holds_at(b, x, j);
        let n: int = b.len() - 1;
        let y = crate::path::path_key(b[n].0@);
        assert(contents(b).dom().contains(y));
        let i: int = choose|i: int| holds_at(a, y, i);
        crate::path::law_paths_are_ordered(a[m].0@, b[n].0@, a[m].0@);
        crate::path::law_paths_are_ordered(b[n].0@, a[m].0@, b[n].0@);
        assert(j == n) by {
            if j < n {
                assert(crate::path::path_lt(x, y));
                if i < m {
                    assert(crate::path::path_lt(y, x));
                }
            }
        }
        lemma_take_step(a, m);
        lemma_take_step(b, n);
        assert(a.take(m + 1) =~= a);
        assert(b.take(n + 1) =~= b);
        assert(contents(a.take(m)) =~= contents(a).remove(x));
        assert(contents(b.take(n)) =~= contents(b).remove(x));
        assert(spelled(a.take(m)).dom() =~= contents(a.take(m)).dom());
        assert(spelled(b.take(n)).dom() =~= contents(b.take(n)).dom());
        assert(spelled(a.take(m)) =~= spelled(a).remove(x));
        assert(spelled(b.take(n)) =~= spelled(b).remove(x));
        law_entries_are_fixed(a.take(m), b.take(n));
        assert forall|k: int| 0 <= k < a.len() implies (#[trigger] a[k]).0@ == b[k].0@ && a[k].1@
            == b[k].1@ by {
            if k < m {
                assert(a.take(m)[k] == a[k] && b.take(n)[k] == b[k]);
            }
        }
    }
}

/// The entries of a map are what it holds, each under its path and spelled like that,
/// and nothing else; and looking up a path finds the entry for the same place.
pub proof fn law_entries_are_what_is_held(
    map: PathMap,
    entries: &Vec<(String, Vec<u8>)>,
    path: &str,
    found: Option<&Vec<u8>>,
)
    requires
        call_ensures(PathMap::entries, (&map,), entries),
        call_ensures(PathMap::get, (&map, path), found),
    ensures
        forall|i: int|
            0 <= i < entries@.len() ==> ({
                let key = crate::path::path_key((#[trigger] entries@[i]).0@);
                &&& map@.dom().contains(key)
                &&& map@[key] == entries@[i].1@
                &&& map.spellings()[key] == entries@[i].0@
            }),
        forall|key: crate::path::PathKey| #[trigger]
            map@.dom().contains(key) ==> exists|i: int|
                0 <= i < entries@.len() && crate::path::path_key((#[trigger] entries@[i]).0@) == key,
        forall|i: int, j: int|
            0 <= i < j < entries@.len() ==> crate::path::path_lt(
                crate::path::path_key((#[trigger] entries@[i]).0@),
                crate::path::path_key((#[trigger] entries@[j]).0@),
            ),
        match found {
            Some(bytes) => exists|i: int|
                0 <= i < entries@.len() && crate::path::path_key((#[trigger] entries@[i]).0@)
                    == crate::path::path_key(path@) && entries@[i].1@ == bytes@,
            None => forall|i: int|
                0 <= i < entries@.len() ==> crate::path::path_key((#[trigger] entries@[i]).0@)
                    != crate::path::path_key(path@),
        },
{
    lemma_contents(entries@);
    assert forall|key: crate::path::PathKey| #[trigger]
        map@.dom().contains(key) implies exists|i: int|
        0 <= i < entries@.len() && crate::path::path_key((#[trigger] entries@[i]).0@) == key by {
        let i: int = choose|i: int| holds_at(entries@, key, i);
        assert(crate::path::path_key(entries@[i].0@) == key);
    }
}

} // verus!
