//! The users to be shown, one for each login name, in the order of the names.

use vstd::prelude::*;

use crate::passwd::Passwd;
use crate::text::{text_order, TextOrder};

verus! {

/// A user to be shown.
#[derive(Debug)]
pub struct UserEntry {
    /// The entry of the user database.
    pub user: Passwd,
    /// The name that the accounts service gives the person.
    pub real_name: Option<String>,
    /// The path of the icon that the accounts service names.
    pub icon_file: Option<String>,
}

/// Whether the entry `i` is the one of the user `name`.
pub open spec fn is_entry_of(entries: Seq<UserEntry>, name: Seq<char>, i: int) -> bool {
    0 <= i < entries.len() && entries[i].user.name@ == name
}

/// Whether the login names of the entries ascend strictly.
pub open spec fn ascending(entries: Seq<UserEntry>) -> bool {
    forall|i: int, j: int|
        0 <= i < j < entries.len() ==> crate::text::text_lt(
            (#[trigger] entries[i]).user.name@,
            (#[trigger] entries[j]).user.name@,
        )
}

/// The entries by login name.
pub open spec fn by_name(entries: Seq<UserEntry>) -> Map<Seq<char>, UserEntry> {
    Map::new(
        |name: Seq<char>| exists|i: int| is_entry_of(entries, name, i),
        |name: Seq<char>| entries[choose|i: int| is_entry_of(entries, name, i)],
    )
}

/// Each of ascending entries is the one of its name.
pub proof fn lemma_by_name(entries: Seq<UserEntry>)
    requires
        ascending(entries),
    ensures
        forall|i: int|
            0 <= i < entries.len() ==> by_name(entries).dom().contains(
                (#[trigger] entries[i]).user.name@,
            ) && by_name(entries)[entries[i].user.name@] == entries[i],
{
    assert forall|i: int| 0 <= i < entries.len() implies by_name(entries).dom().contains(
        (#[trigger] entries[i]).user.name@,
    ) && by_name(entries)[entries[i].user.name@] == entries[i] by {
        let name = entries[i].user.name@;
        assert(is_entry_of(entries, name, i));
        let k = choose|k: int| is_entry_of(entries, name, k);
        crate::text::lemma_text_lt_total(name, name);
        assert(k == i);
    }
}

/// An entry between its neighbours is in its place among all the entries.
proof fn lemma_insert_ascending(entries: Seq<UserEntry>, i: int, e: UserEntry)
    requires
        ascending(entries),
        0 <= i <= entries.len(),
        i > 0 ==> crate::text::text_lt(entries[i - 1].user.name@, e.user.name@),
        i < entries.len() ==> crate::text::text_lt(e.user.name@, entries[i].user.name@),
    ensures
        ascending(entries.insert(i, e)),
{
    let longer = entries.insert(i, e);
    let name = e.user.name@;
    assert forall|a: int| 0 <= a < i implies crate::text::text_lt(
        (#[trigger] entries[a]).user.name@,
        name,
    ) by {
        if a < i - 1 {
            let last = entries[i - 1];
            crate::text::lemma_text_lt_transitive(entries[a].user.name@, last.user.name@, name);
        }
    }
    assert forall|b: int| i <= b < entries.len() implies crate::text::text_lt(
        name,
        (#[trigger] entries[b]).user.name@,
    ) by {
        if b > i {
            let first = entries[i];
            crate::text::lemma_text_lt_transitive(name, first.user.name@, entries[b].user.name@);
        }
    }
    assert forall|a: int, b: int| 0 <= a < b < longer.len() implies crate::text::text_lt(
        (#[trigger] longer[a]).user.name@,
        (#[trigger] longer[b]).user.name@,
    ) by {
        let x = if a < i { entries[a] } else { entries[a - 1] };
        let y = if b < i { entries[b] } else { entries[b - 1] };
        assert(a != i ==> longer[a] == x);
        assert(b != i ==> longer[b] == y);
    }
}

/// An entry in its place among ascending ones is one more user.
proof fn lemma_insert(entries: Seq<UserEntry>, i: int, e: UserEntry)
    requires
        ascending(entries),
        0 <= i <= entries.len(),
        i > 0 ==> crate::text::text_lt(entries[i - 1].user.name@, e.user.name@),
        i < entries.len() ==> crate::text::text_lt(e.user.name@, entries[i].user.name@),
    ensures
        ascending(entries.insert(i, e)),
        by_name(entries.insert(i, e)) == by_name(entries).insert(e.user.name@, e),
        !by_name(entries).dom().contains(e.user.name@),
{
    let longer = entries.insert(i, e);
    let name = e.user.name@;
    lemma_insert_ascending(entries, i, e);
    lemma_by_name(entries);
    lemma_by_name(longer);
    assert(longer[i] == e);
    assert(forall|k: int| 0 <= k < i ==> longer[k] == entries[k]);
    assert(forall|k: int| i <= k < entries.len() ==> longer[k + 1] == #[trigger] entries[k]);
    assert forall|n: Seq<char>| by_name(longer).dom().contains(n) implies #[trigger] by_name(
        entries,
    ).insert(name, e).dom().contains(n) && by_name(longer)[n] == by_name(entries).insert(
        name,
        e,
    )[n] by {
        let k = choose|k: int| is_entry_of(longer, n, k);
        if k < i {
            assert(is_entry_of(entries, n, k));
        } else if k > i {
            assert(longer[k] == entries[k - 1]);
            assert(is_entry_of(entries, n, k - 1));
        }
    }
    assert forall|n: Seq<char>| #[trigger]
        by_name(entries).insert(name, e).dom().contains(n) implies by_name(longer).dom().contains(
        n,
    ) by {
        if by_name(entries).dom().contains(n) {
            let k = choose|k: int| is_entry_of(entries, n, k);
            if k < i {
                assert(is_entry_of(longer, n, k));
            } else {
                assert(is_entry_of(longer, n, k + 1));
            }
        }
    }
    assert(by_name(longer) =~= by_name(entries).insert(name, e));
    if by_name(entries).dom().contains(name) {
        let k = choose|k: int| is_entry_of(entries, name, k);
        let m = if k < i {
            k
        } else {
            k + 1
        };
        assert(longer[m] == entries[k]);
        assert(by_name(longer)[longer[m].user.name@] == longer[m]);
        crate::text::lemma_text_lt_total(name, name);
        if m < i {
            assert(crate::text::text_lt(longer[m].user.name@, longer[i].user.name@));
        } else {
            assert(crate::text::text_lt(longer[i].user.name@, longer[m].user.name@));
        }
    }
}

/// Another entry in the place of one with the same name.
proof fn lemma_replace(entries: Seq<UserEntry>, i: int, e: UserEntry)
    requires
        ascending(entries),
        0 <= i < entries.len(),
        entries[i].user.name@ == e.user.name@,
    ensures
        ascending(entries.update(i, e)),
        by_name(entries.update(i, e)) == by_name(entries).insert(e.user.name@, e),
        by_name(entries).dom().contains(e.user.name@),
{
    let updated = entries.update(i, e);
    let name = e.user.name@;
    assert forall|a: int, b: int| 0 <= a < b < updated.len() implies crate::text::text_lt(
        (#[trigger] updated[a]).user.name@,
        (#[trigger] updated[b]).user.name@,
    ) by {
        assert(updated[a].user.name@ == entries[a].user.name@);
        assert(updated[b].user.name@ == entries[b].user.name@);
    }
    lemma_by_name(entries);
    lemma_by_name(updated);
    assert(updated[i] == e);
    assert forall|n: Seq<char>| by_name(updated).dom().contains(n) <==> #[trigger] by_name(
        entries,
    ).insert(name, e).dom().contains(n) by {
        if by_name(updated).dom().contains(n) {
            let k = choose|k: int| is_entry_of(updated, n, k);
            assert(is_entry_of(entries, n, k));
        }
        if by_name(entries).dom().contains(n) {
            let k = choose|k: int| is_entry_of(entries, n, k);
            assert(is_entry_of(updated, n, k));
        }
    }
    assert forall|n: Seq<char>| by_name(updated).dom().contains(n) implies #[trigger] by_name(
        updated,
    )[n] == by_name(entries).insert(name, e)[n] by {
        if n != name {
            let k = choose|k: int| is_entry_of(updated, n, k);
            assert(updated[k] == entries[k]);
        }
    }
    assert(by_name(updated) =~= by_name(entries).insert(name, e));
}

/// The users to be shown.
#[derive(Debug)]
pub struct UserMap {
    entries: Vec<UserEntry>,
}

impl View for UserMap {
    type V = Map<Seq<char>, UserEntry>;

    closed spec fn view(&self) -> Map<Seq<char>, UserEntry> {
        by_name(self.entries@)
    }
}

impl UserMap {
    #[verifier::type_invariant]
    spec fn well_formed(self) -> bool {
        ascending(self.entries@)
    }

    /// No users.
    pub fn new() -> (m: Self)
        ensures
            m@ == Map::<Seq<char>, UserEntry>::empty(),
    {
        let m = UserMap { entries: Vec::new() };
        assert(m@ =~= Map::<Seq<char>, UserEntry>::empty());
        m
    }

    /// Where the entry of `name` is, or where it would have to be put.
    fn find(entries: &Vec<UserEntry>, name: &str) -> (r: (usize, bool))
        requires
            ascending(entries@),
        ensures
            r.0 <= entries.len(),
            r.1 ==> r.0 < entries.len() && entries@[r.0 as int].user.name@ == name@,
            !r.1 ==> (r.0 > 0 ==> crate::text::text_lt(entries@[r.0 - 1].user.name@, name@)) && (
            r.0 < entries.len() ==> crate::text::text_lt(name@, entries@[r.0 as int].user.name@)),
    {
        let mut i: usize = 0;
        while i < entries.len()
            invariant
                i <= entries.len(),
                i > 0 ==> crate::text::text_lt(entries@[i - 1].user.name@, name@),
            decreases entries.len() - i,
        {
            match text_order(entries[i].user.name.as_str(), name) {
                TextOrder::Before => {},
                TextOrder::Same => {
                    return (i, true);
                },
                TextOrder::After => {
                    return (i, false);
                },
            }
            i = i + 1;
        }
        (i, false)
    }

    /// Adds a user, in place of the one with the same name.
    pub fn insert(&mut self, entry: UserEntry)
        ensures
            final(self)@ == old(self)@.insert(entry.user.name@, entry),
    {
        proof {
            use_type_invariant(&*self);
        }
        let mut entries: Vec<UserEntry> = Vec::new();
        std::mem::swap(&mut entries, &mut self.entries);
        let (i, found) = Self::find(&entries, entry.user.name.as_str());
        if found {
            proof {
                lemma_replace(entries@, i as int, entry);
            }
            entries.set(i, entry);
        } else {
            proof {
                lemma_insert(entries@, i as int, entry);
            }
            entries.insert(i, entry);
        }
        self.entries = entries;
    }

    /// Adds a user unless there is one with the same name.
    pub fn insert_if_absent(&mut self, entry: UserEntry)
        ensures
            final(self)@ == if old(self)@.dom().contains(entry.user.name@) {
                old(self)@
            } else {
                old(self)@.insert(entry.user.name@, entry)
            },
    {
        proof {
            use_type_invariant(&*self);
        }
        let mut entries: Vec<UserEntry> = Vec::new();
        std::mem::swap(&mut entries, &mut self.entries);
        let (i, found) = Self::find(&entries, entry.user.name.as_str());
        if found {
            proof {
                lemma_replace(entries@, i as int, entry);
            }
        } else {
            proof {
                lemma_insert(entries@, i as int, entry);
            }
            entries.insert(i, entry);
        }
        self.entries = entries;
    }

    /// The users, in the order of their names.
    pub fn into_entries(self) -> (r: Vec<UserEntry>)
        ensures
            ascending(r@),
            by_name(r@) == self@,
    {
        proof {
            use_type_invariant(&self);
        }
        self.entries
    }
}

/// The users that a map gives out are those that it holds, each under the login name,
/// and no one else, in the order of the names.
pub proof fn law_entries_are_the_users(map: UserMap, entries: Vec<UserEntry>)
    requires
        call_ensures(UserMap::into_entries, (map,), entries),
    ensures
        forall|i: int|
            0 <= i < entries@.len() ==> map@.dom().contains((#[trigger] entries@[i]).user.name@)
                && map@[entries@[i].user.name@] == entries@[i],
        forall|name: Seq<char>| #[trigger]
            map@.dom().contains(name) ==> exists|i: int|
                0 <= i < entries@.len() && (#[trigger] entries@[i]).user.name@ == name,
        forall|i: int, j: int|
            0 <= i < j < entries@.len() ==> crate::text::text_lt(
                (#[trigger] entries@[i]).user.name@,
                (#[trigger] entries@[j]).user.name@,
            ),
{
    lemma_by_name(entries@);
    assert forall|name: Seq<char>| #[trigger] map@.dom().contains(name) implies exists|i: int|
        0 <= i < entries@.len() && (#[trigger] entries@[i]).user.name@ == name by {
        let i: int = choose|i: int| is_entry_of(entries@, name, i);
        assert(entries@[i].user.name@ == name);
    }
}

} // verus!
