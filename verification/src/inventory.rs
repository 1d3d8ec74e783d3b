//! The instance inventory: which cloud instance stands behind each internal
//! network name.

use vstd::prelude::*;

verus! {

/// Whether no two of `entries` carry the same name.
spec fn names_unique(entries: Seq<(String, String)>) -> bool {
    forall|i: int, j: int| 0 <= i < j < entries.len() ==> entries[i].0@ != entries[j].0@
}

/// Whether one of `entries` carries `name`.
spec fn holds_name(entries: Seq<(String, String)>, name: Seq<char>) -> bool {
    exists|i: int| 0 <= i < entries.len() && #[trigger] entries[i].0@ == name
}

/// Where `entries` carries `name`, if it does.
spec fn position_of(entries: Seq<(String, String)>, name: Seq<char>) -> int {
    choose|i: int| 0 <= i < entries.len() && #[trigger] entries[i].0@ == name
}

/// The mapping that `entries` stand for: each name to the identifier listed
/// with it.
spec fn entries_map(entries: Seq<(String, String)>) -> Map<Seq<char>, Seq<char>> {
    Map::new(
        |name: Seq<char>| holds_name(entries, name),
        |name: Seq<char>| entries[position_of(entries, name)].1@,
    )
}

/// With unique names, the entry at `i` is the one found for its name.
proof fn lemma_position_of(entries: Seq<(String, String)>, i: int)
    requires
        names_unique(entries),
        0 <= i < entries.len(),
    ensures
        holds_name(entries, entries[i].0@),
        position_of(entries, entries[i].0@) == i,
{
    let name = entries[i].0@;
    assert(entries[i].0@ == name);
    let p = position_of(entries, name);
    assert(0 <= p < entries.len() && entries[p].0@ == name);
    if p < i {
        assert(entries[p].0@ != entries[i].0@);
    } else if i < p {
        assert(entries[i].0@ != entries[p].0@);
    }
}

/// Replacing the identifier listed with a name is an insertion into the
/// mapping.
proof fn lemma_replace_is_insert(
    entries: Seq<(String, String)>,
    p: int,
    name: String,
    id: String,
)
    requires
        names_unique(entries),
        0 <= p < entries.len(),
        entries[p].0@ == name@,
    ensures
        names_unique(entries.update(p, (name, id))),
        entries_map(entries.update(p, (name, id))) == entries_map(entries).insert(name@, id@),
{
    let after = entries.update(p, (name, id));
    assert forall|i: int| 0 <= i < entries.len() implies after[i].0@ == entries[i].0@ by {}
    assert(names_unique(after)) by {
        assert forall|i: int, j: int| 0 <= i < j < after.len() implies after[i].0@
            != after[j].0@ by {
            assert(entries[i].0@ != entries[j].0@);
        }
    }
    let wanted = entries_map(entries).insert(name@, id@);
    assert forall|n: Seq<char>| entries_map(after).dom().contains(n) <==> wanted.dom().contains(
        n,
    ) by {
        if holds_name(after, n) {
            let i = position_of(after, n);
            assert(entries[i].0@ == n);
        }
        if holds_name(entries, n) {
            let i = position_of(entries, n);
            assert(after[i].0@ == n);
        }
        if n == name@ {
            assert(after[p].0@ == n);
        }
    }
    assert forall|n: Seq<char>| entries_map(after).dom().contains(n) implies entries_map(after)[n]
        == wanted[n] by {
        let i = position_of(after, n);
        lemma_position_of(after, i);
        assert(entries[i].0@ == n);
        lemma_position_of(entries, i);
    }
    assert(entries_map(after) =~= wanted);
}

/// Listing a name that is not held yet is an insertion into the mapping.
proof fn lemma_push_is_insert(entries: Seq<(String, String)>, name: String, id: String)
    requires
        names_unique(entries),
        !holds_name(entries, name@),
    ensures
        names_unique(entries.push((name, id))),
        entries_map(entries.push((name, id))) == entries_map(entries).insert(name@, id@),
{
    let after = entries.push((name, id));
    let last = entries.len() as int;
    assert(names_unique(after)) by {
        assert forall|i: int, j: int| 0 <= i < j < after.len() implies after[i].0@
            != after[j].0@ by {
            if j == last {
                assert(entries[i].0@ != name@);
            } else {
                assert(entries[i].0@ != entries[j].0@);
            }
        }
    }
    let wanted = entries_map(entries).insert(name@, id@);
    assert forall|n: Seq<char>| entries_map(after).dom().contains(n) <==> wanted.dom().contains(
        n,
    ) by {
        if holds_name(after, n) {
            let i = position_of(after, n);
            if i < last {
                assert(entries[i].0@ == n);
            }
        }
        if holds_name(entries, n) {
            let i = position_of(entries, n);
            assert(after[i].0@ == n);
        }
        if n == name@ {
            assert(after[last].0@ == n);
        }
    }
    assert forall|n: Seq<char>| entries_map(after).dom().contains(n) implies entries_map(after)[n]
        == wanted[n] by {
        let i = position_of(after, n);
        lemma_position_of(after, i);
        if i < last {
            assert(entries[i].0@ == n);
            lemma_position_of(entries, i);
        }
    }
    assert(entries_map(after) =~= wanted);
}

/// With unique names, the mapping lists as many names as there are
/// entries.
proof fn lemma_entries_count(entries: Seq<(String, String)>)
    requires
        names_unique(entries),
    ensures
        entries_map(entries).dom().finite(),
        entries_map(entries).len() == entries.len(),
    decreases entries.len(),
{
    if entries.len() == 0 {
        assert(entries_map(entries) =~= Map::<Seq<char>, Seq<char>>::empty());
    } else {
        let earlier = entries.drop_last();
        let last = entries.last();
        assert(names_unique(earlier)) by {
            assert forall|i: int, j: int| 0 <= i < j < earlier.len() implies earlier[i].0@
                != earlier[j].0@ by {
                assert(entries[i].0@ != entries[j].0@);
            }
        }
        lemma_entries_count(earlier);
        if holds_name(earlier, last.0@) {
            let i = position_of(earlier, last.0@);
            assert(entries[i].0@ != entries[entries.len() - 1].0@);
        }
        lemma_push_is_insert(earlier, last.0, last.1);
        assert(earlier.push((last.0, last.1)) =~= entries);
    }
}

/// A mapping from internal network name to instance identifier. A name is
/// listed at most once; inserting under a listed name replaces what was
/// listed with it.
#[derive(Debug)]
pub struct InstanceInventory {
    entries: Vec<(String, String)>,
}

impl View for InstanceInventory {
    type V = Map<Seq<char>, Seq<char>>;

    closed spec fn view(&self) -> Map<Seq<char>, Seq<char>> {
        entries_map(self.entries@)
    }
}

impl InstanceInventory {
    #[verifier::type_invariant]
    spec fn well_formed(&self) -> bool {
        names_unique(self.entries@)
    }

    /// An inventory that lists nothing.
    pub fn new() -> (inventory: InstanceInventory)
        ensures
            inventory@ == Map::<Seq<char>, Seq<char>>::empty(),
    {
        let inventory = InstanceInventory { entries: Vec::new() };
        assert(inventory@ =~= Map::<Seq<char>, Seq<char>>::empty());
        inventory
    }

    /// How many names are listed.
    pub fn len(&self) -> (count: usize)
        ensures
            self@.dom().finite(),
            count == self@.len(),
    {
        proof {
            use_type_invariant(self);
            lemma_entries_count(self.entries@);
        }
        self.entries.len()
    }

    /// Whether nothing is listed.
    pub fn is_empty(&self) -> (empty: bool)
        ensures
            empty == (self@ == Map::<Seq<char>, Seq<char>>::empty()),
    {
        proof {
            use_type_invariant(self);
            lemma_entries_count(self.entries@);
            if self.entries@.len() == 0 {
                assert(self@ =~= Map::<Seq<char>, Seq<char>>::empty());
            }
        }
        self.entries.len() == 0
    }

    /// Where `name` is listed, if it is.
    fn find(&self, name: &String) -> (found: Option<usize>)
        ensures
            match found {
                Some(i) => i < self.entries.len() && self.entries[i as int].0@ == name@,
                None => !holds_name(self.entries@, name@),
            },
    {
        let mut i: usize = 0;
        while i < self.entries.len()
            invariant
                i <= self.entries.len(),
                forall|j: int| 0 <= j < i ==> self.entries[j].0@ != name@,
            decreases self.entries.len() - i,
        {
            if self.entries[i].0 == *name {
                return Some(i);
            }
            i += 1;
        }
        None
    }

    /// Lists `id` under `name`. What was listed under `name` before is
    /// replaced.
    pub fn insert(&mut self, name: String, id: String)
        ensures
            final(self)@ == old(self)@.insert(name@, id@),
    {
        proof {
            use_type_invariant(&*self);
        }
        let found = self.find(&name);
        let mut entries: Vec<(String, String)> = Vec::new();
        std::mem::swap(&mut self.entries, &mut entries);
        match found {
            Some(p) => {
                proof {
                    lemma_replace_is_insert(entries@, p as int, name, id);
                }
                entries.set(p, (name, id));
            },
            None => {
                proof {
                    lemma_push_is_insert(entries@, name, id);
                }
                entries.push((name, id));
            },
        }
        std::mem::swap(&mut self.entries, &mut entries);
    }

    /// The identifier listed under `name`, if there is one.
    pub fn get(&self, name: &String) -> (id: Option<&String>)
        ensures
            match id {
                Some(id) => self@.contains_key(name@) && id@ == self@[name@],
                None => !self@.contains_key(name@),
            },
    {
        proof {
            use_type_invariant(self);
        }
        match self.find(name) {
            Some(p) => {
                proof {
                    lemma_position_of(self.entries@, p as int);
                }
                Some(&self.entries[p].1)
            },
            None => None,
        }
    }

    /// Whether an identifier is listed under `name`.
    pub fn contains_key(&self, name: &String) -> (listed: bool)
        ensures
            listed == self@.contains_key(name@),
    {
        self.get(name).is_some()
    }
}

} // verus!
