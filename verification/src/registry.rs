use vstd::prelude::*;

use crate::util::identifier::Identifier;

verus! {

/// What the registry maps an identifier to, given its entries in order.
pub open spec fn entries_map<T>(entries: Seq<(Identifier, T)>) -> Map<(Seq<char>, Seq<char>), T>
    decreases entries.len(),
{
    if entries.len() == 0 {
        Map::empty()
    } else {
        entries_map(entries.drop_last()).insert(entries.last().0@, entries.last().1)
    }
}

/// No identifier occurs twice among the entries.
pub open spec fn distinct_keys<T>(entries: Seq<(Identifier, T)>) -> bool {
    forall|i: int, j: int|
        0 <= i < entries.len() && 0 <= j < entries.len() && i != j ==> entries[i].0@ != entries[j].0@
}

/// A key is in the map of the entries exactly when an entry holds it, and
/// with distinct keys it maps to that entry's data.
pub proof fn lemma_entries_map<T>(entries: Seq<(Identifier, T)>, k: (Seq<char>, Seq<char>))
    requires
        distinct_keys(entries),
    ensures
        entries_map(entries).contains_key(k) <==> exists|i: int|
            0 <= i < entries.len() && #[trigger] entries[i].0@ == k,
        forall|i: int|
            0 <= i < entries.len() && #[trigger] entries[i].0@ == k ==> entries_map(entries)[k]
                == entries[i].1,
    decreases entries.len(),
{
    if entries.len() > 0 {
        let init = entries.drop_last();
        assert(distinct_keys(init));
        lemma_entries_map(init, k);
        let n = entries.len() - 1;
        if entries_map(init).contains_key(k) {
            let i0 = choose|i: int| 0 <= i < init.len() && #[trigger] init[i].0@ == k;
            assert(entries[i0].0@ == k);
        }
        assert forall|i: int| 0 <= i < entries.len() && #[trigger] entries[i].0@ == k implies
            entries_map(entries)[k] == entries[i].1 by {
            if i < n {
                assert(init[i].0@ == k);
                assert(entries[n].0@ != k);
            }
        }
        if exists|i: int| 0 <= i < entries.len() && #[trigger] entries[i].0@ == k {
            let i1 = choose|i: int| 0 <= i < entries.len() && #[trigger] entries[i].0@ == k;
            if i1 < n {
                assert(init[i1].0@ == k);
            }
        }
    }
}

/// Replacing the data of the entry at `i` maps its key to the new data.
proof fn lemma_entries_map_update<T>(entries: Seq<(Identifier, T)>, i: int, e: (Identifier, T))
    requires
        0 <= i < entries.len(),
        e.0@ == entries[i].0@,
        distinct_keys(entries),
    ensures
        entries_map(entries.update(i, e)) == entries_map(entries).insert(e.0@, e.1),
    decreases entries.len(),
{
    let n = entries.len() - 1;
    let upd = entries.update(i, e);
    if i == n {
        assert(upd.drop_last() =~= entries.drop_last());
    } else {
        assert(upd.drop_last() =~= entries.drop_last().update(i, e));
        assert(distinct_keys(entries.drop_last()));
        lemma_entries_map_update(entries.drop_last(), i, e);
        assert(entries[i].0@ == entries.drop_last()[i].0@);
        assert(entries[n].0@ != e.0@);
        assert(entries_map(upd) =~= entries_map(entries).insert(e.0@, e.1));
    }
}

/// Data of one kind (textures, shaders, ...) looked up by identifier.
pub struct Registry<T> {
    entries: Vec<(Identifier, T)>,
}

impl<T> View for Registry<T> {
    type V = Map<(Seq<char>, Seq<char>), T>;

    closed spec fn view(&self) -> Map<(Seq<char>, Seq<char>), T> {
        entries_map(self.entries@)
    }
}

impl<T> Registry<T> {
    /// No identifier is held twice.
    #[verifier::type_invariant]
    spec fn wf(&self) -> bool {
        distinct_keys(self.entries@)
    }

    /// The number of identifiers held.
    pub closed spec fn spec_len(&self) -> nat {
        self.entries@.len()
    }

    /// A registry with nothing in it.
    pub fn new() -> (res: Self)
        ensures
            res@ == Map::<(Seq<char>, Seq<char>), T>::empty(),
    {
        Registry { entries: Vec::new() }
    }

    /// Where `identifier` is held, if it is.
    fn find(&self, identifier: &Identifier) -> (res: Option<usize>)
        ensures
            match res {
                Some(i) => i < self.entries@.len() && self.entries@[i as int].0@ == identifier@,
                None => forall|i: int|
                    0 <= i < self.entries@.len() ==> #[trigger] self.entries@[i].0@ != identifier@,
            },
    {
        let mut i: usize = 0;
        while i < self.entries.len()
            invariant
                i <= self.entries@.len(),
                forall|j: int| 0 <= j < i ==> #[trigger] self.entries@[j].0@ != identifier@,
            decreases self.entries@.len() - i,
        {
            if self.entries[i].0.same_as(identifier) {
                return Some(i);
            }
            i = i + 1;
        }
        None
    }

    /// Maps `identifier` to `data`, replacing what it mapped to before.
    pub fn add(&mut self, identifier: Identifier, data: T)
        ensures
            final(self)@ == old(self)@.insert(identifier@, data),
    {
        proof {
            use_type_invariant(&*self);
        }
        let ghost old_entries = self.entries@;
        match self.find(&identifier) {
            Some(i) => {
                let ghost k = identifier@;
                let ghost e = (identifier, data);
                let mut entries = Vec::new();
                std::mem::swap(&mut entries, &mut self.entries);
                entries.set(i, (identifier, data));
                proof {
                    lemma_entries_map_update(old_entries, i as int, e);
                    assert(entries@ == old_entries.update(i as int, e));
                    assert(distinct_keys(entries@)) by {
                        assert forall|a: int, b: int|
                            0 <= a < entries@.len() && 0 <= b < entries@.len() && a != b implies
                            entries@[a].0@ != entries@[b].0@ by {
                            assert(old_entries[a].0@ == entries@[a].0@);
                            assert(old_entries[b].0@ == entries@[b].0@);
                        }
                    }
                }
                self.entries = entries;
            },
            None => {
                let ghost k = identifier@;
                let mut entries = Vec::new();
                std::mem::swap(&mut entries, &mut self.entries);
                entries.push((identifier, data));
                proof {
                    assert(entries@.drop_last() =~= old_entries);
                    assert(distinct_keys(entries@)) by {
                        assert forall|a: int, b: int|
                            0 <= a < entries@.len() && 0 <= b < entries@.len() && a != b implies
                            entries@[a].0@ != entries@[b].0@ by {
                            if a < old_entries.len() {
                                assert(old_entries[a].0@ == entries@[a].0@);
                            }
                            if b < old_entries.len() {
                                assert(old_entries[b].0@ == entries@[b].0@);
                            }
                        }
                    }
                }
                self.entries = entries;
            },
        }
    }

    /// The data `identifier` maps to, if any.
    pub fn get(&self, identifier: &Identifier) -> (res: Option<&T>)
        ensures
            match res {
                Some(v) => self@.contains_key(identifier@) && *v == self@[identifier@],
                None => !self@.contains_key(identifier@),
            },
    {
        proof {
            use_type_invariant(self);
            lemma_entries_map(self.entries@, identifier@);
        }
        match self.find(identifier) {
            Some(i) => Some(&self.entries[i].1),
            None => None,
        }
    }

    /// The number of identifiers held.
    pub fn len(&self) -> (res: usize)
        ensures
            res == self.spec_len(),
            res == self@.len(),
    {
        proof {
            use_type_invariant(self);
            lemma_distinct_len(self.entries@);
        }
        self.entries.len()
    }
}

/// With distinct keys, the map has one key per entry.
proof fn lemma_distinct_len<T>(entries: Seq<(Identifier, T)>)
    requires
        distinct_keys(entries),
    ensures
        entries_map(entries).dom().finite(),
        entries_map(entries).len() == entries.len(),
    decreases entries.len(),
{
    if entries.len() > 0 {
        let init = entries.drop_last();
        assert(distinct_keys(init));
        lemma_distinct_len(init);
        let k = entries.last().0@;
        lemma_entries_map(init, k);
        if entries_map(init).contains_key(k) {
            let i = choose|i: int| 0 <= i < init.len() && #[trigger] init[i].0@ == k;
            assert(entries[i].0@ == entries[entries.len() - 1].0@);
        }
    }
}

} // verus!

verus! {

/// A read right after adding an identifier gives back what was added, and
/// every other identifier keeps what it mapped to.
pub proof fn law_get_after_add<T>(
    before: Registry<T>,
    after: Registry<T>,
    identifier: Identifier,
    data: T,
    other: Identifier,
)
    requires
        after@ == before@.insert(identifier@, data),
    ensures
        after@.contains_key(identifier@),
        after@[identifier@] == data,
        other@ != identifier@ ==> (after@.contains_key(other@) == before@.contains_key(other@)),
        other@ != identifier@ && before@.contains_key(other@) ==> after@[other@] == before@[other@],
{
}

/// Adding an identifier twice leaves the registry as adding it once with the
/// second data.
pub proof fn law_last_add_wins<T>(
    before: Registry<T>,
    middle: Registry<T>,
    after: Registry<T>,
    identifier: Identifier,
    first: T,
    second: T,
)
    requires
        middle@ == before@.insert(identifier@, first),
        after@ == middle@.insert(identifier@, second),
    ensures
        after@ == before@.insert(identifier@, second),
{
    assert(after@ =~= before@.insert(identifier@, second));
}

/// A new registry holds no identifier.
pub proof fn law_new_is_empty<T>(registry: Registry<T>, identifier: Identifier)
    requires
        registry@ == Map::<(Seq<char>, Seq<char>), T>::empty(),
    ensures
        !registry@.contains_key(identifier@),
{
}

} // verus!
