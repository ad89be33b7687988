//! A map from friendly channel names to Discord channel IDs, kept in the order
//! in which the names were first added, with each name present at most once.
use vstd::prelude::*;

use crate::text::str_eq;

verus! {

/// The map that `entries` describe: each name bound to its ID.
pub open spec fn map_of(entries: Seq<(Seq<char>, Seq<char>)>) -> Map<Seq<char>, Seq<char>>
    decreases entries.len(),
{
    if entries.len() == 0 {
        Map::empty()
    } else {
        map_of(entries.drop_last()).insert(entries.last().0, entries.last().1)
    }
}

/// No name occurs twice among `entries`.
pub open spec fn names_distinct(entries: Seq<(Seq<char>, Seq<char>)>) -> bool {
    forall|i: int, j: int|
        0 <= i < j < entries.len() ==> #[trigger] entries[i].0 != #[trigger] entries[j].0
}

/// The first name among `entries` that is bound to `id`, if any.
pub open spec fn first_name_for(entries: Seq<(Seq<char>, Seq<char>)>, id: Seq<char>) -> Option<
    Seq<char>,
>
    decreases entries.len(),
{
    if entries.len() == 0 {
        None
    } else if entries[0].1 == id {
        Some(entries[0].0)
    } else {
        first_name_for(entries.drop_first(), id)
    }
}

/// The (name, ID) pairs that `v` holds, as character sequences.
pub open spec fn view_entries(v: Seq<(String, String)>) -> Seq<(Seq<char>, Seq<char>)> {
    v.map_values(|e: (String, String)| (e.0@, e.1@))
}

/// Channel names mapped to channel IDs.
#[derive(Debug)]
pub struct ChannelMap {
    entries: Vec<(String, String)>,
}

impl ChannelMap {
    /// The (name, ID) pairs, in order.
    pub closed spec fn entries(&self) -> Seq<(Seq<char>, Seq<char>)> {
        view_entries(self.entries@)
    }

    #[verifier::type_invariant]
    closed spec fn inv(&self) -> bool {
        names_distinct(self.entries())
    }
}

impl View for ChannelMap {
    type V = Map<Seq<char>, Seq<char>>;

    open spec fn view(&self) -> Map<Seq<char>, Seq<char>> {
        map_of(self.entries())
    }
}

/// With distinct names, the map holds exactly the listed names, each bound to its listed ID.
pub proof fn lemma_map_of(entries: Seq<(Seq<char>, Seq<char>)>)
    requires
        names_distinct(entries),
    ensures
        forall|k: Seq<char>|
            #[trigger] map_of(entries).contains_key(k) <==> exists|i: int|
                0 <= i < entries.len() && entries[i].0 == k,
        forall|i: int| 0 <= i < entries.len() ==> #[trigger] map_of(entries)[entries[i].0] == entries[i].1,
    decreases entries.len(),
{
    if entries.len() > 0 {
        let init = entries.drop_last();
        assert(names_distinct(init));
        lemma_map_of(init);
        assert forall|k: Seq<char>|
            #[trigger] map_of(entries).contains_key(k) implies exists|i: int|
                0 <= i < entries.len() && entries[i].0 == k by {
            if k != entries.last().0 {
                assert(map_of(init).contains_key(k));
                let i = choose|i: int| 0 <= i < init.len() && init[i].0 == k;
                assert(init[i] == entries[i]);
                assert(entries[i].0 == k);
            } else {
                assert(entries[entries.len() - 1].0 == k);
            }
        }
        assert forall|k: Seq<char>|
            (exists|i: int| 0 <= i < entries.len() && entries[i].0 == k) implies #[trigger] map_of(
            entries,
        ).contains_key(k) by {
            let i = choose|i: int| 0 <= i < entries.len() && entries[i].0 == k;
            if i < entries.len() - 1 {
                assert(init[i] == entries[i]);
                assert(init[i].0 == k);
                assert(map_of(init).contains_key(k));
            }
        }
        assert forall|i: int| 0 <= i < entries.len() implies #[trigger] map_of(entries)[entries[i].0]
            == entries[i].1 by {
            if i < entries.len() - 1 {
                assert(init[i] == entries[i]);
                assert(entries[i].0 != entries[entries.len() - 1].0);
                assert(map_of(init).contains_key(init[i].0));
                assert(map_of(init)[init[i].0] == init[i].1);
            }
        }
    }
}

/// The first name bound to `id` is bound to it in the map, and there is none
/// exactly when no name is.
pub proof fn lemma_first_name_for(entries: Seq<(Seq<char>, Seq<char>)>, id: Seq<char>)
    ensures
        first_name_for(entries, id) matches Some(n) ==> exists|i: int|
            0 <= i < entries.len() && entries[i] == (n, id) && forall|j: int|
                0 <= j < i ==> #[trigger] entries[j].1 != id,
        first_name_for(entries, id) is None <==> forall|j: int|
            0 <= j < entries.len() ==> #[trigger] entries[j].1 != id,
    decreases entries.len(),
{
    if entries.len() > 0 {
        let rest = entries.drop_first();
        lemma_first_name_for(rest, id);
        if entries[0].1 == id {
            assert(entries[0] == (entries[0].0, id));
        } else {
            if let Some(n) = first_name_for(rest, id) {
                let i = choose|i: int|
                    0 <= i < rest.len() && rest[i] == (n, id) && forall|j: int|
                        0 <= j < i ==> #[trigger] rest[j].1 != id;
                assert(entries[i + 1] == (n, id));
                assert forall|j: int| 0 <= j < i + 1 implies #[trigger] entries[j].1 != id by {
                    if j > 0 {
                        assert(entries[j] == rest[j - 1]);
                    }
                }
            } else {
                assert forall|j: int| 0 <= j < entries.len() implies #[trigger] entries[j].1
                    != id by {
                    if j > 0 {
                        assert(entries[j] == rest[j - 1]);
                    }
                }
            }
            if forall|j: int| 0 <= j < entries.len() ==> #[trigger] entries[j].1 != id {
                assert forall|j: int| 0 <= j < rest.len() implies #[trigger] rest[j].1 != id by {
                    assert(rest[j] == entries[j + 1]);
                }
            }
        }
    }
}

/// With distinct names, the names listed in order hold no duplicate, and as a
/// set they are the keys of the map.
pub proof fn lemma_names_are_keys(entries: Seq<(Seq<char>, Seq<char>)>)
    requires
        names_distinct(entries),
    ensures
        entries.map_values(|e: (Seq<char>, Seq<char>)| e.0).no_duplicates(),
        entries.map_values(|e: (Seq<char>, Seq<char>)| e.0).to_set() == map_of(entries).dom(),
{
    let names = entries.map_values(|e: (Seq<char>, Seq<char>)| e.0);
    lemma_map_of(entries);
    assert forall|i: int, j: int| 0 <= i < names.len() && 0 <= j < names.len() && i != j implies names[i]
        != names[j] by {
        if i < j {
            assert(entries[i].0 != entries[j].0);
        } else {
            assert(entries[j].0 != entries[i].0);
        }
    }
    assert forall|k: Seq<char>| names.to_set().contains(k) <==> map_of(entries).dom().contains(k) by {
        if names.to_set().contains(k) {
            assert(names.contains(k));
            let i = choose|i: int| 0 <= i < names.len() && names[i] == k;
            assert(entries[i].0 == k);
            assert(map_of(entries).contains_key(k));
        }
        if map_of(entries).dom().contains(k) {
            assert(map_of(entries).contains_key(k));
            let i = choose|i: int| 0 <= i < entries.len() && entries[i].0 == k;
            assert(names[i] == k);
            assert(names.contains(k));
        }
    }
    assert(names.to_set() =~= map_of(entries).dom());
}

impl ChannelMap {
    /// An empty map.
    pub fn new() -> (m: Self)
        ensures
            m.entries() == Seq::<(Seq<char>, Seq<char>)>::empty(),
            m@ == Map::<Seq<char>, Seq<char>>::empty(),
    {
        let m = ChannelMap { entries: Vec::new() };
        assert(m.entries() =~= Seq::<(Seq<char>, Seq<char>)>::empty());
        m
    }

    /// The number of names.
    pub fn len(&self) -> (n: usize)
        ensures
            n == self.entries().len(),
    {
        self.entries.len()
    }

    /// The position of `name` among the entries, if it is there.
    fn position_of(&self, name: &str) -> (pos: Option<usize>)
        ensures
            pos matches Some(i) ==> i < self.entries().len() && self.entries()[i as int].0
                == name@,
            pos is None ==> forall|i: int|
                0 <= i < self.entries().len() ==> #[trigger] self.entries()[i].0 != name@,
    {
        let mut i: usize = 0;
        while i < self.entries.len()
            invariant
                0 <= i <= self.entries@.len(),
                forall|j: int| 0 <= j < i ==> #[trigger] self.entries()[j].0 != name@,
            decreases self.entries@.len() - i,
        {
            let e = &self.entries[i];
            assert(self.entries()[i as int] == (e.0@, e.1@));
            if str_eq(e.0.as_str(), name) {
                return Some(i);
            }
            i += 1;
        }
        None
    }

    /// Binds `name` to `id`, replacing the ID of a name already present (which
    /// keeps its place) or adding the name at the end. Returns the replaced ID.
    pub fn insert(&mut self, name: String, id: String) -> (previous: Option<String>)
        ensures
            final(self)@ == old(self)@.insert(name@, id@),
            previous is Some <==> old(self)@.contains_key(name@),
            previous matches Some(p) ==> p@ == old(self)@[name@],
            old(self)@.contains_key(name@) ==> exists|i: int|
                0 <= i < old(self).entries().len() && old(self).entries()[i].0 == name@
                    && final(self).entries() == old(self).entries().update(i, (name@, id@)),
            !old(self)@.contains_key(name@) ==> final(self).entries() == old(self).entries().push(
                (name@, id@),
            ),
    {
        proof {
            use_type_invariant(&*self);
            lemma_map_of(self.entries());
        }
        let ghost before = self.entries();
        match self.position_of(name.as_str()) {
            Some(i) => {
                let previous = self.entries[i].1.clone();
                let ghost n = name@;
                let ghost v = id@;
                let mut entries: Vec<(String, String)> = Vec::new();
                std::mem::swap(&mut entries, &mut self.entries);
                entries.set(i, (name, id));
                proof {
                    let after = view_entries(entries@);
                    assert(after =~= before.update(i as int, (n, v)));
                    assert forall|a: int, b: int|
                        0 <= a < b < after.len() implies #[trigger] after[a].0
                        != #[trigger] after[b].0 by {
                        assert(before[a].0 != before[b].0);
                    }
                }
                self.entries = entries;
                proof {
                    let after = self.entries();
                    assert(before[i as int].0 == n);
                    lemma_map_of(after);
                    assert(map_of(after) =~= map_of(before).insert(n, v)) by {
                        assert forall|k: Seq<char>| #[trigger]
                            map_of(after).contains_key(k) <==> map_of(before).insert(
                                n,
                                v,
                            ).contains_key(k) by {
                            if map_of(after).contains_key(k) {
                                let j = choose|j: int| 0 <= j < after.len() && after[j].0 == k;
                                if j != i {
                                    assert(before[j].0 == k);
                                }
                            }
                            if map_of(before).contains_key(k) {
                                let j = choose|j: int| 0 <= j < before.len() && before[j].0 == k;
                                assert(after[j].0 == k);
                            }
                        }
                        assert forall|k: Seq<char>| #[trigger]
                            map_of(after).contains_key(k) implies map_of(after)[k] == map_of(
                            before,
                        ).insert(n, v)[k] by {
                            let j = choose|j: int| 0 <= j < after.len() && after[j].0 == k;
                            if j != i {
                                assert(before[j] == after[j]);
                            }
                        }
                    }
                }
                Some(previous)
            },
            None => {
                let ghost n = name@;
                let ghost v = id@;
                let mut entries: Vec<(String, String)> = Vec::new();
                std::mem::swap(&mut entries, &mut self.entries);
                entries.push((name, id));
                proof {
                    let after = view_entries(entries@);
                    assert(after =~= before.push((n, v)));
                    assert(after.drop_last() =~= before);
                    assert forall|a: int, b: int|
                        0 <= a < b < after.len() implies #[trigger] after[a].0
                        != #[trigger] after[b].0 by {
                        if b < before.len() {
                            assert(before[a].0 != before[b].0);
                        } else {
                            assert(after[a] == before[a]);
                        }
                    }
                }
                self.entries = entries;
                None
            },
        }
    }

    /// The ID bound to `name`, if any.
    pub fn get(&self, name: &str) -> (id: Option<&str>)
        ensures
            id is Some <==> self@.contains_key(name@),
            id matches Some(v) ==> v@ == self@[name@],
            opt_str_view(id) == lookup(self@, name@),
    {
        proof {
            use_type_invariant(self);
            lemma_map_of(self.entries());
        }
        match self.position_of(name) {
            Some(i) => {
                let e = &self.entries[i];
                assert(self.entries()[i as int] == (e.0@, e.1@));
                Some(e.1.as_str())
            },
            None => None,
        }
    }

    /// The first name, in order, that is bound to `id`, if any.
    pub fn name_for(&self, id: &str) -> (name: Option<&str>)
        ensures
            name matches Some(n) ==> first_name_for(self.entries(), id@) == Some(n@),
            name is None ==> first_name_for(self.entries(), id@) is None,
            name matches Some(n) ==> self@.contains_key(n@) && self@[n@] == id@,
            name is None <==> forall|k: Seq<char>|
                #[trigger] self@.contains_key(k) ==> self@[k] != id@,
    {
        proof {
            use_type_invariant(self);
            lemma_map_of(self.entries());
            lemma_first_name_for(self.entries(), id@);
            if first_name_for(self.entries(), id@) is None {
                assert forall|k: Seq<char>| #[trigger] self@.contains_key(k) implies self@[k]
                    != id@ by {
                    let i = choose|i: int| 0 <= i < self.entries().len() && self.entries()[i].0 == k;
                    assert(self.entries()[i].1 != id@);
                }
            } else {
                let n = first_name_for(self.entries(), id@)->0;
                let i = choose|i: int|
                    0 <= i < self.entries().len() && self.entries()[i] == (n, id@) && forall|j: int|
                        0 <= j < i ==> #[trigger] self.entries()[j].1 != id@;
                assert(self@.contains_key(n));
                assert(self@[self.entries()[i].0] == self.entries()[i].1);
            }
        }
        let mut i: usize = 0;
        assert(self.entries().subrange(0, self.entries().len() as int) =~= self.entries());
        while i < self.entries.len()
            invariant
                0 <= i <= self.entries@.len(),
                first_name_for(self.entries(), id@) matches Some(n) ==> self@.contains_key(n)
                    && self@[n] == id@,
                first_name_for(self.entries(), id@) is None <==> forall|k: Seq<char>|
                    #[trigger] self@.contains_key(k) ==> self@[k] != id@,
                first_name_for(self.entries(), id@) == first_name_for(
                    self.entries().subrange(i as int, self.entries().len() as int),
                    id@,
                ),
            decreases self.entries@.len() - i,
        {
            let e = &self.entries[i];
            let ghost rest = self.entries().subrange(i as int, self.entries().len() as int);
            assert(rest[0] == (e.0@, e.1@));
            if str_eq(e.1.as_str(), id) {
                return Some(e.0.as_str());
            }
            assert(rest.drop_first() =~= self.entries().subrange(
                i + 1,
                self.entries().len() as int,
            ));
            i += 1;
        }
        None
    }

    /// The names, in order.
    pub fn names(&self) -> (names: Vec<&str>)
        ensures
            names@.map_values(|n: &str| n@) == self.entries().map_values(
                |e: (Seq<char>, Seq<char>)| e.0,
            ),
            names@.map_values(|n: &str| n@).no_duplicates(),
            names@.map_values(|n: &str| n@).to_set() == self@.dom(),
    {
        proof {
            use_type_invariant(self);
            lemma_names_are_keys(self.entries());
        }
        let mut names: Vec<&str> = Vec::new();
        let mut i: usize = 0;
        while i < self.entries.len()
            invariant
                0 <= i <= self.entries@.len(),
                names@.map_values(|n: &str| n@) == self.entries().take(i as int).map_values(
                    |e: (Seq<char>, Seq<char>)| e.0,
                ),
            decreases self.entries@.len() - i,
        {
            let e = &self.entries[i];
            assert(self.entries()[i as int] == (e.0@, e.1@));
            let ghost old_names = names@;
            names.push(e.0.as_str());
            assert(self.entries().take(i + 1) =~= self.entries().take(i as int).push(
                self.entries()[i as int],
            ));
            assert(names@.map_values(|n: &str| n@) =~= old_names.map_values(|n: &str| n@).push(
                e.0@,
            ));
            assert(names@.map_values(|n: &str| n@) =~= self.entries().take(i + 1).map_values(
                |e: (Seq<char>, Seq<char>)| e.0,
            ));
            i += 1;
        }
        assert(self.entries().take(i as int) =~= self.entries());
        names
    }
}

impl Clone for ChannelMap {
    fn clone(&self) -> (copy: Self)
        ensures
            copy.entries() == self.entries(),
    {
        proof {
            use_type_invariant(self);
        }
        let mut entries: Vec<(String, String)> = Vec::new();
        let mut i: usize = 0;
        while i < self.entries.len()
            invariant
                0 <= i <= self.entries@.len(),
                entries@.map_values(|e: (String, String)| (e.0@, e.1@)) == self.entries().take(
                    i as int,
                ),
            decreases self.entries@.len() - i,
        {
            let e = &self.entries[i];
            assert(self.entries()[i as int] == (e.0@, e.1@));
            let ghost old_entries = entries@;
            entries.push((e.0.clone(), e.1.clone()));
            assert(self.entries().take(i + 1) =~= self.entries().take(i as int).push(
                self.entries()[i as int],
            ));
            assert(entries@.map_values(|e: (String, String)| (e.0@, e.1@)) =~= old_entries.map_values(
                |e: (String, String)| (e.0@, e.1@),
            ).push(self.entries()[i as int]));
            assert(entries@.map_values(|e: (String, String)| (e.0@, e.1@)) =~= self.entries().take(
                i + 1,
            ));
            i += 1;
        }
        assert(self.entries().take(i as int) =~= self.entries());
        ChannelMap { entries }
    }
}

/// What `get` answers for `name` in a map with the view `m`.
pub open spec fn lookup(m: Map<Seq<char>, Seq<char>>, name: Seq<char>) -> Option<Seq<char>> {
    if m.contains_key(name) {
        Some(m[name])
    } else {
        None
    }
}

/// The characters of an optional string slice.
pub open spec fn opt_str_view(s: Option<&str>) -> Option<Seq<char>> {
    match s {
        Some(v) => Some(v@),
        None => None,
    }
}

/// Reading a name right after `insert` bound it gives the bound ID, and
/// `insert` leaves what `get` answers for every other name as it was.
pub proof fn law_get_after_insert(
    before: ChannelMap,
    after: ChannelMap,
    name: Seq<char>,
    id: Seq<char>,
    other: Seq<char>,
)
    requires
        after@ == before@.insert(name, id),
    ensures
        lookup(after@, name) == Some(id),
        other != name ==> lookup(after@, other) == lookup(before@, other),
{
}

} // verus!
