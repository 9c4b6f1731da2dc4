//! A table from names to values in which no name occurs twice.

use vstd::prelude::*;

use crate::order::{ascending, lemma_sort_of_distinct, sorted_names};
use crate::text::same_text;

verus! {

/// A name and what it is bound to.
#[derive(Debug)]
struct Entry<V> {
    name: String,
    value: V,
}

/// A finite map from names to values. Its mathematical value is a `Map` from
/// the names' texts to the values' views.
#[derive(Debug)]
pub struct Table<V> {
    entries: Vec<Entry<V>>,
}

/// No two of the entries have the same name.
spec fn distinct<V>(entries: Seq<Entry<V>>) -> bool {
    forall|i: int, j: int| 0 <= i < j < entries.len() ==> entries[i].name@ != entries[j].name@
}

/// Whether one of the entries has the name `name`.
spec fn holds<V>(entries: Seq<Entry<V>>, name: Seq<char>) -> bool {
    exists|i: int| 0 <= i < entries.len() && #[trigger] entries[i].name@ == name
}

/// The place of an entry with the name `name`.
spec fn place<V>(entries: Seq<Entry<V>>, name: Seq<char>) -> int {
    choose|i: int| 0 <= i < entries.len() && #[trigger] entries[i].name@ == name
}

/// The map that the entries stand for.
spec fn as_map<V: View>(entries: Seq<Entry<V>>) -> Map<Seq<char>, V::V> {
    Map::new(
        |name: Seq<char>| holds(entries, name),
        |name: Seq<char>| entries[place(entries, name)].value@,
    )
}

/// The names of the entries, in their order.
spec fn names_of<V>(entries: Seq<Entry<V>>) -> Seq<Seq<char>> {
    Seq::new(entries.len(), |i: int| entries[i].name@)
}

/// The texts of names paired with the views of values.
pub open spec fn pairs_view<V: View>(pairs: Seq<(String, V)>) -> Seq<(Seq<char>, V::V)> {
    Seq::new(pairs.len(), |i: int| (pairs[i].0@, pairs[i].1@))
}

/// The map that binds each name of `pairs`, one pair after the other, to the
/// value beside it. Of two pairs with one name the later one counts.
pub open spec fn bindings<T>(pairs: Seq<(Seq<char>, T)>) -> Map<Seq<char>, T>
    decreases pairs.len(),
{
    if pairs.len() == 0 {
        Map::empty()
    } else {
        bindings(pairs.drop_last()).insert(pairs.last().0, pairs.last().1)
    }
}

/// The entries as pairs of a name and a value.
spec fn pairs_of<V: View>(entries: Seq<Entry<V>>) -> Seq<(Seq<char>, V::V)> {
    Seq::new(entries.len(), |i: int| (entries[i].name@, entries[i].value@))
}

/// With distinct names, each entry is what the map holds for its name.
proof fn lemma_entry_in_map<V: View>(entries: Seq<Entry<V>>, i: int)
    requires
        distinct(entries),
        0 <= i < entries.len(),
    ensures
        as_map(entries).contains_key(entries[i].name@),
        as_map(entries)[entries[i].name@] == entries[i].value@,
{
    assert(holds(entries, entries[i].name@));
    assert(place(entries, entries[i].name@) == i);
}

/// The names of the entries are the domain of the map, each listed once.
proof fn lemma_names_of<V: View>(entries: Seq<Entry<V>>)
    requires
        distinct(entries),
    ensures
        names_of(entries).no_duplicates(),
        names_of(entries).to_set() == as_map(entries).dom(),
{
    let names = names_of(entries);
    assert forall|name: Seq<char>| names.to_set().contains(name) <==> holds(entries, name) by {
        if names.to_set().contains(name) {
            let i = choose|i: int| 0 <= i < names.len() && names[i] == name;
            assert(entries[i].name@ == name);
        }
        if holds(entries, name) {
            assert(names[place(entries, name)] == name);
        }
    }
}

/// Appending an entry with a new name adds one binding to the map.
proof fn lemma_push<V: View>(entries: Seq<Entry<V>>, entry: Entry<V>)
    requires
        distinct(entries),
        !holds(entries, entry.name@),
    ensures
        distinct(entries.push(entry)),
        as_map(entries.push(entry)) == as_map(entries).insert(entry.name@, entry.value@),
{
    let grown = entries.push(entry);
    let target = as_map(entries).insert(entry.name@, entry.value@);
    assert(distinct(grown));
    assert forall|name: Seq<char>| holds(grown, name) <==> target.dom().contains(name) by {
        if holds(entries, name) {
            assert(grown[place(entries, name)].name@ == name);
        }
        if name == entry.name@ {
            assert(grown[entries.len() as int].name@ == name);
        }
    }
    assert forall|name: Seq<char>| holds(grown, name) implies as_map(grown)[name]
        == target[name] by {
        let i = place(grown, name);
        lemma_entry_in_map(grown, i);
        if i < entries.len() {
            lemma_entry_in_map(entries, i);
        }
    }
}

/// Taking an entry out removes its binding from the map.
proof fn lemma_remove<V: View>(entries: Seq<Entry<V>>, at: int)
    requires
        distinct(entries),
        0 <= at < entries.len(),
    ensures
        distinct(entries.remove(at)),
        as_map(entries.remove(at)) == as_map(entries).remove(entries[at].name@),
{
    let rest = entries.remove(at);
    let target = as_map(entries).remove(entries[at].name@);
    // The place in the whole of the entry at a place in the rest.
    let whole = |i: int| if i < at { i } else { i + 1 };
    assert forall|i: int, j: int| 0 <= i < j < rest.len() implies rest[i].name@
        != rest[j].name@ by {
        assert(entries[whole(i)].name@ != entries[whole(j)].name@);
    }
    assert forall|name: Seq<char>| holds(rest, name) <==> target.dom().contains(name) by {
        if holds(rest, name) {
            assert(entries[whole(place(rest, name))].name@ == name);
        }
        if holds(entries, name) && name != entries[at].name@ {
            let x = place(entries, name);
            assert(rest[if x < at { x } else { x - 1 }].name@ == name);
        }
    }
    assert forall|name: Seq<char>| holds(rest, name) implies as_map(rest)[name]
        == target[name] by {
        let i = place(rest, name);
        lemma_entry_in_map(rest, i);
        lemma_entry_in_map(entries, whole(i));
    }
}

/// With distinct names, binding the entries one after the other gives the map
/// that they stand for.
proof fn lemma_bindings_of_entries<V: View>(entries: Seq<Entry<V>>)
    requires
        distinct(entries),
    ensures
        bindings(pairs_of(entries)) == as_map(entries),
    decreases entries.len(),
{
    if entries.len() > 0 {
        let front = entries.drop_last();
        let last = entries.last();
        assert(!holds(front, last.name@)) by {
            if holds(front, last.name@) {
                let i = place(front, last.name@);
                assert(entries[i].name@ != entries[entries.len() - 1].name@);
            }
        }
        lemma_bindings_of_entries(front);
        lemma_push(front, last);
        assert(front.push(last) =~= entries);
        assert(pairs_of(entries).drop_last() =~= pairs_of(front));
    }
}

impl<V: View> View for Table<V> {
    type V = Map<Seq<char>, V::V>;

    closed spec fn view(&self) -> Map<Seq<char>, V::V> {
        as_map(self.entries@)
    }
}

impl<V> Table<V> {
    #[verifier::type_invariant]
    spec fn well_formed(&self) -> bool {
        distinct(self.entries@)
    }
}

impl<V: View> Table<V> {
    /// A table without bindings.
    pub fn new() -> (r: Self)
        ensures
            r@ == Map::<Seq<char>, V::V>::empty(),
    {
        Table { entries: Vec::new() }
    }

    /// The table that binds each name of `entries`, one pair after the
    /// other, to the value beside it.
    pub fn from_entries(entries: Vec<(String, V)>) -> (r: Self)
        ensures
            r@ == bindings(pairs_view(entries@)),
    {
        let ghost pairs = pairs_view(entries@);
        let mut table = Table::new();
        for pair in it: entries
            invariant
                it.seq() == entries@,
                pairs == pairs_view(entries@),
                table@ == bindings(pairs.take(it.index() as int)),
        {
            let ghost i: int = it.index() as int;
            assert(pairs.take(i + 1).drop_last() =~= pairs.take(i));
            let _ = table.insert(pair.0, pair.1);
        }
        assert(pairs.take(entries@.len() as int) =~= pairs);
        table
    }

    /// The bindings as pairs of a name and a value, each name once, in no
    /// order that callers may rely on.
    pub fn into_entries(self) -> (r: Vec<(String, V)>)
        ensures
            forall|i: int, j: int| 0 <= i < j < r@.len() ==> r@[i].0@ != r@[j].0@,
            bindings(pairs_view(r@)) == self@,
    {
        proof {
            use_type_invariant(&self);
            lemma_bindings_of_entries(self.entries@);
        }
        let Table { entries } = self;
        let mut pairs: Vec<(String, V)> = Vec::new();
        for entry in it: entries
            invariant
                it.seq() == entries@,
                pairs@.len() == it.index(),
                forall|i: int|
                    0 <= i < pairs@.len() ==> pairs@[i].0@ == entries@[i].name@ && pairs@[i].1@
                        == entries@[i].value@,
        {
            pairs.push((entry.name, entry.value));
        }
        assert(pairs_view(pairs@) =~= pairs_of(entries@));
        pairs
    }

    /// The place of the entry named `name`, if there is one.
    fn find(&self, name: &str) -> (r: Option<usize>)
        ensures
            r matches Some(i) ==> i < self.entries@.len() && self.entries@[i as int].name@ == name@,
            r is None ==> !holds(self.entries@, name@),
    {
        let mut i: usize = 0;
        while i < self.entries.len()
            invariant
                i <= self.entries@.len(),
                forall|j: int| 0 <= j < i ==> self.entries@[j].name@ != name@,
            decreases self.entries@.len() - i,
        {
            if same_text(self.entries[i].name.as_str(), name) {
                return Some(i);
            }
            i += 1;
        }
        None
    }

    /// Whether `name` is bound.
    pub fn contains_key(&self, name: &str) -> (r: bool)
        ensures
            r == self@.contains_key(name@),
    {
        self.find(name).is_some()
    }

    /// What `name` is bound to.
    pub fn get(&self, name: &str) -> (r: Option<&V>)
        ensures
            r is Some <==> self@.contains_key(name@),
            r matches Some(value) ==> value@ == self@[name@],
    {
        match self.find(name) {
            Some(i) => {
                proof {
                    use_type_invariant(self);
                    lemma_entry_in_map(self.entries@, i as int);
                }
                Some(&self.entries[i].value)
            },
            None => None,
        }
    }

    /// Binds `name` to `value` and returns what it was bound to before.
    pub fn insert(&mut self, name: String, value: V) -> (r: Option<V>)
        ensures
            final(self)@ == old(self)@.insert(name@, value@),
            r is Some <==> old(self)@.contains_key(name@),
            r matches Some(before) ==> before@ == old(self)@[name@],
    {
        let before = self.remove(name.as_str());
        proof {
            use_type_invariant(&*self);
        }
        let ghost reduced = self.entries@;
        let entry = Entry { name, value };
        let mut entries = Vec::new();
        std::mem::swap(&mut entries, &mut self.entries);
        entries.push(entry);
        proof {
            assert(!as_map(reduced).dom().contains(name@));
            lemma_push(reduced, entry);
            assert(old(self)@.remove(name@).insert(name@, value@) =~= old(self)@.insert(
                name@,
                value@,
            ));
        }
        self.entries = entries;
        before
    }

    /// Unbinds `name` and returns what it was bound to.
    pub fn remove(&mut self, name: &str) -> (r: Option<V>)
        ensures
            final(self)@ == old(self)@.remove(name@),
            r is Some <==> old(self)@.contains_key(name@),
            r matches Some(before) ==> before@ == old(self)@[name@],
            r is None ==> final(self)@ == old(self)@,
    {
        proof {
            use_type_invariant(&*self);
        }
        match self.find(name) {
            Some(i) => {
                let mut entries = Vec::new();
                std::mem::swap(&mut entries, &mut self.entries);
                proof {
                    lemma_entry_in_map(entries@, i as int);
                    lemma_remove(entries@, i as int);
                }
                let entry = entries.remove(i);
                self.entries = entries;
                Some(entry.value)
            },
            None => None,
        }
    }

    /// The bound names, each once, in no order that callers may rely on.
    pub fn names(&self) -> (r: Vec<String>)
        ensures
            r.deep_view().no_duplicates(),
            r.deep_view().to_set() == self@.dom(),
    {
        let mut names: Vec<String> = Vec::new();
        let mut i: usize = 0;
        while i < self.entries.len()
            invariant
                i <= self.entries@.len(),
                names@.len() == i,
                forall|j: int| 0 <= j < i ==> names@[j]@ == self.entries@[j].name@,
            decreases self.entries@.len() - i,
        {
            names.push(self.entries[i].name.clone());
            i += 1;
        }
        proof {
            use_type_invariant(self);
            lemma_names_of(self.entries@);
            assert(names.deep_view() =~= names_of(self.entries@));
        }
        names
    }

    /// The bound names in ascending order.
    pub fn sorted_names(&self) -> (r: Vec<String>)
        ensures
            r.deep_view() == sorted_names(self@.dom()),
    {
        let names = self.names();
        proof {
            lemma_sort_of_distinct(names.deep_view(), self@.dom());
        }
        ascending(names)
    }
}

/// A table's domain is finite.
pub proof fn lemma_table_finite<V: View>(table: Table<V>)
    ensures
        table@.dom().finite(),
{
    let names = names_of(table.entries@);
    assert forall|name: Seq<char>| table@.dom().contains(name) implies names.to_set().contains(
        name,
    ) by {
        let i = place(table.entries@, name);
        assert(names[i] == name);
    }
    vstd::seq_lib::seq_to_set_is_finite(names);
    vstd::set_lib::lemma_len_subset(table@.dom(), names.to_set());
}

} // verus!
