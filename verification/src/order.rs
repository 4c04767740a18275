//! The order of texts, and collections kept in it.

use crate::text::chars_of;
use vstd::prelude::*;

verus! {

/// Whether a text comes before another: at the first place where they differ it has the
/// smaller character, or it ends there.
pub open spec fn precedes(a: Seq<char>, b: Seq<char>) -> bool
    decreases a.len(),
{
    if b.len() == 0 {
        false
    } else if a.len() == 0 {
        true
    } else if a[0] != b[0] {
        a[0] < b[0]
    } else {
        precedes(a.skip(1), b.skip(1))
    }
}

/// Whether each text comes before all that follow it.
pub open spec fn increasing(names: Seq<Seq<char>>) -> bool {
    forall|i: int, j: int| 0 <= i < j < names.len() ==> precedes(#[trigger] names[i], #[trigger] names[j])
}

/// Whether no text comes before one that stands in front of it.
pub open spec fn ordered(names: Seq<Seq<char>>) -> bool {
    forall|i: int, j: int|
        0 <= i < j < names.len() ==> !precedes(#[trigger] names[j], #[trigger] names[i])
}

/// No text comes before itself.
pub proof fn precedes_is_strict(a: Seq<char>)
    ensures
        !precedes(a, a),
    decreases a.len(),
{
    if a.len() > 0 {
        precedes_is_strict(a.skip(1));
    }
}

/// What comes before a text comes before all that the text comes before.
pub proof fn precedes_is_transitive(a: Seq<char>, b: Seq<char>, c: Seq<char>)
    requires
        precedes(a, b),
        precedes(b, c),
    ensures
        precedes(a, c),
    decreases a.len(),
{
    if a.len() > 0 && a[0] == b[0] && b[0] == c[0] {
        precedes_is_transitive(a.skip(1), b.skip(1), c.skip(1));
    }
}

/// Of two different texts one comes before the other.
pub proof fn precedes_is_total(a: Seq<char>, b: Seq<char>)
    ensures
        a == b || precedes(a, b) || precedes(b, a),
    decreases a.len(),
{
    if a.len() > 0 && b.len() > 0 && a[0] == b[0] {
        precedes_is_total(a.skip(1), b.skip(1));
        if a.skip(1) == b.skip(1) {
            assert(a == seq![a[0]] + a.skip(1));
            assert(b == seq![b[0]] + b.skip(1));
        }
    } else if a.len() == 0 && b.len() == 0 {
        assert(a == b);
    }
}

/// Of two texts not both come before the other.
pub proof fn precedes_is_asymmetric(a: Seq<char>, b: Seq<char>)
    requires
        precedes(a, b),
    ensures
        !precedes(b, a),
        a != b,
{
    if precedes(b, a) {
        precedes_is_transitive(a, b, a);
    }
    precedes_is_strict(a);
}

/// Two rising lists with the same texts in them are the same list.
pub proof fn increasing_is_unique(a: Seq<Seq<char>>, b: Seq<Seq<char>>)
    requires
        increasing(a),
        increasing(b),
        a.to_set() == b.to_set(),
    ensures
        a == b,
    decreases a.len(),
{
    if a.len() == 0 {
        if b.len() > 0 {
            assert(b.to_set().contains(b[0]));
            assert(a.to_set().contains(b[0]));
        }
        assert(a == b);
    } else {
        assert(a.to_set().contains(a.last()));
        assert(b.contains(a.last()));
        let j = b.index_of(a.last());
        assert(b.to_set().contains(b.last()));
        assert(a.contains(b.last()));
        let i = a.index_of(b.last());
        if i < a.len() - 1 {
            assert(precedes(a[i], a[a.len() - 1]));
            if j < b.len() - 1 {
                assert(precedes(b[j], b[b.len() - 1]));
            }
            precedes_is_asymmetric(b.last(), a.last());
        }
        assert(a.last() == b.last());
        let x = a.drop_last();
        let y = b.drop_last();
        assert forall|name: Seq<char>| x.contains(name) == y.contains(name) by {
            if x.contains(name) {
                let k = x.index_of(name);
                assert(a[k] == name);
                assert(precedes(a[k], a[a.len() - 1]));
                precedes_is_asymmetric(name, a.last());
                assert(a.to_set().contains(name));
                assert(b.contains(name));
                let l = b.index_of(name);
                assert(y[l] == name);
            }
            if y.contains(name) {
                let k = y.index_of(name);
                assert(b[k] == name);
                assert(precedes(b[k], b[b.len() - 1]));
                precedes_is_asymmetric(name, b.last());
                assert(b.to_set().contains(name));
                assert(a.contains(name));
                let l = a.index_of(name);
                assert(x[l] == name);
            }
        }
        assert(x.to_set() =~= y.to_set());
        increasing_is_unique(x, y);
        assert(a == x.push(a.last()));
        assert(b == y.push(b.last()));
    }
}

/// Whether a text comes before another.
pub fn comes_before(a: &str, b: &str) -> (yes: bool)
    ensures
        yes == precedes(a@, b@),
{
    let left = chars_of(a);
    let right = chars_of(b);
    let mut i: usize = 0;
    assert(a@.skip(0) == a@);
    assert(b@.skip(0) == b@);
    while i < left.len() && i < right.len()
        invariant
            left@ == a@,
            right@ == b@,
            i <= left.len(),
            i <= right.len(),
            precedes(a@, b@) == precedes(a@.skip(i as int), b@.skip(i as int)),
        decreases left.len() - i,
    {
        if left[i] != right[i] {
            return left[i] < right[i];
        }
        assert(a@.skip(i as int).skip(1) == a@.skip(i as int + 1));
        assert(b@.skip(i as int).skip(1) == b@.skip(i as int + 1));
        i += 1;
    }
    i < right.len()
}

/// Texts in order, each as often as it came.
pub fn sort(names: Vec<String>) -> (sorted: Vec<String>)
    ensures
        ordered(sorted.deep_view()),
        sorted.deep_view().to_multiset() == names.deep_view().to_multiset(),
{
    broadcast use vstd::seq_lib::group_to_multiset_ensures;

    let mut sorted: Vec<String> = Vec::new();
    let mut i: usize = 0;
    while i < names.len()
        invariant
            i <= names.len(),
            ordered(sorted.deep_view()),
            sorted.deep_view().to_multiset() == names.deep_view().take(i as int).to_multiset(),
        decreases names.len() - i,
    {
        let ghost before = sorted.deep_view();
        let ghost name = names[i as int]@;
        let mut at: usize = sorted.len();
        while at > 0 && comes_before(names[i].as_str(), sorted[at - 1].as_str())
            invariant
                i < names.len(),
                name == names[i as int]@,
                at <= sorted.len(),
                before == sorted.deep_view(),
                forall|k: int| at <= k < before.len() ==> precedes(name, #[trigger] before[k]),
            decreases at,
        {
            at -= 1;
        }
        sorted.insert(at, names[i].clone());
        proof {
            assert(sorted.deep_view() == before.insert(at as int, name));
            let after = sorted.deep_view();
            assert(after.remove(at as int) == before);
            assert(after[at as int] == name);
            assert(after.contains(name));
            vstd::seq_lib::to_multiset_remove(after, at as int);
            after.to_multiset_ensures();
            assert(after.to_multiset().count(name) > 0);
            assert(after.to_multiset() =~= before.to_multiset().insert(name));
            before.to_multiset_ensures();
            let taken = names.deep_view().take(i as int);
            assert(names.deep_view().take(i + 1) == taken.push(name));
            taken.to_multiset_ensures();
            assert forall|x: int, y: int| 0 <= x < y < after.len() implies !precedes(
                #[trigger] after[y],
                #[trigger] after[x],
            ) by {
                if x < at && y < at {
                    assert(after[x] == before[x] && after[y] == before[y]);
                } else if x > at {
                    assert(after[x] == before[x - 1] && after[y] == before[y - 1]);
                } else if x == at {
                    assert(after[y] == before[y - 1]);
                    precedes_is_asymmetric(name, after[y]);
                } else if y == at {
                    assert(after[x] == before[x]);
                    if at > 0 && precedes(name, before[x]) {
                        precedes_is_total(before[x], before[at - 1]);
                        if x < at - 1 {
                            assert(!precedes(before[at - 1], before[x]));
                            if precedes(before[x], before[at - 1]) {
                                precedes_is_transitive(name, before[x], before[at - 1]);
                            }
                        }
                    }
                } else {
                    assert(after[x] == before[x] && after[y] == before[y - 1]);
                }
            }
        }
        i += 1;
    }
    assert(names.deep_view().take(i as int) == names.deep_view());
    sorted
}

/// Values by name, in the order of the names. No name occurs twice.
#[derive(Debug, PartialEq)]
pub struct Table<V> {
    entries: Vec<(String, V)>,
}

/// The names of some entries.
pub open spec fn entry_names<V>(entries: Seq<(String, V)>) -> Seq<Seq<char>> {
    entries.map_values(|entry: (String, V)| entry.0@)
}

/// The values of some entries by their names.
pub open spec fn entry_map<V>(entries: Seq<(String, V)>) -> Map<Seq<char>, V>
    decreases entries.len(),
{
    if entries.len() == 0 {
        Map::empty()
    } else {
        entry_map(entries.drop_last()).insert(entries.last().0@, entries.last().1)
    }
}

/// Entries hold a name exactly where one of them has it.
proof fn entry_map_names<V>(entries: Seq<(String, V)>, name: Seq<char>)
    ensures
        entry_map(entries).contains_key(name) <==> entry_names(entries).contains(name),
    decreases entries.len(),
{
    if entries.len() > 0 {
        entry_map_names(entries.drop_last(), name);
        assert(entry_names(entries) == entry_names(entries.drop_last()).push(entries.last().0@));
        let short = entry_names(entries.drop_last());
        if entry_names(entries).contains(name) {
            let k = entry_names(entries).index_of(name);
            if k < short.len() {
                assert(short[k] == name);
            }
        }
        if short.contains(name) {
            let k = short.index_of(name);
            assert(entry_names(entries)[k] == name);
        }
        assert(entry_names(entries)[entries.len() - 1] == entries.last().0@);
    }
}

/// Entries in rising order hold each of their values under its name.
proof fn entry_map_value<V>(entries: Seq<(String, V)>, i: int)
    requires
        increasing(entry_names(entries)),
        0 <= i < entries.len(),
    ensures
        entry_map(entries).contains_key(entries[i].0@),
        entry_map(entries)[entries[i].0@] == entries[i].1,
    decreases entries.len(),
{
    let short = entries.drop_last();
    assert forall|x: int, y: int| 0 <= x < y < short.len() implies precedes(
        #[trigger] entry_names(short)[x],
        #[trigger] entry_names(short)[y],
    ) by {
        assert(entry_names(short)[x] == entry_names(entries)[x]);
        assert(entry_names(short)[y] == entry_names(entries)[y]);
    }
    if i < entries.len() - 1 {
        entry_map_value(short, i);
        assert(short[i] == entries[i]);
        assert(precedes(entry_names(entries)[i], entry_names(entries)[entries.len() - 1]));
        precedes_is_strict(entries[i].0@);
    }
}

/// An entry put among others in rising order adds its value under its name.
proof fn entry_map_insert<V>(entries: Seq<(String, V)>, at: int, entry: (String, V))
    requires
        increasing(entry_names(entries)),
        0 <= at <= entries.len(),
        !entry_names(entries).contains(entry.0@),
        increasing(entry_names(entries.insert(at, entry))),
    ensures
        entry_map(entries.insert(at, entry)) == entry_map(entries).insert(entry.0@, entry.1),
{
    let more = entries.insert(at, entry);
    assert forall|name: Seq<char>|
        #![trigger entry_map(more).contains_key(name)]
        entry_map(more).contains_key(name) == entry_map(entries).insert(
            entry.0@,
            entry.1,
        ).contains_key(name) && (entry_map(more).contains_key(name) ==> entry_map(more)[name]
            == entry_map(entries).insert(entry.0@, entry.1)[name]) by {
        entry_map_names(more, name);
        entry_map_names(entries, name);
        if entry_names(more).contains(name) {
            let k = entry_names(more).index_of(name);
            entry_map_value(more, k);
            if k < at {
                assert(more[k] == entries[k]);
                assert(entry_names(entries)[k] == name);
                entry_map_value(entries, k);
            } else if k > at {
                assert(more[k] == entries[k - 1]);
                assert(entry_names(entries)[k - 1] == name);
                entry_map_value(entries, k - 1);
            }
        }
        if entry_names(entries).contains(name) {
            let k = entry_names(entries).index_of(name);
            if k < at {
                assert(entry_names(more)[k] == name);
            } else {
                assert(entry_names(more)[k + 1] == name);
            }
        }
        assert(entry_names(more)[at] == entry.0@);
    }
    assert(entry_map(more) =~= entry_map(entries).insert(entry.0@, entry.1));
}

/// An entry in place of one of the same name replaces its value.
proof fn entry_map_update<V>(entries: Seq<(String, V)>, at: int, entry: (String, V))
    requires
        increasing(entry_names(entries)),
        0 <= at < entries.len(),
        entries[at].0@ == entry.0@,
    ensures
        entry_names(entries.update(at, entry)) == entry_names(entries),
        entry_map(entries.update(at, entry)) == entry_map(entries).insert(entry.0@, entry.1),
{
    let after = entries.update(at, entry);
    assert(entry_names(after) =~= entry_names(entries));
    assert forall|name: Seq<char>|
        #![trigger entry_map(after).contains_key(name)]
        entry_map(after).contains_key(name) == entry_map(entries).insert(
            entry.0@,
            entry.1,
        ).contains_key(name) && (entry_map(after).contains_key(name) ==> entry_map(after)[name]
            == entry_map(entries).insert(entry.0@, entry.1)[name]) by {
        entry_map_names(after, name);
        entry_map_names(entries, name);
        assert(entry_names(entries)[at] == entry.0@);
        if entry_names(after).contains(name) {
            let k = entry_names(after).index_of(name);
            entry_map_value(after, k);
            entry_map_value(entries, k);
            entry_map_value(after, at);
        }
    }
    assert(entry_map(after) =~= entry_map(entries).insert(entry.0@, entry.1));
}

impl<V> View for Table<V> {
    type V = Map<Seq<char>, V>;

    closed spec fn view(&self) -> Map<Seq<char>, V> {
        entry_map(self.entries@)
    }
}

impl<V: Clone> Clone for Table<V> {
    fn clone(&self) -> (copy: Table<V>)
        ensures
            copy.listed() == self.listed(),
            copy@.dom() == self@.dom(),
            forall|name: Seq<char>| #[trigger]
                self@.contains_key(name) ==> cloned(self@[name], copy@[name]),
    {
        let mut entries: Vec<(String, V)> = Vec::new();
        let mut i: usize = 0;
        while i < self.entries.len()
            invariant
                i <= self.entries.len(),
                entries.len() == i,
                forall|j: int|
                    0 <= j < i ==> (#[trigger] entries[j]).0@ == self.entries[j].0@ && cloned(
                        self.entries[j].1,
                        entries[j].1,
                    ),
            decreases self.entries.len() - i,
        {
            entries.push((self.entries[i].0.as_str().to_owned(), self.entries[i].1.clone()));
            i += 1;
        }
        proof {
            use_type_invariant(self);
            assert(entry_names(entries@) == entry_names(self.entries@));
            assert forall|name: Seq<char>|
                entry_map(entries@).contains_key(name) == entry_map(
                    self.entries@,
                ).contains_key(name) by {
                entry_map_names(entries@, name);
                entry_map_names(self.entries@, name);
            }
            assert(entry_map(entries@).dom() =~= entry_map(self.entries@).dom());
            assert forall|name: Seq<char>| #[trigger]
                entry_map(self.entries@).contains_key(name) implies cloned(
                entry_map(self.entries@)[name],
                entry_map(entries@)[name],
            ) by {
                entry_map_names(self.entries@, name);
                let at = entry_names(self.entries@).index_of(name);
                assert(entries[at].0@ == self.entries[at].0@);
                entry_map_value(entries@, at);
                entry_map_value(self.entries@, at);
            }
        }
        Table { entries }
    }
}

impl<V> Table<V> {
    #[verifier::type_invariant]
    closed spec fn in_order(self) -> bool {
        increasing(entry_names(self.entries@))
    }

    /// The names in this table, in order.
    pub closed spec fn listed(self) -> Seq<Seq<char>> {
        entry_names(self.entries@)
    }

    /// A table without entries.
    pub fn new() -> (table: Table<V>)
        ensures
            table@ == Map::<Seq<char>, V>::empty(),
    {
        Table { entries: Vec::new() }
    }

    /// How many entries there are.
    pub fn len(&self) -> (count: usize)
        ensures
            count == self.listed().len(),
    {
        self.entries.len()
    }

    /// The name of an entry and its value, counted in the order of the names.
    pub fn entry(&self, i: usize) -> (entry: (&str, &V))
        requires
            i < self.listed().len(),
        ensures
            entry.0@ == self.listed()[i as int],
            self@.contains_key(entry.0@),
            *entry.1 == self@[entry.0@],
    {
        proof {
            use_type_invariant(self);
            entry_map_value(self.entries@, i as int);
        }
        (self.entries[i].0.as_str(), &self.entries[i].1)
    }

    /// The value of this name, where there is one.
    pub fn get(&self, name: &str) -> (value: Option<&V>)
        ensures
            value is Some <==> self@.contains_key(name@),
            value matches Some(value) ==> *value == self@[name@],
    {
        proof {
            use_type_invariant(self);
        }
        let mut i: usize = 0;
        while i < self.entries.len()
            invariant
                i <= self.entries.len(),
                increasing(entry_names(self.entries@)),
                forall|j: int| 0 <= j < i ==> (#[trigger] self.entries@[j]).0@ != name@,
            decreases self.entries.len() - i,
        {
            if crate::text::same(self.entries[i].0.as_str(), name) {
                proof {
                    entry_map_value(self.entries@, i as int);
                }
                return Some(&self.entries[i].1);
            }
            i += 1;
        }
        proof {
            entry_map_names(self.entries@, name@);
            if entry_names(self.entries@).contains(name@) {
                let k = entry_names(self.entries@).index_of(name@);
                assert(self.entries@[k].0@ == name@);
            }
        }
        None
    }

    /// Adds a value under a name that this table does not have.
    pub fn insert(&mut self, name: String, value: V)
        requires
            !old(self)@.contains_key(name@),
        ensures
            final(self)@ == old(self)@.insert(name@, value),
    {
        proof {
            use_type_invariant(&*self);
        }
        let mut entries: Vec<(String, V)> = Vec::new();
        std::mem::swap(&mut self.entries, &mut entries);
        let ghost before = entries@;
        let mut at: usize = entries.len();
        while at > 0 && comes_before(name.as_str(), entries[at - 1].0.as_str())
            invariant
                at <= entries.len(),
                before == entries@,
                forall|k: int| at <= k < before.len() ==> precedes(name@, (#[trigger] before[k]).0@),
            decreases at,
        {
            at -= 1;
        }
        entries.insert(at, (name, value));
        proof {
            let entry = entries@[at as int];
            entry_map_names(before, entry.0@);
            let names = entry_names(before);
            let after = entry_names(entries@);
            assert(entries@ == before.insert(at as int, entry));
            assert forall|x: int, y: int| 0 <= x < y < after.len() implies precedes(
                #[trigger] after[x],
                #[trigger] after[y],
            ) by {
                if y < at {
                    assert(after[x] == names[x] && after[y] == names[y]);
                } else if x > at {
                    assert(after[x] == names[x - 1] && after[y] == names[y - 1]);
                } else if x == at {
                    assert(after[y] == before[y - 1].0@);
                } else if y == at {
                    assert(after[x] == names[x]);
                    assert(!precedes(entry.0@, names[at - 1]));
                    precedes_is_total(entry.0@, names[at - 1]);
                    assert(names.contains(names[at - 1]));
                    if x < at - 1 {
                        assert(precedes(names[x], names[at - 1]));
                        precedes_is_transitive(names[x], names[at - 1], entry.0@);
                    }
                } else {
                    assert(after[x] == names[x] && after[y] == names[y - 1]);
                }
            }
            entry_map_insert(before, at as int, entry);
        }
        self.entries = entries;
    }

    /// Sets the value of a name, in place of the one it had.
    pub fn put(&mut self, name: String, value: V)
        ensures
            final(self)@ == old(self)@.insert(name@, value),
    {
        proof {
            use_type_invariant(&*self);
        }
        let mut i: usize = 0;
        while i < self.entries.len()
            invariant
                i <= self.entries.len(),
                *self == *old(self),
                forall|j: int| 0 <= j < i ==> (#[trigger] self.entries@[j]).0@ != name@,
            decreases self.entries.len() - i,
        {
            if crate::text::same(self.entries[i].0.as_str(), name.as_str()) {
                proof {
                    use_type_invariant(&*self);
                }
                let mut entries: Vec<(String, V)> = Vec::new();
                std::mem::swap(&mut self.entries, &mut entries);
                proof {
                    entry_map_update(entries@, i as int, (name, value));
                }
                entries[i] = (name, value);
                self.entries = entries;
                return;
            }
            i += 1;
        }
        proof {
            entry_map_names(self.entries@, name@);
            if entry_names(self.entries@).contains(name@) {
                let k = entry_names(self.entries@).index_of(name@);
                assert(self.entries@[k].0@ == name@);
            }
        }
        self.insert(name, value);
    }

    /// The names of a table are in rising order and are those it has a value for.
    pub fn names(&self) -> (names: Vec<&str>)
        ensures
            names.deep_view() == self.listed(),
            increasing(names.deep_view()),
            names.deep_view().to_set() == self@.dom(),
    {
        proof {
            use_type_invariant(self);
        }
        let mut names: Vec<&str> = Vec::new();
        let mut i: usize = 0;
        while i < self.entries.len()
            invariant
                i <= self.entries.len(),
                names.deep_view() == entry_names(self.entries@).take(i as int),
            decreases self.entries.len() - i,
        {
            let ghost before = names.deep_view();
            names.push(self.entries[i].0.as_str());
            assert(names.deep_view() == before.push(self.entries[i as int].0@));
            i += 1;
        }
        proof {
            assert(names.deep_view() == entry_names(self.entries@));
            assert forall|name: Seq<char>|
                names.deep_view().to_set().contains(name) == self@.dom().contains(name) by {
                entry_map_names(self.entries@, name);
            }
            assert(names.deep_view().to_set() =~= self@.dom());
        }
        names
    }
}

/// Names are in the order of their first difference, and one that goes on comes behind one that
/// stops.
pub proof fn the_first_difference_decides(
    front: Seq<char>,
    x: char,
    y: char,
    one: Seq<char>,
    other: Seq<char>,
)
    requires
        x != y,
    ensures
        precedes(front + seq![x] + one, front + seq![y] + other) <==> x < y,
        precedes(front, front + seq![x] + one),
    decreases front.len(),
{
    let a = front + seq![x] + one;
    let b = front + seq![y] + other;
    if front.len() == 0 {
        assert(a[0] == x && b[0] == y);
    } else {
        the_first_difference_decides(front.skip(1), x, y, one, other);
        assert(a[0] == front[0] && b[0] == front[0]);
        assert(a.skip(1) == front.skip(1) + seq![x] + one);
        assert(b.skip(1) == front.skip(1) + seq![y] + other);
    }
}

} // verus!
