//! Maps keyed by name, kept in ascending order of their names.

use vstd::prelude::*;

use crate::text;

verus! {

/// Names with their values, in order.
pub type Entries<V> = Seq<(Seq<char>, V)>;

/// Whether names strictly ascend, so that none occurs twice.
pub open spec fn sorted<V>(entries: Entries<V>) -> bool {
    forall|i: int, j: int|
        0 <= i < j < entries.len() ==> text::before(#[trigger] entries[i].0, #[trigger] entries[j].0)
}

/// How many leading names sort before `name`.
pub open spec fn slot<V>(entries: Entries<V>, name: Seq<char>) -> nat
    decreases entries.len(),
{
    if entries.len() > 0 && text::before(entries[0].0, name) {
        1 + slot(entries.skip(1), name)
    } else {
        0
    }
}

/// Whether `name` is present.
pub open spec fn has<V>(entries: Entries<V>, name: Seq<char>) -> bool {
    slot(entries, name) < entries.len() && entries[slot(entries, name) as int].0 == name
}

/// The value of `name`, if it is present.
pub open spec fn find<V>(entries: Entries<V>, name: Seq<char>) -> Option<V> {
    if has(entries, name) {
        Some(entries[slot(entries, name) as int].1)
    } else {
        None
    }
}

/// The entries once `name` holds `value`.
pub open spec fn inserted<V>(entries: Entries<V>, name: Seq<char>, value: V) -> Entries<V> {
    if has(entries, name) {
        entries.update(slot(entries, name) as int, (name, value))
    } else {
        entries.insert(slot(entries, name) as int, (name, value))
    }
}

/// The entries without `name`.
pub open spec fn removed<V>(entries: Entries<V>, name: Seq<char>) -> Entries<V> {
    if has(entries, name) {
        entries.remove(slot(entries, name) as int)
    } else {
        entries
    }
}

/// The names alone.
pub open spec fn names<V>(entries: Entries<V>) -> Seq<Seq<char>> {
    Seq::new(entries.len(), |i: int| entries[i].0)
}

/// `slot` stays within the entries and splits them around `name`.
pub proof fn lemma_slot<V>(entries: Entries<V>, name: Seq<char>)
    ensures
        slot(entries, name) <= entries.len(),
        forall|i: int|
            0 <= i < slot(entries, name) ==> text::before(#[trigger] entries[i].0, name),
        slot(entries, name) < entries.len() ==> !text::before(
            entries[slot(entries, name) as int].0,
            name,
        ),
    decreases entries.len(),
{
    if entries.len() > 0 && text::before(entries[0].0, name) {
        lemma_slot(entries.skip(1), name);
        assert forall|i: int| 0 <= i < slot(entries, name) implies text::before(
            #[trigger] entries[i].0,
            name,
        ) by {
            if i > 0 {
                assert(entries.skip(1)[i - 1] == entries[i]);
            }
        }
    }
}

/// A position that splits the entries around `name` is its slot.
pub proof fn lemma_slot_is<V>(entries: Entries<V>, name: Seq<char>, at: int)
    requires
        0 <= at <= entries.len(),
        forall|i: int| 0 <= i < at ==> text::before(#[trigger] entries[i].0, name),
        at < entries.len() ==> !text::before(entries[at].0, name),
    ensures
        slot(entries, name) == at,
    decreases entries.len(),
{
    if at > 0 {
        assert(text::before(entries[0].0, name));
        assert forall|i: int| 0 <= i < at - 1 implies text::before(
            #[trigger] entries.skip(1)[i].0,
            name,
        ) by {
            assert(text::before(entries[i + 1].0, name));
        }
        lemma_slot_is(entries.skip(1), name, at - 1);
    }
}

/// In ascending order every entry is found under its own name.
pub proof fn lemma_find_at<V>(entries: Entries<V>, at: int)
    requires
        sorted(entries),
        0 <= at < entries.len(),
    ensures
        slot(entries, entries[at].0) == at,
        has(entries, entries[at].0),
        find(entries, entries[at].0) == Some(entries[at].1),
{
    text::lemma_before_irreflexive(entries[at].0);
    lemma_slot_is(entries, entries[at].0, at);
}

/// A name is present exactly when some entry carries it.
pub proof fn lemma_has<V>(entries: Entries<V>, name: Seq<char>)
    requires
        sorted(entries),
    ensures
        has(entries, name) <==> exists|i: int|
            0 <= i < entries.len() && #[trigger] entries[i].0 == name,
{
    if has(entries, name) {
        assert(entries[slot(entries, name) as int].0 == name);
    }
    if exists|i: int| 0 <= i < entries.len() && #[trigger] entries[i].0 == name {
        let at = choose|i: int| 0 <= i < entries.len() && #[trigger] entries[i].0 == name;
        lemma_find_at(entries, at);
    }
}

/// Inserting keeps the order.
pub proof fn lemma_inserted_sorted<V>(entries: Entries<V>, name: Seq<char>, value: V)
    requires
        sorted(entries),
    ensures
        sorted(inserted(entries, name, value)),
{
    lemma_slot(entries, name);
    let at = slot(entries, name) as int;
    let after = inserted(entries, name, value);
    if has(entries, name) {
        assert forall|i: int, j: int| 0 <= i < j < after.len() implies text::before(
            #[trigger] after[i].0,
            #[trigger] after[j].0,
        ) by {
            assert(after[i].0 == entries[i].0);
            assert(after[j].0 == entries[j].0);
        }
    } else {
        if at < entries.len() {
            text::lemma_before_total(entries[at].0, name);
        }
        assert forall|i: int, j: int| 0 <= i < j < after.len() implies text::before(
            #[trigger] after[i].0,
            #[trigger] after[j].0,
        ) by {
            if i < at && j < at {
                assert(after[i] == entries[i] && after[j] == entries[j]);
            } else if i < at && j == at {
                assert(after[i] == entries[i]);
            } else if i < at {
                assert(after[i] == entries[i] && after[j] == entries[j - 1]);
            } else if i == at {
                assert(after[j] == entries[j - 1]);
                if j - 1 > at {
                    text::lemma_before_transitive(name, entries[at].0, entries[j - 1].0);
                }
            } else {
                assert(after[i] == entries[i - 1] && after[j] == entries[j - 1]);
            }
        }
    }
}

/// Removing keeps the order.
pub proof fn lemma_removed_sorted<V>(entries: Entries<V>, name: Seq<char>)
    requires
        sorted(entries),
    ensures
        sorted(removed(entries, name)),
{
    if has(entries, name) {
        let at = slot(entries, name) as int;
        let after = removed(entries, name);
        assert forall|i: int, j: int| 0 <= i < j < after.len() implies text::before(
            #[trigger] after[i].0,
            #[trigger] after[j].0,
        ) by {
            let a = if i < at { i } else { i + 1 };
            let b = if j < at { j } else { j + 1 };
            assert(after[i] == entries[a] && after[j] == entries[b]);
        }
    }
}

/// A read after an insertion gives what was inserted, and everything else as before.
pub proof fn lemma_find_inserted<V>(
    entries: Entries<V>,
    name: Seq<char>,
    value: V,
    other: Seq<char>,
)
    requires
        sorted(entries),
    ensures
        find(inserted(entries, name, value), other) == (if other == name {
            Some(value)
        } else {
            find(entries, other)
        }),
{
    lemma_slot(entries, name);
    lemma_inserted_sorted(entries, name, value);
    let at = slot(entries, name) as int;
    let after = inserted(entries, name, value);
    assert(after[at] == (name, value));
    lemma_find_at(after, at);
    if other != name {
        if has(entries, other) {
            let i = slot(entries, other) as int;
            let j = if has(entries, name) || i < at { i } else { i + 1 };
            assert(after[j] == entries[i]);
            lemma_find_at(after, j);
            lemma_find_at(entries, i);
        } else if has(after, other) {
            let j = slot(after, other) as int;
            let i = if has(entries, name) || j < at { j } else { j - 1 };
            assert(after[j] == entries[i]);
            lemma_find_at(entries, i);
        }
    }
}

/// A removed name is gone, and everything else is as before.
pub proof fn lemma_find_removed<V>(entries: Entries<V>, name: Seq<char>, other: Seq<char>)
    requires
        sorted(entries),
    ensures
        find(removed(entries, name), other) == (if other == name {
            None
        } else {
            find(entries, other)
        }),
{
    lemma_removed_sorted(entries, name);
    let after = removed(entries, name);
    if has(entries, name) {
        let at = slot(entries, name) as int;
        if has(after, other) {
            let j = slot(after, other) as int;
            let i = if j < at { j } else { j + 1 };
            assert(after[j] == entries[i]);
            lemma_find_at(entries, i);
            lemma_find_at(entries, at);
        }
        if other != name && has(entries, other) {
            let i = slot(entries, other) as int;
            let j = if i < at { i } else { i - 1 };
            assert(after[j] == entries[i]);
            lemma_find_at(after, j);
        }
    }
}

/// A name that is taken out and put back is as if its value had been replaced.
pub proof fn lemma_inserted_after_removed<V>(entries: Entries<V>, name: Seq<char>, value: V)
    requires
        sorted(entries),
    ensures
        inserted(removed(entries, name), name, value) == inserted(entries, name, value),
{
    if has(entries, name) {
        lemma_slot(entries, name);
        let at = slot(entries, name) as int;
        let shorter = removed(entries, name);
        assert forall|i: int| 0 <= i < at implies text::before(#[trigger] shorter[i].0, name) by {
            assert(shorter[i] == entries[i]);
        }
        if at < shorter.len() {
            assert(shorter[at] == entries[at + 1]);
            assert(text::before(entries[at].0, entries[at + 1].0));
            if text::before(entries[at + 1].0, name) {
                text::lemma_before_transitive(name, entries[at + 1].0, name);
                text::lemma_before_irreflexive(name);
            }
            text::lemma_before_irreflexive(name);
        }
        lemma_slot_is(shorter, name, at);
        assert(inserted(shorter, name, value) =~= inserted(entries, name, value));
    }
}

/// Inserting a name that sorts after all others appends it.
pub proof fn lemma_insert_last<V>(entries: Entries<V>, name: Seq<char>, value: V)
    requires
        forall|i: int| 0 <= i < entries.len() ==> text::before(#[trigger] entries[i].0, name),
    ensures
        inserted(entries, name, value) == entries.push((name, value)),
{
    lemma_slot_is(entries, name, entries.len() as int);
    assert(inserted(entries, name, value) =~= entries.push((name, value)));
}

/// Inserting the next of ascending entries after those before it appends it.
pub proof fn lemma_append_last<V>(entries: Entries<V>, at: int)
    requires
        sorted(entries),
        0 <= at < entries.len(),
    ensures
        inserted(entries.take(at), entries[at].0, entries[at].1) == entries.take(at + 1),
{
    let shorter = entries.take(at);
    assert forall|i: int| 0 <= i < at implies text::before(
        #[trigger] shorter[i].0,
        entries[at].0,
    ) by {
        assert(text::before(entries[i].0, entries[at].0));
    }
    lemma_slot_is(shorter, entries[at].0, at);
    assert(inserted(shorter, entries[at].0, entries[at].1) =~= entries.take(at + 1));
}

/// A map from names to values in ascending order of the names.
#[derive(Debug)]
pub struct NameMap<V> {
    entries: Vec<(String, V)>,
}

/// The names and values of a list of pairs.
pub open spec fn pairs<V: View>(list: Seq<(String, V)>) -> Entries<V::V> {
    Seq::new(list.len(), |i: int| (list[i].0@, list[i].1@))
}

/// The names of a list of pairs, with no values.
pub open spec fn keyed<V>(list: Seq<(String, V)>) -> Entries<()> {
    Seq::new(list.len(), |i: int| (list[i].0@, ()))
}

proof fn lemma_keyed<V: View>(list: Seq<(String, V)>)
    ensures
        sorted(keyed(list)) == sorted(pairs(list)),
{
    if sorted(keyed(list)) {
        assert forall|i: int, j: int| 0 <= i < j < pairs(list).len() implies text::before(
            #[trigger] pairs(list)[i].0,
            #[trigger] pairs(list)[j].0,
        ) by {
            assert(text::before(keyed(list)[i].0, keyed(list)[j].0));
        }
    }
    if sorted(pairs(list)) {
        assert forall|i: int, j: int| 0 <= i < j < keyed(list).len() implies text::before(
            #[trigger] keyed(list)[i].0,
            #[trigger] keyed(list)[j].0,
        ) by {
            assert(text::before(pairs(list)[i].0, pairs(list)[j].0));
        }
    }
}

impl<V: View> View for NameMap<V> {
    type V = Entries<V::V>;

    closed spec fn view(&self) -> Entries<V::V> {
        pairs(self.entries@)
    }
}

impl<V> NameMap<V> {
    #[verifier::type_invariant]
    spec fn ascending(self) -> bool {
        sorted(keyed(self.entries@))
    }
}

impl<V: View> NameMap<V> {
    /// An empty map.
    pub fn new() -> (map: Self)
        ensures
            map@ == Seq::<(Seq<char>, V::V)>::empty(),
            sorted(map@),
    {
        let map = NameMap { entries: Vec::new() };
        assert(map@ =~= Seq::<(Seq<char>, V::V)>::empty());
        map
    }

    /// The number of names.
    pub fn len(&self) -> (count: usize)
        ensures
            count == self@.len(),
            sorted(self@),
    {
        proof {
            use_type_invariant(self);
            lemma_keyed(self.entries@);
        }
        self.entries.len()
    }

    /// Whether there are no names.
    pub fn is_empty(&self) -> (empty: bool)
        ensures
            empty == (self@.len() == 0),
    {
        self.entries.len() == 0
    }

    /// The name at a position.
    pub fn key_at(&self, at: usize) -> (name: &String)
        requires
            at < self@.len(),
        ensures
            name@ == self@[at as int].0,
    {
        &self.entries[at].0
    }

    /// The value at a position.
    pub fn value_at(&self, at: usize) -> (value: &V)
        requires
            at < self@.len(),
        ensures
            value@ == self@[at as int].1,
    {
        &self.entries[at].1
    }

    fn slot_of(&self, name: &str) -> (at: usize)
        ensures
            at == slot(self@, name@),
            at <= self@.len(),
    {
        let mut at: usize = 0;
        while at < self.entries.len()
            invariant
                at <= self@.len(),
                self@.len() == self.entries@.len(),
                forall|i: int| 0 <= i < at ==> text::before(#[trigger] self@[i].0, name@),
            decreases self@.len() - at,
        {
            match text::compare(self.entries[at].0.as_str(), name) {
                text::Order::Before => {},
                _ => {
                    proof {
                        lemma_slot_is(self@, name@, at as int);
                    }
                    return at;
                },
            }
            at += 1;
        }
        proof {
            lemma_slot_is(self@, name@, at as int);
        }
        at
    }

    /// The value of `name`.
    pub fn get(&self, name: &str) -> (value: Option<&V>)
        ensures
            match value {
                Some(v) => find(self@, name@) == Some(v@),
                None => find(self@, name@) is None,
            },
            value is Some <==> has(self@, name@),
            sorted(self@),
    {
        proof {
            use_type_invariant(self);
            lemma_keyed(self.entries@);
        }
        let at: usize = self.slot_of(name);
        if at < self.entries.len() && text::same(self.entries[at].0.as_str(), name) {
            Some(&self.entries[at].1)
        } else {
            None
        }
    }

    /// Whether `name` is present.
    pub fn contains_key(&self, name: &str) -> (present: bool)
        ensures
            present == has(self@, name@),
            sorted(self@),
    {
        proof {
            use_type_invariant(self);
            lemma_keyed(self.entries@);
        }
        let at: usize = self.slot_of(name);
        at < self.entries.len() && text::same(self.entries[at].0.as_str(), name)
    }

    /// Gives `name` a value.
    pub fn insert(&mut self, name: String, value: V)
        ensures
            final(self)@ == inserted(old(self)@, name@, value@),
            sorted(final(self)@),
    {
        proof {
            use_type_invariant(&*self);
            lemma_keyed(self.entries@);
            lemma_slot(self@, name@);
            lemma_inserted_sorted(self@, name@, value@);
        }
        let at: usize = self.slot_of(name.as_str());
        let mut entries: Vec<(String, V)> = Vec::new();
        let ghost before = self.entries@;
        std::mem::swap(&mut entries, &mut self.entries);
        if at < entries.len() && text::same(entries[at].0.as_str(), name.as_str()) {
            entries[at] = (name, value);
            assert(pairs(entries@) =~= inserted(pairs(before), name@, value@));
        } else {
            entries.insert(at, (name, value));
            assert(pairs(entries@) =~= inserted(pairs(before), name@, value@));
        }
        proof {
            lemma_keyed(entries@);
        }
        self.entries = entries;
    }

    /// Takes `name` out.
    pub fn remove(&mut self, name: &str) -> (value: Option<V>)
        ensures
            final(self)@ == removed(old(self)@, name@),
            match value {
                Some(v) => find(old(self)@, name@) == Some(v@),
                None => find(old(self)@, name@) is None,
            },
            sorted(old(self)@),
            sorted(final(self)@),
    {
        proof {
            use_type_invariant(&*self);
            lemma_keyed(self.entries@);
            lemma_slot(self@, name@);
            lemma_removed_sorted(self@, name@);
        }
        let at: usize = self.slot_of(name);
        if at < self.entries.len() && text::same(self.entries[at].0.as_str(), name) {
            let mut entries: Vec<(String, V)> = Vec::new();
            let ghost before = self.entries@;
            std::mem::swap(&mut entries, &mut self.entries);
            let (_, value) = entries.remove(at);
            assert(pairs(entries@) =~= removed(pairs(before), name@));
            proof {
                lemma_keyed(entries@);
            }
            self.entries = entries;
            Some(value)
        } else {
            None
        }
    }

    /// The names, in order.
    pub fn keys(&self) -> (list: Vec<String>)
        ensures
            text::texts(list@) == names(self@),
            sorted(self@),
    {
        proof {
            use_type_invariant(self);
            lemma_keyed(self.entries@);
        }
        let mut list: Vec<String> = Vec::new();
        let mut at: usize = 0;
        while at < self.entries.len()
            invariant
                at <= self@.len(),
                self@.len() == self.entries@.len(),
                text::texts(list@) =~= names(self@).take(at as int),
            decreases self@.len() - at,
        {
            let name = self.entries[at].0.clone();
            let ghost before = list@;
            list.push(name);
            proof {
                assert(name@ == names(self@)[at as int]);
                assert(text::texts(list@) =~= text::texts(before).push(name@));
                assert(names(self@).take(at + 1) =~= names(self@).take(at as int).push(name@));
            }
            at += 1;
        }
        assert(names(self@).take(self@.len() as int) =~= names(self@));
        list
    }
}

} // verus!
