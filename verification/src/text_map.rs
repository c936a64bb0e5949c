//! A map whose keys are texts, kept in ascending order of the keys.

use crate::text::{before, precedes, precedes_irreflexive, precedes_total, precedes_transitive, same_text, Text};
use vstd::prelude::*;

verus! {

/// Every text of the sequence comes before those that follow it.
pub open spec fn ascending(s: Seq<Text>) -> bool {
    forall|i: int, j: int| 0 <= i < j < s.len() ==> precedes(#[trigger] s[i], #[trigger] s[j])
}

/// The texts of a finite set, in ascending order.
pub open spec fn in_order(texts: Set<Text>) -> Seq<Text> {
    choose|s: Seq<Text>| ascending(s) && s.to_set() == texts
}

/// There is only one way to put the texts of a set in ascending order.
pub proof fn ascending_is_unique(a: Seq<Text>, b: Seq<Text>)
    requires
        ascending(a),
        ascending(b),
        a.to_set() == b.to_set(),
    ensures
        a == b,
    decreases a.len(),
{
    if a.len() == 0 || b.len() == 0 {
        if a.len() > 0 {
            assert(a.to_set().contains(a[0]));
            assert(b.contains(a[0]));
        }
        if b.len() > 0 {
            assert(b.to_set().contains(b[0]));
            assert(a.contains(b[0]));
        }
        assert(a =~= b);
    } else {
        least_is_first(a, b);
        let a1 = a.drop_first();
        let b1 = b.drop_first();
        assert(a1.to_set() =~= b1.to_set()) by {
            rest_of_ascending(a);
            rest_of_ascending(b);
        }
        ascending_is_unique(a1, b1);
        assert(a =~= seq![a[0]] + a1);
        assert(b =~= seq![b[0]] + b1);
    }
}

proof fn least_is_first(a: Seq<Text>, b: Seq<Text>)
    requires
        ascending(a),
        ascending(b),
        a.to_set() == b.to_set(),
        a.len() > 0,
        b.len() > 0,
    ensures
        a[0] == b[0],
{
    assert(a.to_set().contains(a[0]));
    assert(b.to_set().contains(b[0]));
    let i = choose|i: int| 0 <= i < b.len() && b[i] == a[0];
    let j = choose|j: int| 0 <= j < a.len() && a[j] == b[0];
    if i > 0 && j > 0 {
        assert(precedes(b[0], b[i]));
        assert(precedes(a[0], a[j]));
        precedes_transitive(a[0], b[0], a[0]);
        precedes_irreflexive(a[0]);
    }
}

proof fn rest_of_ascending(a: Seq<Text>)
    requires
        ascending(a),
        a.len() > 0,
    ensures
        ascending(a.drop_first()),
        a.drop_first().to_set() == a.to_set().remove(a[0]),
{
    let rest = a.drop_first();
    assert forall|k: Text| rest.to_set().contains(k) == a.to_set().remove(a[0]).contains(k) by {
        if rest.contains(k) {
            let i = choose|i: int| 0 <= i < rest.len() && rest[i] == k;
            assert(a[i + 1] == k);
            precedes_irreflexive(k);
        }
        if a.contains(k) && k != a[0] {
            let i = choose|i: int| 0 <= i < a.len() && a[i] == k;
            assert(rest[i - 1] == k);
        }
    }
    assert(rest.to_set() =~= a.to_set().remove(a[0]));
}

/// A map from texts to values.
#[derive(Debug, PartialEq, Eq)]
pub struct TextMap<V> {
    entries: Vec<(String, V)>,
}

/// The keys of a list of entries.
spec fn keys_of<V>(entries: Seq<(String, V)>) -> Seq<Text> {
    entries.map_values(|entry: (String, V)| entry.0@)
}

/// The map that a list of entries stands for.
spec fn map_of<V>(entries: Seq<(String, V)>) -> Map<Text, V> {
    Map::new(
        |key: Text| keys_of(entries).contains(key),
        |key: Text| entries[keys_of(entries).index_of(key)].1,
    )
}

/// An entry of an ascending list is what the map holds at its key.
proof fn entry_in_map<V>(entries: Seq<(String, V)>, i: int)
    requires
        ascending(keys_of(entries)),
        0 <= i < entries.len(),
    ensures
        map_of(entries).contains_key(entries[i].0@),
        map_of(entries)[entries[i].0@] == entries[i].1,
{
    let keys = keys_of(entries);
    let key = entries[i].0@;
    assert(keys[i] == key);
    assert(keys.contains(key));
    let j = keys.index_of(key);
    assert(keys[j] == key);
    if i != j {
        precedes_irreflexive(key);
    }
}

impl<V> TextMap<V> {
    #[verifier::type_invariant]
    spec fn in_ascending_order(self) -> bool {
        ascending(keys_of(self.entries@))
    }

    /// The keys in ascending order.
    pub open spec fn keys(self) -> Seq<Text> {
        in_order(self@.dom())
    }

    proof fn keys_are_listed(self)
        requires
            self.in_ascending_order(),
        ensures
            self.keys() == keys_of(self.entries@),
    {
        let keys = keys_of(self.entries@);
        assert(keys.to_set() =~= self@.dom());
        ascending_is_unique(self.keys(), keys);
    }

    /// The empty map.
    pub fn new() -> (result: TextMap<V>)
        ensures
            result@ == Map::<Text, V>::empty(),
    {
        let result = TextMap { entries: Vec::new() };
        assert(result@ =~= Map::<Text, V>::empty());
        result
    }

    /// The number of keys.
    pub fn len(&self) -> (result: usize)
        ensures
            result == self.keys().len(),
            ascending(self.keys()),
            self.keys().to_set() == self@.dom(),
    {
        proof {
            use_type_invariant(self);
            self.keys_are_listed();
            assert(self.keys().to_set() =~= self@.dom());
        }
        self.entries.len()
    }

    /// The key at place `i` of the ascending order.
    pub fn key(&self, i: usize) -> (result: &String)
        requires
            i < self.keys().len(),
        ensures
            result@ == self.keys()[i as int],
            self@.contains_key(result@),
    {
        proof {
            use_type_invariant(self);
            self.keys_are_listed();
            entry_in_map(self.entries@, i as int);
        }
        &self.entries[i].0
    }

    /// The value at place `i` of the ascending order.
    pub fn value(&self, i: usize) -> (result: &V)
        requires
            i < self.keys().len(),
        ensures
            *result == self@[self.keys()[i as int]],
    {
        proof {
            use_type_invariant(self);
            self.keys_are_listed();
            entry_in_map(self.entries@, i as int);
        }
        &self.entries[i].1
    }

    /// The first place whose key does not come before `key`.
    fn place(entries: &Vec<(String, V)>, key: &str) -> (result: usize)
        requires
            ascending(keys_of(entries@)),
        ensures
            result <= entries@.len(),
            forall|i: int| 0 <= i < result ==> precedes(#[trigger] entries@[i].0@, key@),
            forall|i: int|
                result <= i < entries@.len() ==> !precedes(#[trigger] entries@[i].0@, key@),
    {
        let mut i: usize = 0;
        while i < entries.len() && before(entries[i].0.as_str(), key)
            invariant
                i <= entries@.len(),
                forall|j: int| 0 <= j < i ==> precedes(#[trigger] entries@[j].0@, key@),
            decreases entries@.len() - i,
        {
            i = i + 1;
        }
        proof {
            let keys = keys_of(entries@);
            assert forall|j: int| i <= j < entries@.len() implies !precedes(
                #[trigger] entries@[j].0@,
                key@,
            ) by {
                assert(keys[j] == entries@[j].0@ && keys[i as int] == entries@[i as int].0@);
                if i < j && precedes(keys[j], key@) {
                    precedes_transitive(keys[i as int], keys[j], key@);
                }
            }
        }
        i
    }

    /// The value of a key.
    pub fn get(&self, key: &str) -> (result: Option<&V>)
        ensures
            match result {
                Some(value) => self@.contains_key(key@) && *value == self@[key@],
                None => !self@.contains_key(key@),
            },
    {
        proof {
            use_type_invariant(self);
        }
        let i = Self::place(&self.entries, key);
        let ghost keys = keys_of(self.entries@);
        if i < self.entries.len() && same_text(self.entries[i].0.as_str(), key) {
            proof {
                entry_in_map(self.entries@, i as int);
            }
            return Some(&self.entries[i].1);
        }
        proof {
            if keys.contains(key@) {
                let j = choose|j: int| 0 <= j < keys.len() && keys[j] == key@;
                assert(self.entries@[j].0@ == key@);
                precedes_irreflexive(key@);
                assert(i <= j);
                if i < j {
                    assert(precedes(keys[i as int], keys[j]));
                    assert(keys[i as int] == self.entries@[i as int].0@);
                }
            }
        }
        None
    }

    /// Sets the value of a key.
    pub fn insert(&mut self, key: String, value: V)
        ensures
            final(self)@ == old(self)@.insert(key@, value),
    {
        proof {
            use_type_invariant(&*self);
        }
        let mut entries: Vec<(String, V)> = Vec::new();
        core::mem::swap(&mut entries, &mut self.entries);
        let ghost old_entries = entries@;
        let i = Self::place(&entries, key.as_str());
        if i < entries.len() && same_text(entries[i].0.as_str(), key.as_str()) {
            let _ = entries.remove(i);
            proof {
                removed_entry(old_entries, i as int);
            }
        } else {
            proof {
                absent_at_place(old_entries, i as int, key@);
            }
        }
        let ghost others = entries@;
        entries.insert(i, (key, value));
        proof {
            inserted_entry(others, i as int, key, value);
            assert(map_of(entries@) =~= map_of(old_entries).insert(key@, value));
        }
        self.entries = entries;
    }

    /// Takes a key and its value out of the map.
    pub fn remove(&mut self, key: &str) -> (result: Option<V>)
        ensures
            final(self)@ == old(self)@.remove(key@),
            result == old(self)@.get(key@),
    {
        proof {
            use_type_invariant(&*self);
        }
        let mut entries: Vec<(String, V)> = Vec::new();
        core::mem::swap(&mut entries, &mut self.entries);
        let ghost old_entries = entries@;
        let i = Self::place(&entries, key);
        let result = if i < entries.len() && same_text(entries[i].0.as_str(), key) {
            proof {
                removed_entry(old_entries, i as int);
                entry_in_map(old_entries, i as int);
            }
            let (_, value) = entries.remove(i);
            Some(value)
        } else {
            proof {
                absent_at_place(old_entries, i as int, key@);
                assert(map_of(old_entries) =~= map_of(old_entries).remove(key@));
            }
            None
        };
        self.entries = entries;
        result
    }
}

/// Where the key at `i` is another one than `key`, the list does not hold `key`.
proof fn absent_at_place<V>(entries: Seq<(String, V)>, i: int, key: Text)
    requires
        ascending(keys_of(entries)),
        0 <= i <= entries.len(),
        forall|j: int| 0 <= j < i ==> precedes(#[trigger] entries[j].0@, key),
        forall|j: int| i <= j < entries.len() ==> !precedes(#[trigger] entries[j].0@, key),
        i < entries.len() ==> entries[i].0@ != key,
    ensures
        !keys_of(entries).contains(key),
        forall|j: int| i <= j < entries.len() ==> precedes(key, #[trigger] entries[j].0@),
{
    let keys = keys_of(entries);
    precedes_irreflexive(key);
    assert forall|j: int| i <= j < entries.len() implies precedes(
        key,
        #[trigger] entries[j].0@,
    ) by {
        assert(keys[j] == entries[j].0@);
        precedes_total(entries[i].0@, key);
        if i < j {
            assert(precedes(keys[i], keys[j]));
            precedes_transitive(key, keys[i], keys[j]);
        }
    }
    if keys.contains(key) {
        let j = choose|j: int| 0 <= j < keys.len() && keys[j] == key;
        assert(entries[j].0@ == key);
    }
}

/// Taking an entry out of an ascending list takes its key out of the map.
proof fn removed_entry<V>(entries: Seq<(String, V)>, i: int)
    requires
        ascending(keys_of(entries)),
        0 <= i < entries.len(),
    ensures
        ascending(keys_of(entries.remove(i))),
        !keys_of(entries.remove(i)).contains(entries[i].0@),
        map_of(entries.remove(i)) == map_of(entries).remove(entries[i].0@),
        forall|j: int|
            0 <= j < i ==> precedes(#[trigger] entries.remove(i)[j].0@, entries[i].0@),
        forall|j: int|
            i <= j < entries.len() - 1 ==> precedes(
                entries[i].0@,
                #[trigger] entries.remove(i)[j].0@,
            ),
{
    let keys = keys_of(entries);
    let rest = entries.remove(i);
    let rest_keys = keys_of(rest);
    let key = entries[i].0@;
    assert(keys[i] == key);
    assert forall|j: int| 0 <= j < rest.len() implies #[trigger] rest_keys[j] == (if j < i {
        keys[j]
    } else {
        keys[j + 1]
    }) by {}
    assert forall|j: int, k: int| 0 <= j < k < rest_keys.len() implies precedes(
        #[trigger] rest_keys[j],
        #[trigger] rest_keys[k],
    ) by {
        let j1 = if j < i { j } else { j + 1 };
        let k1 = if k < i { k } else { k + 1 };
        assert(precedes(keys[j1], keys[k1]));
    }
    assert(forall|j: int| 0 <= j < i ==> keys[j] == #[trigger] rest[j].0@);
    assert(forall|j: int| i <= j < rest.len() ==> keys[j + 1] == #[trigger] rest[j].0@);
    precedes_irreflexive(key);
    assert forall|j: int| 0 <= j < rest_keys.len() implies #[trigger] rest_keys[j] != key by {
        assert(rest[j].0@ == rest_keys[j]);
    }
    let before_map = map_of(entries).remove(key);
    let after_map = map_of(rest);
    assert forall|k: Text| after_map.contains_key(k) == before_map.contains_key(k) by {
        if rest_keys.contains(k) {
            let j = choose|j: int| 0 <= j < rest_keys.len() && rest_keys[j] == k;
            let j1 = if j < i { j } else { j + 1 };
            assert(keys[j1] == k);
        }
        if keys.contains(k) && k != key {
            let j = choose|j: int| 0 <= j < keys.len() && keys[j] == k;
            let j1 = if j < i { j } else { j - 1 };
            assert(rest_keys[j1] == k);
        }
    }
    assert forall|k: Text| after_map.contains_key(k) implies after_map[k] == before_map[k] by {
        let j = choose|j: int| 0 <= j < rest_keys.len() && rest_keys[j] == k;
        let j1 = if j < i { j } else { j + 1 };
        assert(rest[j].0@ == k && entries[j1].0@ == k);
        entry_in_map(rest, j);
        entry_in_map(entries, j1);
    }
    assert(after_map =~= before_map);
}

/// Putting an entry at its place in an ascending list adds it to the map.
proof fn inserted_entry<V>(entries: Seq<(String, V)>, i: int, key: String, value: V)
    requires
        ascending(keys_of(entries)),
        0 <= i <= entries.len(),
        !keys_of(entries).contains(key@),
        forall|j: int| 0 <= j < i ==> precedes(#[trigger] entries[j].0@, key@),
        forall|j: int| i <= j < entries.len() ==> precedes(key@, #[trigger] entries[j].0@),
    ensures
        ascending(keys_of(entries.insert(i, (key, value)))),
        map_of(entries.insert(i, (key, value))) == map_of(entries).insert(key@, value),
{
    let keys = keys_of(entries);
    let more = entries.insert(i, (key, value));
    let more_keys = keys_of(more);
    assert forall|j: int| 0 <= j < more.len() implies #[trigger] more_keys[j] == (if j < i {
        keys[j]
    } else if j == i {
        key@
    } else {
        keys[j - 1]
    }) by {}
    assert(forall|j: int| 0 <= j < keys.len() ==> #[trigger] keys[j] == entries[j].0@);
    assert(ascending(more_keys));
    assert forall|k: Text|
        map_of(more).contains_key(k) == map_of(entries).insert(key@, value).contains_key(k) by {
        if more_keys.contains(k) && k != key@ {
            let j = choose|j: int| 0 <= j < more_keys.len() && more_keys[j] == k;
            let j1 = if j < i { j } else { j - 1 };
            assert(keys[j1] == k);
        }
        if keys.contains(k) {
            let j = choose|j: int| 0 <= j < keys.len() && keys[j] == k;
            let j1 = if j < i { j } else { j + 1 };
            assert(more_keys[j1] == k);
        }
        assert(more_keys[i] == key@);
    }
    assert forall|k: Text| map_of(more).contains_key(k) implies map_of(more)[k] == map_of(
        entries,
    ).insert(key@, value)[k] by {
        let j = choose|j: int| 0 <= j < more_keys.len() && more_keys[j] == k;
        assert(more[j].0@ == k);
        entry_in_map(more, j);
        if j != i {
            let j1 = if j < i { j } else { j - 1 };
            assert(entries[j1].0@ == k);
            entry_in_map(entries, j1);
        } else {
            assert(more[i] == (key, value));
        }
    }
    assert(map_of(more) =~= map_of(entries).insert(key@, value));
}

impl<V> View for TextMap<V> {
    type V = Map<Text, V>;

    closed spec fn view(&self) -> Map<Text, V> {
        map_of(self.entries@)
    }
}

impl<V: DeepView> DeepView for TextMap<V> {
    type V = Map<Text, V::V>;

    open spec fn deep_view(&self) -> Map<Text, V::V> {
        self@.map_values(|value: V| value.deep_view())
    }
}

/// The texts of a finite set can be put in ascending order, and `in_order` does so.
pub proof fn in_order_is_ascending(texts: Set<Text>)
    requires
        texts.finite(),
    ensures
        ascending(in_order(texts)),
        in_order(texts).to_set() == texts,
    decreases texts.len(),
{
    if texts.len() == 0 {
        let s = Seq::<Text>::empty();
        assert(s.to_set() =~= texts);
        assert(ascending(s));
    } else {
        let text = texts.choose();
        let rest = texts.remove(text);
        in_order_is_ascending(rest);
        let s = with_text(in_order(rest), text);
        with_text_is_ascending(in_order(rest), text);
        assert(s.to_set() =~= texts);
    }
}

/// An ascending sequence with one more text in its place.
spec fn with_text(s: Seq<Text>, text: Text) -> Seq<Text>
    decreases s.len(),
{
    if s.len() == 0 || precedes(text, s[0]) {
        seq![text] + s
    } else {
        seq![s[0]] + with_text(s.drop_first(), text)
    }
}

proof fn with_text_is_ascending(s: Seq<Text>, text: Text)
    requires
        ascending(s),
        !s.contains(text),
    ensures
        ascending(with_text(s, text)),
        with_text(s, text).to_set() == s.to_set().insert(text),
    decreases s.len(),
{
    let more = with_text(s, text);
    if s.len() == 0 || precedes(text, s[0]) {
        assert forall|i: int, j: int| 0 <= i < j < more.len() implies precedes(
            #[trigger] more[i],
            #[trigger] more[j],
        ) by {
            assert(more[j] == s[j - 1]);
            if i == 0 {
                if j > 1 {
                    assert(precedes(s[0], s[j - 1]));
                    precedes_transitive(text, s[0], s[j - 1]);
                }
            } else {
                assert(more[i] == s[i - 1]);
            }
        }
        assert forall|k: Text| more.contains(k) == (s.contains(k) || k == text) by {
            if s.contains(k) {
                let i = choose|i: int| 0 <= i < s.len() && s[i] == k;
                assert(more[i + 1] == k);
            }
            assert(more[0] == text);
        }
    } else {
        let rest = s.drop_first();
        assert forall|k: Text| rest.contains(k) implies s.contains(k) && precedes(s[0], k) by {
            let i = choose|i: int| 0 <= i < rest.len() && rest[i] == k;
            assert(s[i + 1] == k);
        }
        with_text_is_ascending(rest, text);
        precedes_total(text, s[0]);
        assert(s.contains(s[0]));
        let inner = with_text(rest, text);
        assert forall|i: int, j: int| 0 <= i < j < more.len() implies precedes(
            #[trigger] more[i],
            #[trigger] more[j],
        ) by {
            assert(more[j] == inner[j - 1]);
            if i == 0 {
                assert(inner.to_set().contains(inner[j - 1]));
                assert(rest.to_set().insert(text).contains(inner[j - 1]));
            } else {
                assert(more[i] == inner[i - 1]);
            }
        }
        assert forall|k: Text| more.contains(k) == (s.contains(k) || k == text) by {
            assert(inner.to_set().contains(k) == rest.to_set().insert(text).contains(k));
            if inner.contains(k) {
                let i = choose|i: int| 0 <= i < inner.len() && inner[i] == k;
                assert(more[i + 1] == k);
            }
            if s.contains(k) && k != s[0] {
                let i = choose|i: int| 0 <= i < s.len() && s[i] == k;
                assert(rest[i - 1] == k);
            }
            assert(more[0] == s[0]);
        }
    }
    assert(more.to_set() =~= s.to_set().insert(text));
}

} // verus!
