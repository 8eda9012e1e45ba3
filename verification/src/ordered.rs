//! A map whose keys are texts, kept in the order of the keys.

use vstd::prelude::*;
use vstd::string::*;

use crate::text::{less, text_less, text_order_is_strict};

verus! {

/// The keys are in order and none occurs twice.
pub open spec fn keys_ascend<V>(entries: Seq<(Seq<char>, V)>) -> bool {
    forall|i: int, j: int|
        0 <= i < j < entries.len() ==> text_less(#[trigger] entries[i].0, #[trigger] entries[j].0)
}

/// What is kept under a key.
pub open spec fn lookup<V>(entries: Seq<(Seq<char>, V)>, key: Seq<char>) -> Option<V>
    decreases entries.len(),
{
    if entries.len() == 0 {
        None
    } else if entries.last().0 == key {
        Some(entries.last().1)
    } else {
        lookup(entries.drop_last(), key)
    }
}

/// The entries with a value put under a key, in place of what was there.
pub open spec fn put<V>(entries: Seq<(Seq<char>, V)>, key: Seq<char>, value: V) -> Seq<
    (Seq<char>, V),
>
    decreases entries.len(),
{
    if entries.len() == 0 {
        seq![(key, value)]
    } else if entries.last().0 == key {
        entries.drop_last().push((key, value))
    } else if text_less(entries.last().0, key) {
        entries.push((key, value))
    } else {
        put(entries.drop_last(), key, value).push(entries.last())
    }
}

proof fn lemma_not_before_self(key: Seq<char>)
    ensures
        !text_less(key, key),
{
    text_order_is_strict(key, key, key);
}

proof fn lemma_put_replaces<V>(
    entries: Seq<(Seq<char>, V)>,
    key: Seq<char>,
    value: V,
    at: int,
)
    requires
        keys_ascend(entries),
        0 <= at < entries.len(),
        entries[at].0 == key,
    ensures
        put(entries, key, value) == entries.update(at, (key, value)),
        lookup(entries, key) == Some(entries[at].1),
    decreases entries.len(),
{
    let rest = entries.drop_last();
    if at == entries.len() - 1 {
        assert(rest.push((key, value)) =~= entries.update(at, (key, value)));
    } else {
        let last = entries.last();
        assert(text_less(entries[at].0, entries[entries.len() - 1].0));
        text_order_is_strict(key, last.0, key);
        lemma_not_before_self(key);
        assert(keys_ascend(rest)) by {
            assert forall|i: int, j: int| 0 <= i < j < rest.len() implies text_less(
                #[trigger] rest[i].0,
                #[trigger] rest[j].0,
            ) by {
                assert(rest[i] == entries[i] && rest[j] == entries[j]);
            }
        }
        lemma_put_replaces(rest, key, value, at);
        assert(put(entries, key, value) =~= entries.update(at, (key, value)));
    }
}

proof fn lemma_put_inserts<V>(entries: Seq<(Seq<char>, V)>, key: Seq<char>, value: V, at: int)
    requires
        0 <= at <= entries.len(),
        forall|i: int| 0 <= i < at ==> text_less(#[trigger] entries[i].0, key),
        forall|i: int| at <= i < entries.len() ==> text_less(key, #[trigger] entries[i].0),
    ensures
        put(entries, key, value) == entries.insert(at, (key, value)),
        lookup(entries, key) is None,
    decreases entries.len(),
{
    lemma_not_before_self(key);
    if entries.len() == 0 {
        assert(put(entries, key, value) =~= entries.insert(at, (key, value)));
    } else {
        let rest = entries.drop_last();
        let last = entries.last();
        assert(last == entries[entries.len() - 1]);
        if at == entries.len() {
            lemma_put_inserts(rest, key, value, at - 1);
            assert(put(entries, key, value) =~= entries.insert(at, (key, value)));
        } else {
            text_order_is_strict(key, last.0, key);
            lemma_put_inserts(rest, key, value, at);
            assert(put(entries, key, value) =~= entries.insert(at, (key, value)));
        }
    }
}

/// Under a key stands what was put there last; other keys keep what they had.
/// The order of the keys holds.
pub proof fn put_and_lookup<V>(
    entries: Seq<(Seq<char>, V)>,
    key: Seq<char>,
    value: V,
    other: Seq<char>,
)
    requires
        keys_ascend(entries),
    ensures
        keys_ascend(put(entries, key, value)),
        lookup(put(entries, key, value), key) == Some(value),
        other != key ==> lookup(put(entries, key, value), other) == lookup(entries, other),
    decreases entries.len(),
{
    let result = put(entries, key, value);
    if entries.len() > 0 {
        let rest = entries.drop_last();
        let last = entries.last();
        assert forall|i: int, j: int| 0 <= i < j < rest.len() implies text_less(
            #[trigger] rest[i].0,
            #[trigger] rest[j].0,
        ) by {
            assert(rest[i] == entries[i] && rest[j] == entries[j]);
        }
        if last.0 == key {
            assert(result.drop_last() =~= rest);
            assert forall|i: int, j: int| 0 <= i < j < result.len() implies text_less(
                #[trigger] result[i].0,
                #[trigger] result[j].0,
            ) by {
                assert(result[i].0 == entries[i].0 && result[j].0 == entries[j].0);
            }
        } else if text_less(last.0, key) {
            assert(result.drop_last() =~= entries);
            assert forall|i: int, j: int| 0 <= i < j < result.len() implies text_less(
                #[trigger] result[i].0,
                #[trigger] result[j].0,
            ) by {
                if j == entries.len() {
                    if i < entries.len() - 1 {
                        assert(text_less(entries[i].0, entries[entries.len() - 1].0));
                        text_order_is_strict(last.0, key, entries[i].0);
                        text_order_is_strict(entries[i].0, last.0, key);
                    }
                } else {
                    assert(result[i] == entries[i] && result[j] == entries[j]);
                }
            }
        } else {
            put_and_lookup(rest, key, value, other);
            text_order_is_strict(last.0, key, key);
            let front = put(rest, key, value);
            assert(result.drop_last() =~= front);
            assert forall|i: int, j: int| 0 <= i < j < result.len() implies text_less(
                #[trigger] result[i].0,
                #[trigger] result[j].0,
            ) by {
                if j == front.len() {
                    lemma_put_keys(rest, key, value, i);
                } else {
                    assert(result[i] == front[i] && result[j] == front[j]);
                }
            }
        }
    } else {
        assert(result.drop_last() =~= entries);
    }
}

proof fn lemma_put_keys<V>(entries: Seq<(Seq<char>, V)>, key: Seq<char>, value: V, i: int)
    requires
        0 <= i < put(entries, key, value).len(),
    ensures
        put(entries, key, value)[i].0 == key || exists|k: int|
            0 <= k < entries.len() && #[trigger] entries[k].0 == put(entries, key, value)[i].0,
    decreases entries.len(),
{
    if entries.len() > 0 {
        let rest = entries.drop_last();
        let last = entries.len() - 1;
        if entries.last().0 == key || text_less(entries.last().0, key) {
            if i < entries.len() {
                assert(put(entries, key, value)[i].0 == entries[i].0);
            }
        } else if i < put(rest, key, value).len() {
            lemma_put_keys(rest, key, value, i);
            if put(rest, key, value)[i].0 != key {
                let k = choose|k: int|
                    0 <= k < rest.len() && #[trigger] rest[k].0 == put(rest, key, value)[i].0;
                assert(entries[k].0 == put(entries, key, value)[i].0);
            }
        } else {
            assert(entries[last].0 == put(entries, key, value)[i].0);
        }
    }
}

/// A map from texts to values, in the order of the texts.
pub struct OrderedMap<V> {
    entries: Vec<(String, V)>,
}

impl<V> View for OrderedMap<V> {
    type V = Seq<(Seq<char>, V)>;

    closed spec fn view(&self) -> Seq<(Seq<char>, V)> {
        self.entries@.map_values(|entry: (String, V)| (entry.0@, entry.1))
    }
}

impl<V> OrderedMap<V> {
    #[verifier::type_invariant]
    spec fn fits(self) -> bool {
        keys_ascend(self@)
    }

    /// A map without entries.
    pub fn new() -> (map: Self)
        ensures
            map@ == Seq::<(Seq<char>, V)>::empty(),
    {
        let map = OrderedMap { entries: Vec::new() };
        assert(map@ =~= Seq::empty());
        map
    }

    /// How many entries there are.
    pub fn len(&self) -> (n: usize)
        ensures
            n == self@.len(),
            keys_ascend(self@),
    {
        proof {
            use_type_invariant(self);
        }
        self.entries.len()
    }

    /// The key at a place in the order.
    pub fn key(&self, at: usize) -> (key: &str)
        requires
            at < self@.len(),
        ensures
            key@ == self@[at as int].0,
    {
        self.entries[at].0.as_str()
    }

    /// The value at a place in the order.
    pub fn value(&self, at: usize) -> (value: &V)
        requires
            at < self@.len(),
        ensures
            *value == self@[at as int].1,
    {
        proof {
            use_type_invariant(self);
        }
        &self.entries[at].1
    }

    fn search(&self, key: &str) -> (at: usize)
        ensures
            at <= self@.len(),
            forall|i: int| 0 <= i < at ==> text_less(#[trigger] self@[i].0, key@),
            forall|i: int| at <= i < self@.len() ==> !text_less(#[trigger] self@[i].0, key@),
    {
        proof {
            use_type_invariant(self);
        }
        let mut low: usize = 0;
        let mut high: usize = self.entries.len();
        while low < high
            invariant
                keys_ascend(self@),
                self@.len() == self.entries@.len(),
                low <= high <= self@.len(),
                forall|i: int| 0 <= i < low ==> text_less(#[trigger] self@[i].0, key@),
                forall|i: int| high <= i < self@.len() ==> !text_less(#[trigger] self@[i].0, key@),
            decreases high - low,
        {
            let middle: usize = low + (high - low) / 2;
            let ghost pivot = self@[middle as int].0;
            if less(self.entries[middle].0.as_str(), key) {
                assert forall|i: int| 0 <= i < middle + 1 implies text_less(
                    #[trigger] self@[i].0,
                    key@,
                ) by {
                    if i < middle {
                        assert(text_less(self@[i].0, self@[middle as int].0));
                        text_order_is_strict(pivot, key@, self@[i].0);
                        text_order_is_strict(self@[i].0, pivot, key@);
                    }
                }
                low = middle + 1;
            } else {
                assert forall|i: int| middle <= i < self@.len() implies !text_less(
                    #[trigger] self@[i].0,
                    key@,
                ) by {
                    if middle < i {
                        assert(text_less(self@[middle as int].0, self@[i].0));
                        text_order_is_strict(pivot, self@[i].0, key@);
                        text_order_is_strict(self@[i].0, key@, pivot);
                    }
                }
                high = middle;
            }
        }
        low
    }

    /// The place of a key in the order.
    pub fn position(&self, key: &str) -> (at: Option<usize>)
        ensures
            at is Some <==> lookup(self@, key@) is Some,
            at matches Some(at) ==> at < self@.len() && self@[at as int].0 == key@ && lookup(
                self@,
                key@,
            ) == Some(self@[at as int].1),
    {
        proof {
            use_type_invariant(self);
        }
        let at: usize = self.search(key);
        if at < self.entries.len() && !less(key, self.entries[at].0.as_str()) {
            proof {
                text_order_is_strict(self@[at as int].0, key@, key@);
                lemma_put_replaces(self@, key@, self@[at as int].1, at as int);
            }
            Some(at)
        } else {
            proof {
                lemma_beyond(self@, key@, at as int);
            }
            None
        }
    }

    /// What is kept under a key.
    pub fn get(&self, key: &str) -> (value: Option<&V>)
        ensures
            match value {
                Some(value) => lookup(self@, key@) == Some(*value),
                None => lookup(self@, key@) is None,
            },
    {
        proof {
            use_type_invariant(self);
        }
        match self.position(key) {
            Some(at) => Some(&self.entries[at].1),
            None => None,
        }
    }

    /// Puts a value under a key, in place of what was there.
    pub fn set(&mut self, key: &str, value: V)
        ensures
            final(self)@ == put(old(self)@, key@, value),
    {
        proof {
            use_type_invariant(&*self);
        }
        let ghost before = self@;
        let at: usize = self.search(key);
        let mut entries: Vec<(String, V)> = Vec::new();
        std::mem::swap(&mut entries, &mut self.entries);
        if at < entries.len() && !less(key, entries[at].0.as_str()) {
            proof {
                text_order_is_strict(before[at as int].0, key@, key@);
                lemma_put_replaces(before, key@, value, at as int);
            }
            entries.set(at, (key.to_owned(), value));
        } else {
            proof {
                lemma_beyond(before, key@, at as int);
                lemma_put_inserts(before, key@, value, at as int);
            }
            entries.insert(at, (key.to_owned(), value));
        }
        let ghost after = put(before, key@, value);
        proof {
            put_and_lookup(before, key@, value, key@);
            assert(entries@.map_values(|entry: (String, V)| (entry.0@, entry.1)) =~= after);
        }
        *self = OrderedMap { entries };
        assert(self@ =~= after);
    }
}

proof fn lemma_beyond<V>(entries: Seq<(Seq<char>, V)>, key: Seq<char>, at: int)
    requires
        keys_ascend(entries),
        0 <= at <= entries.len(),
        forall|i: int| 0 <= i < at ==> text_less(#[trigger] entries[i].0, key),
        at < entries.len() ==> text_less(key, entries[at].0),
    ensures
        forall|i: int| at <= i < entries.len() ==> text_less(key, #[trigger] entries[i].0),
        lookup(entries, key) is None,
{
    assert forall|i: int| at <= i < entries.len() implies text_less(
        key,
        #[trigger] entries[i].0,
    ) by {
        if at < i {
            assert(text_less(entries[at].0, entries[i].0));
            text_order_is_strict(entries[at].0, entries[i].0, key);
            text_order_is_strict(key, entries[at].0, entries[i].0);
        }
    }
    if entries.len() > 0 {
        lemma_put_inserts(entries, key, entries[0].1, at);
    }
}

/// A measure of the values, added up.
pub open spec fn total<V>(entries: Seq<(Seq<char>, V)>, measure: spec_fn(V) -> nat) -> nat
    decreases entries.len(),
{
    if entries.len() == 0 {
        0
    } else {
        total(entries.drop_last(), measure) + measure(entries.last().1)
    }
}

/// A measure of what is kept under a key: nothing where nothing is.
pub open spec fn measured<V>(value: Option<V>, measure: spec_fn(V) -> nat) -> nat {
    match value {
        Some(value) => measure(value),
        None => 0,
    }
}

/// Putting a value under a key adds the difference to the total.
pub proof fn put_and_total<V>(
    entries: Seq<(Seq<char>, V)>,
    key: Seq<char>,
    value: V,
    measure: spec_fn(V) -> nat,
)
    requires
        keys_ascend(entries),
    ensures
        total(put(entries, key, value), measure) == total(entries, measure) + measure(value)
            - measured(lookup(entries, key), measure),
        measured(lookup(entries, key), measure) <= total(entries, measure),
    decreases entries.len(),
{
    let result = put(entries, key, value);
    if entries.len() == 0 {
        assert(result.drop_last() =~= entries);
    } else {
        let rest = entries.drop_last();
        let last = entries.last();
        assert forall|i: int, j: int| 0 <= i < j < rest.len() implies text_less(
            #[trigger] rest[i].0,
            #[trigger] rest[j].0,
        ) by {
            assert(rest[i] == entries[i] && rest[j] == entries[j]);
        }
        put_and_total(rest, key, value, measure);
        if last.0 == key {
            assert(result.drop_last() =~= rest);
        } else if text_less(last.0, key) {
            assert(result.drop_last() =~= entries);
            let n = entries.len() as int;
            assert forall|i: int| 0 <= i < n implies text_less(#[trigger] entries[i].0, key) by {
                if i < n - 1 {
                    assert(text_less(entries[i].0, entries[n - 1].0));
                    text_order_is_strict(last.0, key, entries[i].0);
                    text_order_is_strict(entries[i].0, last.0, key);
                }
            }
            lemma_beyond(entries, key, n);
        } else {
            assert(result.drop_last() =~= put(rest, key, value));
        }
    }
}

} // verus!
