//! Maps from names to values.

use crate::text::same_text;
use vstd::prelude::*;

verus! {

/// A map whose keys are text. Every key occurs once.
#[derive(Debug)]
pub struct StringMap<V> {
    entries: Vec<(String, V)>,
}

/// Where the first entry with key `key` stands; past the end where there is none.
spec fn position_of<V>(entries: Seq<(String, V)>, key: Seq<char>) -> int
    decreases entries.len(),
{
    if entries.len() == 0 {
        0
    } else if entries[0].0@ == key {
        0
    } else {
        1 + position_of(entries.drop_first(), key)
    }
}

/// No two entries have the same key.
spec fn keys_differ<V>(entries: Seq<(String, V)>) -> bool {
    forall|i: int, j: int|
        0 <= i < j < entries.len() ==> #[trigger] entries[i].0@ != #[trigger] entries[j].0@
}

proof fn lemma_position_of<V>(entries: Seq<(String, V)>, key: Seq<char>)
    ensures
        0 <= position_of(entries, key) <= entries.len(),
        position_of(entries, key) < entries.len() ==> entries[position_of(entries, key)].0@ == key,
        forall|i: int| 0 <= i < position_of(entries, key) ==> #[trigger] entries[i].0@ != key,
    decreases entries.len(),
{
    if entries.len() > 0 && entries[0].0@ != key {
        let rest = entries.drop_first();
        lemma_position_of(rest, key);
        assert forall|i: int| 0 <= i < position_of(entries, key) implies #[trigger] entries[i].0@
            != key by {
            if i > 0 {
                assert(rest[i - 1].0@ != key);
            }
        }
    }
}

impl<V> View for StringMap<V> {
    type V = Map<Seq<char>, V>;

    closed spec fn view(&self) -> Map<Seq<char>, V> {
        Map::new(
            |key: Seq<char>| position_of(self.entries@, key) < self.entries@.len(),
            |key: Seq<char>| self.entries@[position_of(self.entries@, key)].1,
        )
    }
}

impl<V> StringMap<V> {
    #[verifier::type_invariant]
    spec fn inv(&self) -> bool {
        keys_differ(self.entries@)
    }

    /// The empty map.
    pub fn new() -> (map: Self)
        ensures
            map@ == Map::<Seq<char>, V>::empty(),
    {
        let map = StringMap { entries: Vec::new() };
        assert forall|key: Seq<char>| !map@.dom().contains(key) by {
            lemma_position_of(map.entries@, key);
        }
        assert(map@ =~= Map::<Seq<char>, V>::empty());
        map
    }

    /// How many keys the map has.
    pub fn len(&self) -> (n: usize)
        ensures
            self@.dom().finite(),
            n == self@.dom().len(),
    {
        proof {
            use_type_invariant(self);
            lemma_size(self.entries@, self@.dom());
        }
        self.entries.len()
    }

    /// Whether the map has no key.
    pub fn is_empty(&self) -> (empty: bool)
        ensures
            empty == (self@ == Map::<Seq<char>, V>::empty()),
    {
        proof {
            if self.entries@.len() > 0 {
                lemma_position_of(self.entries@, self.entries@[0].0@);
                assert(self@.dom().contains(self.entries@[0].0@));
            } else {
                assert forall|key: Seq<char>| !self@.dom().contains(key) by {
                    lemma_position_of(self.entries@, key);
                }
                assert(self@ =~= Map::<Seq<char>, V>::empty());
            }
        }
        self.entries.len() == 0
    }

    fn find(&self, key: &str) -> (p: usize)
        ensures
            p == position_of(self.entries@, key@),
            p <= self.entries@.len(),
    {
        proof {
            lemma_position_of(self.entries@, key@);
        }
        let mut p: usize = 0;
        while p < self.entries.len()
            invariant
                p <= self.entries@.len(),
                forall|i: int| 0 <= i < p ==> #[trigger] self.entries@[i].0@ != key@,
                position_of(self.entries@, key@) < self.entries@.len()
                    ==> self.entries@[position_of(self.entries@, key@)].0@ == key@,
                0 <= position_of(self.entries@, key@) <= self.entries@.len(),
                forall|i: int|
                    0 <= i < position_of(self.entries@, key@) ==> #[trigger] self.entries@[i].0@
                        != key@,
            decreases self.entries@.len() - p,
        {
            if same_text(self.entries[p].0.as_str(), key) {
                assert(self.entries@[p as int].0@ == key@);
                return p;
            }
            p += 1;
        }
        p
    }

    /// The value of `key`.
    pub fn get(&self, key: &str) -> (value: Option<&V>)
        ensures
            match value {
                Some(v) => self@.contains_pair(key@, *v),
                None => !self@.dom().contains(key@),
            },
    {
        let p = self.find(key);
        if p < self.entries.len() {
            Some(&self.entries[p].1)
        } else {
            None
        }
    }

    /// Whether the map has `key`.
    pub fn contains_key(&self, key: &str) -> (has: bool)
        ensures
            has == self@.dom().contains(key@),
    {
        self.find(key) < self.entries.len()
    }

    /// Gives `key` the value `value`, whatever it had before.
    pub fn insert(&mut self, key: String, value: V)
        ensures
            final(self)@ == old(self)@.insert(key@, value),
    {
        proof {
            use_type_invariant(&*self);
        }
        let ghost before = self.entries@;
        let p = self.find(key.as_str());
        let mut entries: Vec<(String, V)> = Vec::new();
        std::mem::swap(&mut entries, &mut self.entries);
        let ghost name = key@;
        if p < entries.len() {
            entries.set(p, (key, value));
        } else {
            entries.push((key, value));
        }
        proof {
            lemma_position_of(before, name);
            assert(forall|i: int| 0 <= i < before.len() && i != p ==> entries@[i] == before[i]);
            assert(entries@[p as int].0@ == name && entries@[p as int].1 == value);
            assert forall|i: int, j: int| 0 <= i < j < entries@.len() implies #[trigger] entries@[i].0@
                != #[trigger] entries@[j].0@ by {
                if i != p {
                    assert(before[i].0@ != name);
                }
                if j != p {
                    assert(before[j].0@ != name);
                }
                if i != p && j != p {
                    assert(before[i].0@ != before[j].0@);
                }
            }
        }
        self.entries = entries;
        proof {
            let after = self.entries@;
            assert forall|other: Seq<char>| #[trigger]
                self@.dom().contains(other) == old(self)@.insert(name, value).dom().contains(other) by {
                lemma_replaced(before, after, p as int, name, other);
            }
            assert forall|other: Seq<char>| #[trigger] self@.dom().contains(other) implies self@[other]
                == old(self)@.insert(name, value)[other] by {
                lemma_replaced(before, after, p as int, name, other);
            }
            assert(self@ =~= old(self)@.insert(name, value));
        }
    }

    /// Takes every key out.
    pub fn clear(&mut self)
        ensures
            final(self)@ == Map::<Seq<char>, V>::empty(),
    {
        let mut entries: Vec<(String, V)> = Vec::new();
        std::mem::swap(&mut entries, &mut self.entries);
        assert forall|key: Seq<char>| !self@.dom().contains(key) by {
            lemma_position_of(self.entries@, key);
        }
        assert(self@ =~= Map::<Seq<char>, V>::empty());
    }
}

/// What is found once entry `p` has come to have key `key`.
proof fn lemma_replaced<V>(
    before: Seq<(String, V)>,
    after: Seq<(String, V)>,
    p: int,
    key: Seq<char>,
    other: Seq<char>,
)
    requires
        p == position_of(before, key),
        after.len() == if p < before.len() {
            before.len()
        } else {
            before.len() + 1
        },
        forall|i: int| 0 <= i < before.len() && i != p ==> after[i] == before[i],
        after[p].0@ == key,
    ensures
        other == key ==> position_of(after, other) == p,
        other != key ==> (position_of(after, other) < after.len()) == (position_of(before, other)
            < before.len()),
        other != key && position_of(before, other) < before.len() ==> {
            &&& position_of(after, other) == position_of(before, other)
            &&& after[position_of(after, other)] == before[position_of(before, other)]
        },
{
    lemma_position_of(before, key);
    lemma_position_of(before, other);
    lemma_position_of(after, other);
    let a = position_of(after, other);
    let b = position_of(before, other);
    if other == key {
        assert(after[p].0@ == key);
        if a < p {
            assert(before[a].0@ != key);
        }
    } else {
        if b < before.len() {
            assert(before[b].0@ == other);
            assert(b != p);
            assert(after[b] == before[b]);
            if a < b {
                assert(after[a].0@ == other);
                assert(a != p);
                assert(before[a].0@ != other);
            }
        } else if a < after.len() {
            assert(after[a].0@ == other);
            assert(a != p);
            assert(before[a].0@ == other);
        }
    }
}

proof fn lemma_size<V>(entries: Seq<(String, V)>, keys: Set<Seq<char>>)
    requires
        keys_differ(entries),
        forall|key: Seq<char>| #[trigger]
            keys.contains(key) == (position_of(entries, key) < entries.len()),
    ensures
        keys.finite(),
        keys.len() == entries.len(),
{
    let texts = Seq::new(entries.len(), |i: int| entries[i].0@);
    assert(texts.no_duplicates()) by {
        assert forall|i: int, j: int| 0 <= i < texts.len() && 0 <= j < texts.len() && i != j implies texts[i]
            != texts[j] by {
            if i < j {
                assert(entries[i].0@ != entries[j].0@);
            } else {
                assert(entries[j].0@ != entries[i].0@);
            }
        }
    }
    texts.unique_seq_to_set();
    assert forall|key: Seq<char>| #[trigger] keys.contains(key) == texts.to_set().contains(key) by {
        lemma_position_of(entries, key);
        let p = position_of(entries, key);
        if p < entries.len() {
            assert(texts[p] == key);
        }
        if texts.to_set().contains(key) {
            let i = choose|i: int| 0 <= i < texts.len() && texts[i] == key;
            assert(entries[i].0@ == key);
        }
    }
    assert(keys =~= texts.to_set());
}

/// What a map was given under a key is found there, the last of it where it was given more than
/// once, and what it has under other keys stays as it is.
pub proof fn lemma_inserted<V>(
    map: &mut StringMap<V>,
    key: String,
    value: V,
    name: &str,
    found: Option<&V>,
    before: Option<&V>,
    has: bool,
)
    requires
        call_ensures(StringMap::<V>::insert, (map, key, value), ()),
        call_ensures(StringMap::<V>::get, (&*final(map), name), found),
        call_ensures(StringMap::<V>::get, (&*old(map), name), before),
        call_ensures(StringMap::<V>::contains_key, (&*final(map), name), has),
    ensures
        name@ == key@ ==> found == Some(&value),
        name@ != key@ ==> found == before,
        has <==> found is Some,
{
}

/// A new map has nothing, nor has one that was cleared, and a map without keys is empty.
pub proof fn lemma_emptied<V>(
    new: StringMap<V>,
    map: &mut StringMap<V>,
    name: &str,
    found: Option<&V>,
    found_after: Option<&V>,
    any: &StringMap<V>,
    n: usize,
    empty: bool,
)
    requires
        call_ensures(StringMap::<V>::new, (), new),
        call_ensures(StringMap::<V>::get, (&new, name), found),
        call_ensures(StringMap::<V>::clear, (map,), ()),
        call_ensures(StringMap::<V>::get, (&*final(map), name), found_after),
        call_ensures(StringMap::<V>::len, (any,), n),
        call_ensures(StringMap::<V>::is_empty, (any,), empty),
    ensures
        found is None,
        found_after is None,
        empty <==> n == 0,
        n == any@.dom().len(),
{
    if n == 0 {
        assert(any@.dom() =~= Set::<Seq<char>>::empty());
        assert(any@ =~= Map::<Seq<char>, V>::empty());
    }
}

} // verus!
