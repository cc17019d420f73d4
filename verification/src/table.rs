//! A small map from text keys to values, kept as two parallel vectors in
//! which no key occurs twice. Its view is a `Map` from the key's characters
//! to the value.

use vstd::prelude::*;

verus! {

/// The characters of each string of `list`, in order.
pub open spec fn texts(list: Seq<String>) -> Seq<Seq<char>> {
    Seq::new(list.len(), |i: int| list[i]@)
}

/// In a sequence without duplicates, `index_of` finds the one position of an element.
pub proof fn lemma_index_of_unique<A>(s: Seq<A>, i: int)
    requires
        s.no_duplicates(),
        0 <= i < s.len(),
    ensures
        s.index_of(s[i]) == i,
{
    let j = s.index_of(s[i]);
    assert(0 <= j < s.len() && s[j] == s[i]);
}

/// Removing one position from a sequence without duplicates removes that
/// element and keeps every other one.
pub proof fn lemma_remove_unique<A>(s: Seq<A>, i: int)
    requires
        s.no_duplicates(),
        0 <= i < s.len(),
    ensures
        s.remove(i).no_duplicates(),
        !s.remove(i).contains(s[i]),
        forall|a: A| a != s[i] ==> (s.remove(i).contains(a) <==> s.contains(a)),
{
    let r = s.remove(i);
    assert forall|a: A| a != s[i] implies (r.contains(a) <==> s.contains(a)) by {
        if s.contains(a) {
            let k = choose|k: int| 0 <= k < s.len() && s[k] == a;
            if k < i {
                assert(r[k] == a);
            } else {
                assert(r[k - 1] == a);
            }
        }
        if r.contains(a) {
            let k = choose|k: int| 0 <= k < r.len() && r[k] == a;
            if k < i {
                assert(s[k] == a);
            } else {
                assert(s[k + 1] == a);
            }
        }
    }
}

/// Adding a new element at the end of a sequence without duplicates adds
/// that element and keeps the sequence without duplicates.
pub proof fn lemma_push_unique<A>(s: Seq<A>, a: A)
    requires
        s.no_duplicates(),
        !s.contains(a),
    ensures
        s.push(a).no_duplicates(),
        forall|x: A| s.push(a).contains(x) <==> (s.contains(x) || x == a),
{
    let t = s.push(a);
    assert(t[s.len() as int] == a);
    assert forall|x: A| s.contains(x) implies t.contains(x) by {
        let i = s.index_of(x);
        assert(t[i] == x);
    }
}

/// The first position of `key` in `list`, if it occurs there.
pub fn position(list: &Vec<String>, key: &String) -> (found: Option<usize>)
    ensures
        match found {
            Some(i) => {
                &&& i < list@.len()
                &&& texts(list@)[i as int] == key@
                &&& forall|j: int| 0 <= j < i ==> texts(list@)[j] != key@
            },
            None => !texts(list@).contains(key@),
        },
{
    let mut i: usize = 0;
    while i < list.len()
        invariant
            i <= list@.len(),
            forall|j: int| 0 <= j < i ==> texts(list@)[j] != key@,
        decreases list@.len() - i,
    {
        if list[i] == *key {
            return Some(i);
        }
        i += 1;
    }
    None
}

/// A map from text keys to values of type `V`.
pub struct Table<V> {
    keys: Vec<String>,
    values: Vec<V>,
}

impl<V> Table<V> {
    /// Each key has exactly one value, and no key occurs twice.
    #[verifier::type_invariant]
    spec fn inv(&self) -> bool {
        &&& self.keys@.len() == self.values@.len()
        &&& texts(self.keys@).no_duplicates()
    }

    /// The table as a mathematical map.
    pub closed spec fn view(&self) -> Map<Seq<char>, V> {
        Map::new(
            |k: Seq<char>| texts(self.keys@).contains(k),
            |k: Seq<char>| self.values@[texts(self.keys@).index_of(k)],
        )
    }

    /// The empty table.
    pub fn new() -> (table: Self)
        ensures
            table@ == Map::<Seq<char>, V>::empty(),
    {
        let table = Table { keys: Vec::new(), values: Vec::new() };
        assert(table@ =~= Map::<Seq<char>, V>::empty());
        table
    }

    /// The value stored under `key`, if there is one.
    pub fn get(&self, key: &String) -> (value: Option<&V>)
        ensures
            value == (if self@.dom().contains(key@) {
                Some(&self@[key@])
            } else {
                None
            }),
    {
        proof {
            use_type_invariant(self);
        }
        match position(&self.keys, key) {
            Some(i) => {
                proof {
                    lemma_index_of_unique(texts(self.keys@), i as int);
                }
                Some(&self.values[i])
            },
            None => None,
        }
    }

    /// Takes the table apart, leaving an empty one in its place. A table is
    /// changed on its parts and then put together again, so that whoever can
    /// see it sees it whole.
    fn take(&mut self) -> (parts: (Vec<String>, Vec<V>))
        ensures
            parts.0@.len() == parts.1@.len(),
            texts(parts.0@).no_duplicates(),
            old(self)@ == (Table { keys: parts.0, values: parts.1 })@,
    {
        proof {
            use_type_invariant(&*self);
        }
        let mut taken = Table::new();
        core::mem::swap(self, &mut taken);
        let Table { keys, values } = taken;
        (keys, values)
    }

    /// Stores `value` under `key`, replacing what was stored there before.
    pub fn insert(&mut self, key: String, value: V)
        ensures
            final(self)@ == old(self)@.insert(key@, value),
    {
        let (mut keys, mut values) = self.take();
        let ghost before = texts(keys@);
        match position(&keys, &key) {
            Some(i) => {
                values.set(i, value);
                proof {
                    assert forall|k: Seq<char>| before.contains(k) && k != key@ implies before.index_of(
                        k,
                    ) != i by {
                        lemma_index_of_unique(before, i as int);
                    }
                    lemma_index_of_unique(before, i as int);
                }
            },
            None => {
                keys.push(key);
                values.push(value);
                proof {
                    let after = texts(keys@);
                    let n = before.len() as int;
                    assert(after =~= before.push(key@));
                    lemma_index_of_unique(after, n);
                    assert forall|k: Seq<char>| before.contains(k) implies after.contains(k)
                        && after.index_of(k) == before.index_of(k) by {
                        let j = before.index_of(k);
                        assert(after[j] == k);
                        lemma_index_of_unique(after, j);
                    }
                    assert forall|k: Seq<char>| after.contains(k) && k != key@ implies before.contains(
                        k,
                    ) by {
                        let j = after.index_of(k);
                        assert(before[j] == k);
                    }
                }
            },
        }
        *self = Table { keys, values };
        assert(self@ =~= old(self)@.insert(key@, value));
    }

    /// Takes out what is stored under `key`, if anything is.
    pub fn remove(&mut self, key: &String) -> (value: Option<V>)
        ensures
            final(self)@ == old(self)@.remove(key@),
            value == (if old(self)@.dom().contains(key@) {
                Some(old(self)@[key@])
            } else {
                None
            }),
    {
        let (mut keys, mut values) = self.take();
        let ghost before = texts(keys@);
        let ghost held = values@;
        let value = match position(&keys, key) {
            Some(i) => {
                keys.remove(i);
                let value = values.remove(i);
                proof {
                    let after = texts(keys@);
                    assert(after =~= before.remove(i as int));
                    lemma_index_of_unique(before, i as int);
                    lemma_remove_unique(before, i as int);
                    assert forall|k: Seq<char>| after.contains(k) implies before.contains(k)
                        && values@[after.index_of(k)] == held[before.index_of(k)] by {
                        let j = after.index_of(k);
                        let j0 = if j < i { j } else { j + 1 };
                        assert(before[j0] == k);
                        lemma_index_of_unique(before, j0);
                    }
                }
                Some(value)
            },
            None => None,
        };
        *self = Table { keys, values };
        assert(self@ =~= old(self)@.remove(key@));
        value
    }
}

} // verus!
