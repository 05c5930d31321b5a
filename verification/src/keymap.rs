//! A map keyed by 32-byte keys.

use vstd::prelude::*;

verus! {

/// Whether two keys are the same.
pub fn same_key(a: &[u8; 32], b: &[u8; 32]) -> (r: bool)
    ensures
        r == (a@ == b@),
{
    let mut i: usize = 0;
    while i < 32
        invariant
            i <= 32,
            forall|j: int| 0 <= j < i ==> a@[j] == b@[j],
        decreases 32 - i,
    {
        if a[i] != b[i] {
            return false;
        }
        i = i + 1;
    }
    assert(a@ =~= b@);
    true
}

/// A map from 32-byte keys, such as public keys, to values.
#[derive(Debug)]
pub struct KeyMap<T> {
    keys: Vec<[u8; 32]>,
    values: Vec<T>,
}

spec fn at(keys: Seq<[u8; 32]>, i: int, key: Seq<u8>) -> bool {
    0 <= i < keys.len() && keys[i]@ == key
}

spec fn holds_key(keys: Seq<[u8; 32]>, key: Seq<u8>) -> bool {
    exists|i: int| at(keys, i, key)
}

spec fn place(keys: Seq<[u8; 32]>, key: Seq<u8>) -> int {
    choose|i: int| at(keys, i, key)
}

spec fn distinct(keys: Seq<[u8; 32]>) -> bool {
    forall|i: int, j: int| 0 <= i < j < keys.len() ==> keys[i]@ != keys[j]@
}

spec fn as_map<T>(keys: Seq<[u8; 32]>, values: Seq<T>) -> Map<Seq<u8>, T> {
    Map::new(|k: Seq<u8>| holds_key(keys, k), |k: Seq<u8>| values[place(keys, k)])
}

proof fn lemma_place(keys: Seq<[u8; 32]>, i: int)
    requires
        distinct(keys),
        0 <= i < keys.len(),
    ensures
        holds_key(keys, keys[i]@),
        place(keys, keys[i]@) == i,
{
    assert(at(keys, i, keys[i]@));
    let p = place(keys, keys[i]@);
    assert(at(keys, p, keys[i]@));
    if p < i {
        assert(keys[p]@ != keys[i]@);
    } else if i < p {
        assert(keys[i]@ != keys[p]@);
    }
}

impl<T> View for KeyMap<T> {
    type V = Map<Seq<u8>, T>;

    closed spec fn view(&self) -> Map<Seq<u8>, T> {
        as_map(self.keys@, self.values@)
    }
}

impl<T> KeyMap<T> {
    /// Every key occurs once and has one value.
    pub closed spec fn wf(&self) -> bool {
        distinct(self.keys@) && self.keys@.len() == self.values@.len()
    }

    /// The keys in the order in which they are kept.
    pub closed spec fn order(&self) -> Seq<Seq<u8>> {
        Seq::new(self.keys@.len(), |i: int| self.keys@[i]@)
    }

    pub fn new() -> (m: KeyMap<T>)
        ensures
            m.wf(),
            m@ == Map::<Seq<u8>, T>::empty(),
    {
        let m: KeyMap<T> = KeyMap { keys: Vec::new(), values: Vec::new() };
        assert(m@ =~= Map::<Seq<u8>, T>::empty());
        m
    }

    /// The place of a key, if it is there.
    pub fn find(&self, key: &[u8; 32]) -> (r: Option<usize>)
        requires
            self.wf(),
        ensures
            match r {
                Some(i) => {
                    &&& i < self.order().len()
                    &&& self.order()[i as int] == key@
                    &&& self@.contains_key(key@)
                },
                None => !self@.contains_key(key@),
            },
    {
        let mut i: usize = 0;
        while i < self.keys.len()
            invariant
                i <= self.keys@.len(),
                self.wf(),
                forall|j: int| 0 <= j < i ==> (#[trigger] self.keys@[j])@ != key@,
            decreases self.keys@.len() - i,
        {
            if same_key(&self.keys[i], key) {
                proof {
                    lemma_place(self.keys@, i as int);
                }
                return Some(i);
            }
            i = i + 1;
        }
        None
    }

    /// The number of keys.
    pub fn len(&self) -> (n: usize)
        requires
            self.wf(),
        ensures
            n == self.order().len(),
            self@.dom().finite(),
            n == self@.dom().len(),
    {
        proof {
            lemma_len(self.keys@, self.values@);
        }
        self.keys.len()
    }

    /// The key at a place.
    pub fn key(&self, i: usize) -> (k: &[u8; 32])
        requires
            i < self.order().len(),
        ensures
            k@ == self.order()[i as int],
    {
        &self.keys[i]
    }

    /// The value at a place.
    pub fn value(&self, i: usize) -> (v: &T)
        requires
            self.wf(),
            i < self.order().len(),
        ensures
            self@.contains_key(self.order()[i as int]),
            *v == self@[self.order()[i as int]],
    {
        proof {
            lemma_place(self.keys@, i as int);
        }
        &self.values[i]
    }

    /// The value at a place, for change.
    pub fn value_mut(&mut self, i: usize) -> (v: &mut T)
        requires
            old(self).wf(),
            i < old(self).order().len(),
        ensures
            final(self).wf(),
            final(self).order() == old(self).order(),
            *v == old(self)@[old(self).order()[i as int]],
            final(self)@ == old(self)@.insert(old(self).order()[i as int], *final(v)),
    {
        proof {
            let keys = self.keys@;
            let values = self.values@;
            lemma_place(keys, i as int);
            assert forall|x: T|
                as_map(keys, #[trigger] values.update(i as int, x)) == as_map(keys, values).insert(
                    keys[i as int]@,
                    x,
                ) by {
                let a = as_map(keys, values.update(i as int, x));
                let b = as_map(keys, values).insert(keys[i as int]@, x);
                assert forall|k: Seq<u8>| a.contains_key(k) implies a[k] == b[k] by {
                    assert(at(keys, place(keys, k), k));
                }
                assert(a =~= b);
            }
        }
        &mut self.values[i]
    }

    /// Set the value of a key.
    pub fn insert(&mut self, key: [u8; 32], value: T)
        requires
            old(self).wf(),
        ensures
            final(self).wf(),
            final(self)@ == old(self)@.insert(key@, value),
    {
        let ghost before = *self;
        match self.find(&key) {
            Some(i) => {
                *self.value_mut(i) = value;
            },
            None => {
                self.keys.push(key);
                self.values.push(value);
                proof {
                    lemma_pushed(before.keys@, before.values@, key, value);
                }
            },
        }
    }

    /// Remove a key, if it is there.
    pub fn remove(&mut self, key: &[u8; 32])
        requires
            old(self).wf(),
        ensures
            final(self).wf(),
            final(self)@ == old(self)@.remove(key@),
    {
        let ghost before = *self;
        match self.find(key) {
            Some(i) => {
                let _ = self.keys.remove(i);
                let _ = self.values.remove(i);
                proof {
                    lemma_removed(before.keys@, before.values@, i as int);
                }
            },
            None => {
                assert(self@ =~= self@.remove(key@));
            },
        }
    }

    /// The places of a map cover its keys, each once.
    pub proof fn lemma_order(&self)
        requires
            self.wf(),
        ensures
            forall|i: int|
                0 <= i < self.order().len() ==> self@.contains_key(#[trigger] self.order()[i]),
            forall|k: Seq<u8>| self@.contains_key(k) ==> self.order().contains(k),
            forall|i: int, j: int|
                0 <= i < j < self.order().len() ==> self.order()[i] != self.order()[j],
    {
        assert forall|i: int| 0 <= i < self.order().len() implies self@.contains_key(
            #[trigger] self.order()[i],
        ) by {
            lemma_place(self.keys@, i);
        }
        assert forall|k: Seq<u8>| self@.contains_key(k) implies self.order().contains(k) by {
            let i = place(self.keys@, k);
            assert(at(self.keys@, i, k));
            assert(self.order()[i] == k);
        }
    }
}

proof fn lemma_len<T>(keys: Seq<[u8; 32]>, values: Seq<T>)
    requires
        distinct(keys),
        keys.len() == values.len(),
    ensures
        as_map(keys, values).dom().finite(),
        as_map(keys, values).dom().len() == keys.len(),
    decreases keys.len(),
{
    if keys.len() == 0 {
        assert(as_map(keys, values).dom() =~= Set::empty());
    } else {
        let ks = keys.drop_last();
        let vs = values.drop_last();
        lemma_len(ks, vs);
        if holds_key(ks, keys.last()@) {
            let i = place(ks, keys.last()@);
            assert(at(ks, i, keys.last()@));
            assert(keys[i]@ != keys[keys.len() - 1]@);
        }
        lemma_pushed(ks, vs, keys.last(), values.last());
        assert(ks.push(keys.last()) =~= keys);
        assert(vs.push(values.last()) =~= values);
    }
}

proof fn lemma_pushed<T>(keys: Seq<[u8; 32]>, values: Seq<T>, key: [u8; 32], value: T)
    requires
        distinct(keys),
        keys.len() == values.len(),
        !holds_key(keys, key@),
    ensures
        distinct(keys.push(key)),
        as_map(keys.push(key), values.push(value)) == as_map(keys, values).insert(key@, value),
{
    let more = keys.push(key);
    assert forall|i: int, j: int| 0 <= i < j < more.len() implies more[i]@ != more[j]@ by {
        if j == keys.len() {
            assert(!at(keys, i, key@));
        } else {
            assert(keys[i]@ != keys[j]@);
        }
    }
    let a = as_map(more, values.push(value));
    let b = as_map(keys, values).insert(key@, value);
    lemma_place(more, keys.len() as int);
    assert forall|k: Seq<u8>| k != key@ implies holds_key(more, k) == holds_key(keys, k) && (holds_key(keys, k)
        ==> place(more, k) == place(keys, k)) by {
        if holds_key(keys, k) {
            let i = place(keys, k);
            assert(at(keys, i, k));
            assert(more[i] == keys[i]);
            lemma_place(more, i);
        }
        if holds_key(more, k) {
            let i = place(more, k);
            assert(at(more, i, k));
            assert(at(keys, i, k));
        }
    }
    assert forall|k: Seq<u8>| holds_key(keys, k) implies place(keys, k) < values.len() && place(keys, k)
        >= 0 by {
        assert(at(keys, place(keys, k), k));
    }
    assert(a =~= b);
}

proof fn lemma_removed<T>(keys: Seq<[u8; 32]>, values: Seq<T>, i: int)
    requires
        distinct(keys),
        keys.len() == values.len(),
        0 <= i < keys.len(),
    ensures
        distinct(keys.remove(i)),
        as_map(keys.remove(i), values.remove(i)) == as_map(keys, values).remove(keys[i]@),
{
    let less = keys.remove(i);
    assert forall|a: int, b: int| 0 <= a < b < less.len() implies less[a]@ != less[b]@ by {
        let x = if a < i {
            a
        } else {
            a + 1
        };
        let y = if b < i {
            b
        } else {
            b + 1
        };
        assert(keys[x]@ != keys[y]@);
    }
    let a = as_map(less, values.remove(i));
    let b = as_map(keys, values).remove(keys[i]@);
    assert forall|k: Seq<u8>| #[trigger] a.dom().contains(k) implies b.dom().contains(k) && a[k]
        == b[k] by {
        let p = place(less, k);
        assert(at(less, p, k));
        let q = if p < i {
            p
        } else {
            p + 1
        };
        lemma_place(keys, q);
        lemma_place(keys, i);
    }
    assert forall|k: Seq<u8>| #[trigger] b.dom().contains(k) implies a.dom().contains(k) by {
        let q = place(keys, k);
        assert(at(keys, q, k));
        let p = if q < i {
            q
        } else {
            q - 1
        };
        assert(at(less, p, k));
    }
    assert(a =~= b);
}

} // verus!
