//! A map with text keys that keeps the order in which its keys came.
use vstd::prelude::*;
use crate::text::{holds_text, lemma_views_push, same, views};

verus! {

#[derive(Debug)]
pub struct TextMap<V> {
    keys: Vec<String>,
    values: Vec<V>,
}

/// The place of a key among the keys.
pub open spec fn place(keys: Seq<Seq<char>>, key: Seq<char>) -> int {
    choose|i: int| 0 <= i < keys.len() && keys[i] == key
}

proof fn lemma_place(keys: Seq<Seq<char>>, i: int)
    requires
        keys.no_duplicates(),
        0 <= i < keys.len(),
    ensures
        place(keys, keys[i]) == i,
{
}

/// A map to texts, by what the texts hold.
pub open spec fn texts_of(map: Map<Seq<char>, String>) -> Map<Seq<char>, Seq<char>> {
    map.map_values(|text: String| text@)
}

pub proof fn lemma_texts_of_insert(map: Map<Seq<char>, String>, key: Seq<char>, value: String)
    ensures
        texts_of(map.insert(key, value)) == texts_of(map).insert(key, value@),
{
    assert(texts_of(map.insert(key, value)) =~= texts_of(map).insert(key, value@));
}

impl<V> View for TextMap<V> {
    type V = Map<Seq<char>, V>;

    closed spec fn view(&self) -> Map<Seq<char>, V> {
        Map::new(
            |key: Seq<char>| self.order().contains(key),
            |key: Seq<char>| self.values@[place(self.order(), key)],
        )
    }
}

impl<V> TextMap<V> {
    /// The keys in the order in which they came.
    pub closed spec fn order(self) -> Seq<Seq<char>> {
        views(self.keys@)
    }

    /// Every key stands once and has a value.
    pub closed spec fn wf(self) -> bool {
        &&& self.keys@.len() == self.values@.len()
        &&& self.order().no_duplicates()
    }

    /// The keys of the order are those of the map, each once.
    pub proof fn lemma_order(self)
        requires
            self.wf(),
        ensures
            self.order().no_duplicates(),
            forall|key: Seq<char>|
                #![auto]
                self@.contains_key(key) <==> self.order().contains(key),
            forall|i: int| 0 <= i < self.order().len() ==> self@.contains_key(#[trigger] self.order()[i]),
    {
    }

    pub fn new() -> (map: Self)
        ensures
            map.wf(),
            map@ == Map::<Seq<char>, V>::empty(),
            map.order() == Seq::<Seq<char>>::empty(),
    {
        let map = TextMap { keys: Vec::new(), values: Vec::new() };
        assert(map.order() =~= Seq::<Seq<char>>::empty());
        assert(map@ =~= Map::<Seq<char>, V>::empty());
        map
    }

    pub fn len(&self) -> (n: usize)
        requires
            self.wf(),
        ensures
            n == self.order().len(),
    {
        self.keys.len()
    }

    pub fn is_empty(&self) -> (r: bool)
        requires
            self.wf(),
        ensures
            r <==> self.order().len() == 0,
            r <==> self@ == Map::<Seq<char>, V>::empty(),
    {
        proof {
            if self.keys@.len() == 0 {
                assert(self@ =~= Map::<Seq<char>, V>::empty());
            } else {
                assert(self@.contains_key(self.order()[0]));
            }
        }
        self.keys.len() == 0
    }

    /// The key at a place of the order.
    pub fn key_at(&self, i: usize) -> (key: &String)
        requires
            self.wf(),
            i < self.order().len(),
        ensures
            key@ == self.order()[i as int],
    {
        &self.keys[i]
    }

    /// The value at a place of the order.
    pub fn value_at(&self, i: usize) -> (value: &V)
        requires
            self.wf(),
            i < self.order().len(),
        ensures
            *value == self@[self.order()[i as int]],
    {
        proof {
            lemma_place(self.order(), i as int);
        }
        &self.values[i]
    }

    fn find(&self, key: &str) -> (r: Option<usize>)
        requires
            self.wf(),
        ensures
            match r {
                Some(i) => i < self.keys@.len() && self.keys@[i as int]@ == key@
                    && self@.contains_key(key@) && self@[key@] == self.values@[i as int],
                None => !self@.contains_key(key@),
            },
    {
        let mut i: usize = 0;
        while i < self.keys.len()
            invariant
                self.wf(),
                i <= self.keys.len(),
                forall|j: int| 0 <= j < i ==> #[trigger] self.keys@[j]@ != key@,
            decreases self.keys.len() - i,
        {
            if same(self.keys[i].as_str(), key) {
                proof {
                    assert(self.order()[i as int] == key@);
                    lemma_place(self.order(), i as int);
                }
                return Some(i);
            }
            i = i + 1;
        }
        assert(!self.order().contains(key@)) by {
            if self.order().contains(key@) {
                let j = choose|j: int| 0 <= j < self.order().len() && self.order()[j] == key@;
                assert(self.keys@[j]@ == key@);
            }
        }
        None
    }

    pub fn get(&self, key: &str) -> (r: Option<&V>)
        requires
            self.wf(),
        ensures
            match r {
                Some(value) => self@.contains_key(key@) && *value == self@[key@],
                None => !self@.contains_key(key@),
            },
    {
        match self.find(key) {
            Some(i) => Some(&self.values[i]),
            None => None,
        }
    }

    pub fn contains_key(&self, key: &str) -> (r: bool)
        requires
            self.wf(),
        ensures
            r == self@.contains_key(key@),
    {
        self.find(key).is_some()
    }

    /// Puts a value under a key. A new key comes last; a known key keeps its
    /// place.
    pub fn insert(&mut self, key: String, value: V)
        requires
            old(self).wf(),
        ensures
            final(self).wf(),
            final(self)@ == old(self)@.insert(key@, value),
            final(self).order() == (if old(self)@.contains_key(key@) {
                old(self).order()
            } else {
                old(self).order().push(key@)
            }),
    {
        match self.find(key.as_str()) {
            Some(i) => {
                let ghost before = *self;
                self.values.set(i, value);
                proof {
                    assert(self.order() == before.order());
                    lemma_place(self.order(), i as int);
                    assert(self.order()[i as int] == key@);
                    assert forall|k: Seq<char>| self@.contains_key(k) implies #[trigger] self@[k]
                        == before@.insert(key@, value)[k] by {
                        let j = place(self.order(), k);
                        assert(self.order().contains(k));
                        assert(0 <= j < self.order().len() && self.order()[j] == k);
                    }
                    assert(self@ =~= before@.insert(key@, value));
                }
            },
            None => {
                let ghost before = *self;
                proof {
                    lemma_views_push(self.keys@, key);
                }
                self.keys.push(key);
                self.values.push(value);
                proof {
                    let o = self.order();
                    assert(o == before.order().push(key@));
                    assert(o.no_duplicates()) by {
                        assert forall|i: int, j: int|
                            0 <= i < o.len() && 0 <= j < o.len() && i != j implies o[i] != o[j] by {
                            if i == o.len() - 1 {
                                assert(before.order().contains(o[j]));
                            } else if j == o.len() - 1 {
                                assert(before.order().contains(o[i]));
                            }
                        }
                    }
                    assert(o[o.len() - 1] == key@);
                    assert forall|k: Seq<char>| self@.contains_key(k) <==> #[trigger] before@.insert(
                        key@,
                        value,
                    ).contains_key(k) by {
                        if before.order().contains(k) {
                            let j = place(before.order(), k);
                            assert(o[j] == k);
                        }
                        if o.contains(k) {
                            let j = place(o, k);
                            if j < before.order().len() {
                                assert(before.order()[j] == k);
                            }
                        }
                    }
                    assert forall|k: Seq<char>| self@.contains_key(k) implies #[trigger] self@[k]
                        == before@.insert(key@, value)[k] by {
                        let j = place(o, k);
                        assert(o.contains(k));
                        assert(0 <= j < o.len() && o[j] == k);
                        if j < before.order().len() {
                            assert(before.order()[j] == k);
                            lemma_place(before.order(), j);
                        }
                    }
                    assert(self@ =~= before@.insert(key@, value));
                }
            },
        }
    }

    /// Takes the key at a place out.
    fn remove_at(&mut self, i: usize) -> (value: V)
        requires
            old(self).wf(),
            i < old(self).keys@.len(),
        ensures
            final(self).wf(),
            final(self).keys@ == old(self).keys@.remove(i as int),
            final(self)@ == old(self)@.remove(old(self).order()[i as int]),
            value == old(self).values@[i as int],
            forall|k: Seq<char>| #[trigger] final(self).order().contains(k) ==> old(self).order().contains(k),
    {
        let ghost before = *self;
        let ghost key = before.order()[i as int];
        let value = self.values.remove(i);
        let _ = self.keys.remove(i);
        proof {
            let o = self.order();
            let b = before.order();
            assert(o =~= b.remove(i as int));
            assert(forall|x: int|
                0 <= x < o.len() ==> #[trigger] o[x] == b[if x < i {
                    x
                } else {
                    x + 1
                }]);
            assert(o.no_duplicates()) by {
                assert forall|x: int, y: int|
                    0 <= x < o.len() && 0 <= y < o.len() && x != y implies o[x] != o[y] by {
                    let bx = if x < i { x } else { x + 1 };
                    let next = if y < i { y } else { y + 1 };
                    assert(o[x] == b[bx] && o[y] == b[next]);
                }
            }
            assert forall|k: Seq<char>| self@.contains_key(k) <==> #[trigger] before@.remove(
                key,
            ).contains_key(k) by {
                if o.contains(k) {
                    let x = place(o, k);
                    let bx = if x < i { x } else { x + 1 };
                    assert(b[bx] == k);
                    assert(bx != i);
                }
                if b.contains(k) && k != key {
                    let x = place(b, k);
                    let ox = if x < i { x } else { x - 1 };
                    assert(o[ox] == k);
                }
            }
            assert forall|k: Seq<char>| self@.contains_key(k) implies #[trigger] self@[k]
                == before@.remove(key)[k] by {
                let x = place(o, k);
                assert(o.contains(k));
                assert(0 <= x < o.len() && o[x] == k);
                let bx = if x < i { x } else { x + 1 };
                assert(b[bx] == k);
                lemma_place(b, bx);
            }
            assert(self@ =~= before@.remove(key));
        }
        value
    }

    /// Takes a key and its value out; the other keys keep their order.
    pub fn remove(&mut self, key: &str) -> (r: Option<V>)
        requires
            old(self).wf(),
        ensures
            final(self).wf(),
            final(self)@ == old(self)@.remove(key@),
            match r {
                Some(value) => old(self)@.contains_key(key@) && value == old(self)@[key@],
                None => !old(self)@.contains_key(key@),
            },
            forall|k: Seq<char>| #[trigger] final(self).order().contains(k) ==> old(self).order().contains(k),
    {
        match self.find(key) {
            Some(i) => {
                let value = self.remove_at(i);
                Some(value)
            },
            None => {
                assert(self@ =~= self@.remove(key@));
                None
            },
        }
    }

    /// Keeps the keys of a list and takes out all others.
    pub fn retain_keys(&mut self, kept: &Vec<String>)
        requires
            old(self).wf(),
        ensures
            final(self).wf(),
            final(self)@ == old(self)@.restrict(views(kept@).to_set()),
    {
        let ghost before = self@;
        let mut i: usize = 0;
        while i < self.keys.len()
            invariant
                self.wf(),
                i <= self.keys@.len(),
                forall|j: int| 0 <= j < i ==> views(kept@).contains(#[trigger] self.keys@[j]@),
                forall|k: Seq<char>| #[trigger] self@.contains_key(k) ==> before.contains_key(k)
                    && self@[k] == before[k],
                forall|k: Seq<char>|
                    #![trigger before.contains_key(k)]
                    before.contains_key(k) && views(kept@).contains(k) ==> self@.contains_key(k),
            decreases self.keys@.len() - i,
        {
            if holds_text(kept, self.keys[i].as_str()) {
                i = i + 1;
            } else {
                let ghost now = *self;
                let key = self.keys[i].clone();
                proof {
                    assert(now.order()[i as int] == key@);
                    lemma_place(now.order(), i as int);
                }
                self.remove_at(i);
                proof {
                    assert forall|k: Seq<char>|
                        #![trigger before.contains_key(k)]
                        before.contains_key(k) && views(kept@).contains(k) implies self@.contains_key(
                        k,
                    ) by {
                        assert(now@.contains_key(k));
                        assert(k != key@);
                    }
                }
            }
        }
        proof {
            let wanted = before.restrict(views(kept@).to_set());
            assert forall|k: Seq<char>| self@.contains_key(k) <==> #[trigger] wanted.contains_key(
                k,
            ) by {
                if self@.contains_key(k) {
                    let j = place(self.order(), k);
                    assert(self.keys@[j]@ == k);
                }
            }
            assert(self@ =~= wanted);
        }
    }

    pub fn clear(&mut self)
        ensures
            final(self).wf(),
            final(self)@ == Map::<Seq<char>, V>::empty(),
            final(self).order() == Seq::<Seq<char>>::empty(),
    {
        self.keys.clear();
        self.values.clear();
        assert(self.order() =~= Seq::<Seq<char>>::empty());
        assert(self@ =~= Map::<Seq<char>, V>::empty());
    }
}

/// The texts of a map stand under the same keys.
pub proof fn law_texts_of(map: Map<Seq<char>, String>, key: Seq<char>)
    ensures
        texts_of(map).contains_key(key) <==> map.contains_key(key),
        map.contains_key(key) ==> texts_of(map)[key] == map[key]@,
{
}

} // verus!
