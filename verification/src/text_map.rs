//! A map from text to values, its entries kept in ascending order of their keys.

use vstd::prelude::*;

use crate::text::{chars_of, copy_strings, texts};

verus! {

// ---------------------------------------------------------------------
// Order of texts
// ---------------------------------------------------------------------

/// Lexicographic order by character.
pub open spec fn text_less(a: Seq<char>, b: Seq<char>) -> bool
    decreases a.len(),
{
    if b.len() == 0 {
        false
    } else if a.len() == 0 {
        true
    } else if a[0] == b[0] {
        text_less(a.drop_first(), b.drop_first())
    } else {
        a[0] < b[0]
    }
}

pub proof fn lemma_less_irreflexive(a: Seq<char>)
    ensures
        !text_less(a, a),
    decreases a.len(),
{
    if a.len() > 0 {
        lemma_less_irreflexive(a.drop_first());
    }
}

pub proof fn lemma_less_transitive(a: Seq<char>, b: Seq<char>, c: Seq<char>)
    requires
        text_less(a, b),
        text_less(b, c),
    ensures
        text_less(a, c),
    decreases a.len(),
{
    if a.len() > 0 {
        if a[0] == b[0] && b[0] == c[0] {
            lemma_less_transitive(a.drop_first(), b.drop_first(), c.drop_first());
        }
    }
}

pub proof fn lemma_less_total(a: Seq<char>, b: Seq<char>)
    ensures
        a == b || text_less(a, b) || text_less(b, a),
    decreases a.len(),
{
    if a.len() == 0 || b.len() == 0 {
        if a.len() == b.len() {
            assert(a =~= b);
        }
    } else if a[0] == b[0] {
        lemma_less_total(a.drop_first(), b.drop_first());
        if a.drop_first() == b.drop_first() {
            assert(a =~= seq![a[0]] + a.drop_first());
            assert(b =~= seq![b[0]] + b.drop_first());
        }
    }
}

pub proof fn lemma_less_asymmetric(a: Seq<char>, b: Seq<char>)
    requires
        text_less(a, b),
    ensures
        !text_less(b, a),
        a != b,
{
    if text_less(b, a) {
        lemma_less_transitive(a, b, a);
    }
    lemma_less_irreflexive(a);
}

/// Whether the first text comes before the second.
pub fn comes_before(a: &[char], b: &[char]) -> (r: bool)
    ensures
        r == text_less(a@, b@),
{
    let mut i: usize = 0;
    proof {
        assert(a@.skip(0) =~= a@);
        assert(b@.skip(0) =~= b@);
    }
    while i < a.len() && i < b.len() && a[i] == b[i]
        invariant
            i <= a.len(),
            i <= b.len(),
            text_less(a@, b@) == text_less(a@.skip(i as int), b@.skip(i as int)),
        decreases a.len() - i,
    {
        proof {
            assert(a@.skip(i as int).drop_first() =~= a@.skip(i + 1));
            assert(b@.skip(i as int).drop_first() =~= b@.skip(i + 1));
        }
        i += 1;
    }
    if i >= b.len() {
        false
    } else if i >= a.len() {
        true
    } else {
        a[i] < b[i]
    }
}

/// Texts in ascending order, none twice.
pub open spec fn ascending(s: Seq<Seq<char>>) -> bool {
    forall|i: int, j: int| 0 <= i < j < s.len() ==> #[trigger] text_less(s[i], s[j])
}

/// In an ascending list every text stands at one place.
pub proof fn lemma_ascending_unique(s: Seq<Seq<char>>, i: int, j: int)
    requires
        ascending(s),
        0 <= i < s.len(),
        0 <= j < s.len(),
        s[i] == s[j],
    ensures
        i == j,
{
    if i < j {
        lemma_less_asymmetric(s[i], s[j]);
    } else if j < i {
        lemma_less_asymmetric(s[j], s[i]);
    }
}

/// Ascending lists with the same texts are the same list.
pub proof fn lemma_ascending_determined(a: Seq<Seq<char>>, b: Seq<Seq<char>>)
    requires
        ascending(a),
        ascending(b),
        forall|t: Seq<char>| #[trigger] a.contains(t) <==> b.contains(t),
    ensures
        a == b,
    decreases a.len(),
{
    if a.len() == 0 {
        if b.len() > 0 {
            assert(b.contains(b[0]));
            assert(a.contains(b[0]));
        }
        assert(a =~= b);
    } else {
        assert(a.contains(a.last()));
        assert(b.contains(a.last()));
        assert(b.contains(b.last()));
        assert(a.contains(b.last()));
        let i = b.index_of(a.last());
        let j = a.index_of(b.last());
        if i < b.len() - 1 {
            assert(text_less(b[i], b[b.len() - 1]));
            if j < a.len() - 1 {
                assert(text_less(a[j], a[a.len() - 1]));
                lemma_less_asymmetric(a.last(), b.last());
            }
        }
        assert(a.last() == b.last());
        let ra = a.drop_last();
        let rb = b.drop_last();
        assert forall|t: Seq<char>| #[trigger] ra.contains(t) <==> rb.contains(t) by {
            if ra.contains(t) {
                let k = ra.index_of(t);
                assert(a[k] == t);
                assert(text_less(a[k], a[a.len() - 1]));
                lemma_less_asymmetric(t, a.last());
                assert(a.contains(t));
                assert(b.contains(t));
                let m = b.index_of(t);
                assert(rb[m] == t);
            }
            if rb.contains(t) {
                let k = rb.index_of(t);
                assert(b[k] == t);
                assert(text_less(b[k], b[b.len() - 1]));
                lemma_less_asymmetric(t, b.last());
                assert(a.contains(t));
                let m = a.index_of(t);
                assert(ra[m] == t);
            }
        }
        assert(ascending(ra)) by {
            assert forall|x: int, y: int| 0 <= x < y < ra.len() implies #[trigger] text_less(
                ra[x],
                ra[y],
            ) by {
                assert(text_less(a[x], a[y]));
            }
        }
        assert(ascending(rb)) by {
            assert forall|x: int, y: int| 0 <= x < y < rb.len() implies #[trigger] text_less(
                rb[x],
                rb[y],
            ) by {
                assert(text_less(b[x], b[y]));
            }
        }
        lemma_ascending_determined(ra, rb);
        assert(a =~= ra.push(a.last()));
        assert(b =~= rb.push(b.last()));
    }
}

// ---------------------------------------------------------------------
// The map
// ---------------------------------------------------------------------

/// A map from text to values. Entries are kept in ascending order of their keys.
#[derive(Debug, PartialEq, Eq)]
pub struct TextMap<V> {
    keys: Vec<String>,
    values: Vec<V>,
}

impl<V> View for TextMap<V> {
    type V = Map<Seq<char>, V>;

    closed spec fn view(&self) -> Map<Seq<char>, V> {
        entries_map(texts(self.keys@), self.values@)
    }
}

/// The map that holds `values[i]` under `names[i]`.
pub open spec fn entries_map<V>(names: Seq<Seq<char>>, values: Seq<V>) -> Map<Seq<char>, V> {
    Map::new(|k: Seq<char>| names.contains(k), |k: Seq<char>| values[names.index_of(k)])
}

/// What `entries_map` holds for ascending names.
pub proof fn lemma_entries_map<V>(names: Seq<Seq<char>>, values: Seq<V>, i: int)
    requires
        ascending(names),
        0 <= i < names.len(),
    ensures
        entries_map(names, values).contains_key(names[i]),
        entries_map(names, values)[names[i]] == values[i],
{
    assert(names.contains(names[i]));
    lemma_ascending_unique(names, names.index_of(names[i]), i);
}

impl<V> TextMap<V> {
    #[verifier::type_invariant]
    spec fn inv(self) -> bool {
        self.keys@.len() == self.values@.len() && ascending(texts(self.keys@))
    }

    /// The keys in ascending order.
    pub closed spec fn names(&self) -> Seq<Seq<char>> {
        texts(self.keys@)
    }

    /// A map without entries.
    pub fn new() -> (r: Self)
        ensures
            r@ == Map::<Seq<char>, V>::empty(),
            r.names() == Seq::<Seq<char>>::empty(),
    {
        let r = TextMap { keys: Vec::new(), values: Vec::new() };
        proof {
            assert(r@ =~= Map::<Seq<char>, V>::empty());
            assert(r.names() =~= Seq::<Seq<char>>::empty());
        }
        r
    }

    /// Number of entries. The keys of the map are the names, each once.
    pub fn len(&self) -> (r: usize)
        ensures
            r == self.names().len(),
            ascending(self.names()),
            forall|k: Seq<char>| #[trigger] self@.contains_key(k) <==> self.names().contains(k),
    {
        proof {
            use_type_invariant(&*self);
        }
        self.keys.len()
    }

    /// Whether the map has no entries.
    pub fn is_empty(&self) -> (r: bool)
        ensures
            r == (self@ == Map::<Seq<char>, V>::empty()),
            r == (self.names().len() == 0),
    {
        proof {
            use_type_invariant(&*self);
            if self.keys@.len() > 0 {
                assert(self.names().contains(self.names()[0]));
                assert(self@.contains_key(self.names()[0]));
            } else {
                assert(self@ =~= Map::<Seq<char>, V>::empty());
            }
        }
        self.keys.len() == 0
    }

    /// Where a key stands, or where it would have to be inserted.
    fn seek(&self, key: &str) -> (r: (bool, usize))
        ensures
            r.1 <= self.keys@.len(),
            r.0 ==> r.1 < self.keys@.len() && self.names()[r.1 as int] == key@,
            !r.0 ==> !self.names().contains(key@),
            forall|i: int| 0 <= i < r.1 ==> text_less(#[trigger] self.names()[i], key@),
            !r.0 ==> forall|i: int|
                r.1 <= i < self.keys@.len() ==> text_less(key@, #[trigger] self.names()[i]),
    {
        proof {
            use_type_invariant(&*self);
        }
        let wanted = chars_of(key);
        let mut i: usize = 0;
        while i < self.keys.len()
            invariant
                i <= self.keys@.len(),
                wanted@ == key@,
                ascending(self.names()),
                self.names() == texts(self.keys@),
                forall|j: int| 0 <= j < i ==> text_less(#[trigger] self.names()[j], key@),
            decreases self.keys@.len() - i,
        {
            let here = chars_of(self.keys[i].as_str());
            if !comes_before(here.as_slice(), wanted.as_slice()) {
                let found = !comes_before(wanted.as_slice(), here.as_slice());
                proof {
                    assert(here@ == self.names()[i as int]);
                    lemma_less_total(here@, wanted@);
                    if found {
                        assert(here@ == key@);
                    } else {
                        assert forall|j: int| i <= j < self.keys@.len() implies text_less(
                            key@,
                            #[trigger] self.names()[j],
                        ) by {
                            if i < j {
                                lemma_less_transitive(
                                    key@,
                                    self.names()[i as int],
                                    self.names()[j],
                                );
                            }
                        }
                        assert forall|j: int| 0 <= j < self.names().len() implies self.names()[j]
                            != key@ by {
                            if j < i {
                                lemma_less_asymmetric(self.names()[j], key@);
                            } else {
                                lemma_less_asymmetric(key@, self.names()[j]);
                            }
                        }
                    }
                }
                return (found, i);
            }
            i += 1;
        }
        proof {
            assert forall|j: int| 0 <= j < self.names().len() implies self.names()[j] != key@ by {
                lemma_less_asymmetric(self.names()[j], key@);
            }
        }
        (false, i)
    }

    /// The value under a key.
    pub fn get(&self, key: &str) -> (r: Option<&V>)
        ensures
            match r {
                Some(v) => self@.contains_key(key@) && *v == self@[key@],
                None => !self@.contains_key(key@),
            },
    {
        let (found, at) = self.seek(key);
        proof {
            use_type_invariant(&*self);
        }
        if found {
            proof {
                lemma_entries_map(self.names(), self.values@, at as int);
            }
            Some(&self.values[at])
        } else {
            None
        }
    }

    /// Whether the map has a value under a key.
    pub fn contains_key(&self, key: &str) -> (r: bool)
        ensures
            r == self@.contains_key(key@),
    {
        self.get(key).is_some()
    }

    /// Puts a value under a key, in place of the one that was there.
    pub fn insert(&mut self, key: String, value: V)
        ensures
            final(self)@ == old(self)@.insert(key@, value),
    {
        let (found, at) = self.seek(key.as_str());
        proof {
            use_type_invariant(&*self);
        }
        let ghost names = self.names();
        let ghost vals = self.values@;
        let mut whole = TextMap::new();
        std::mem::swap(&mut whole, self);
        let mut keys = whole.keys;
        let mut values = whole.values;
        if found {
            values.set(at, value);
            proof {
                assert forall|k: Seq<char>| entries_map(names, vals).insert(
                    key@,
                    value,
                ).contains_key(k) implies entries_map(names, values@)[k] == entries_map(
                    names,
                    vals,
                ).insert(key@, value)[k] by {
                    if k == key@ {
                        lemma_entries_map(names, values@, at as int);
                    } else {
                        let i = names.index_of(k);
                        if i == at {
                            assert(names[i] == k);
                        }
                    }
                }
                assert(entries_map(names, values@) =~= entries_map(names, vals).insert(
                    key@,
                    value,
                ));
            }
        } else {
            let ghost k0 = key@;
            keys.insert(at, key);
            values.insert(at, value);
            proof {
                let after = texts(keys@);
                assert(after =~= names.insert(at as int, k0));
                assert forall|i: int, j: int| 0 <= i < j < after.len() implies #[trigger] text_less(
                    after[i],
                    after[j],
                ) by {
                    let i0 = if i < at {
                        i
                    } else {
                        i - 1
                    };
                    let j0 = if j < at {
                        j
                    } else {
                        j - 1
                    };
                    if i != at && j != at {
                        assert(text_less(names[i0], names[j0]));
                    }
                }
                assert forall|k: Seq<char>|
                    #![trigger after.contains(k)]
                    after.contains(k) <==> (names.contains(k) || k == k0) by {
                    if names.contains(k) {
                        let i = names.index_of(k);
                        let i1 = if i < at {
                            i
                        } else {
                            i + 1
                        };
                        assert(after[i1] == k);
                    }
                    if k == k0 {
                        assert(after[at as int] == k);
                    }
                    if after.contains(k) {
                        let i1 = after.index_of(k);
                        if i1 != at {
                            let i = if i1 < at {
                                i1
                            } else {
                                i1 - 1
                            };
                            assert(names[i] == k);
                        }
                    }
                }
                assert forall|k: Seq<char>| entries_map(names, vals).insert(
                    k0,
                    value,
                ).contains_key(k) implies entries_map(after, values@)[k] == entries_map(
                    names,
                    vals,
                ).insert(k0, value)[k] by {
                    if k == k0 {
                        lemma_entries_map(after, values@, at as int);
                    } else {
                        let i = names.index_of(k);
                        let i1 = if i < at {
                            i
                        } else {
                            i + 1
                        };
                        assert(after[i1] == k);
                        lemma_entries_map(after, values@, i1);
                        lemma_entries_map(names, vals, i);
                    }
                }
                assert(entries_map(after, values@) =~= entries_map(names, vals).insert(k0, value));
            }
        }
        *self = TextMap { keys, values };
    }

    /// Takes the entry under a key out of the map.
    pub fn remove(&mut self, key: &str) -> (r: Option<V>)
        ensures
            final(self)@ == old(self)@.remove(key@),
            match r {
                Some(v) => old(self)@.contains_key(key@) && v == old(self)@[key@],
                None => !old(self)@.contains_key(key@),
            },
    {
        let (found, at) = self.seek(key);
        proof {
            use_type_invariant(&*self);
        }
        if !found {
            proof {
                assert(self@.remove(key@) =~= self@);
            }
            return None;
        }
        let ghost names = self.names();
        let ghost vals = self.values@;
        let mut whole = TextMap::new();
        std::mem::swap(&mut whole, self);
        let mut keys = whole.keys;
        let mut values = whole.values;
        keys.remove(at);
        let value = values.remove(at);
        proof {
            lemma_entries_map(names, vals, at as int);
            let after = texts(keys@);
            assert(after =~= names.remove(at as int));
            assert forall|i: int, j: int| 0 <= i < j < after.len() implies #[trigger] text_less(
                after[i],
                after[j],
            ) by {
                let i1 = if i < at {
                    i
                } else {
                    i + 1
                };
                let j1 = if j < at {
                    j
                } else {
                    j + 1
                };
                assert(text_less(names[i1], names[j1]));
            }
            assert forall|k: Seq<char>|
                #![trigger after.contains(k)]
                after.contains(k) <==> (names.contains(k) && k != key@) by {
                if names.contains(k) && k != key@ {
                    let i1 = names.index_of(k);
                    let i = if i1 < at {
                        i1
                    } else {
                        i1 - 1
                    };
                    assert(after[i] == k);
                }
                if after.contains(k) {
                    let i = after.index_of(k);
                    let i1 = if i < at {
                        i
                    } else {
                        i + 1
                    };
                    assert(names[i1] == k);
                    if k == key@ {
                        lemma_ascending_unique(names, i1, at as int);
                    }
                }
            }
            assert forall|k: Seq<char>| entries_map(names, vals).remove(key@).contains_key(
                k,
            ) implies entries_map(after, values@)[k] == entries_map(names, vals)[k] by {
                let i1 = names.index_of(k);
                let i = if i1 < at {
                    i1
                } else {
                    i1 - 1
                };
                assert(after[i] == k);
                lemma_entries_map(after, values@, i);
            }
            assert(entries_map(after, values@) =~= entries_map(names, vals).remove(key@));
        }
        *self = TextMap { keys, values };
        Some(value)
    }

    /// The key at a place in the ascending order.
    pub fn key_at(&self, i: usize) -> (r: &String)
        requires
            i < self.names().len(),
        ensures
            r@ == self.names()[i as int],
            self@.contains_key(r@),
    {
        proof {
            use_type_invariant(&*self);
            lemma_entries_map(self.names(), self.values@, i as int);
        }
        &self.keys[i]
    }

    /// The value at a place in the ascending order of the keys.
    pub fn value_at(&self, i: usize) -> (r: &V)
        requires
            i < self.names().len(),
        ensures
            *r == self@[self.names()[i as int]],
    {
        proof {
            use_type_invariant(&*self);
            lemma_entries_map(self.names(), self.values@, i as int);
        }
        &self.values[i]
    }

    /// Keys and values in ascending order of the keys.
    pub fn into_parts(self) -> (r: (Vec<String>, Vec<V>))
        ensures
            texts(r.0@) == self.names(),
            r.1@.len() == r.0@.len(),
            ascending(self.names()),
            forall|i: int|
                0 <= i < r.1@.len() ==> #[trigger] r.1@[i] == self@[self.names()[i]],
            self@ == entries_map(texts(r.0@), r.1@),
    {
        proof {
            use_type_invariant(&self);
            assert forall|i: int| 0 <= i < self.values@.len() implies #[trigger] self.values@[i]
                == self@[self.names()[i]] by {
                lemma_entries_map(self.names(), self.values@, i);
            }
        }
        (self.keys, self.values)
    }

    /// Puts every entry of another map into this one; where both have a key, the
    /// other's value stays.
    pub fn extend(&mut self, other: TextMap<V>)
        ensures
            final(self)@ == old(self)@.union_prefer_right(other@),
    {
        let ghost names = other.names();
        let (mut keys, mut values) = other.into_parts();
        let ghost vals = values@;
        proof {
            assert(self@ =~= self@.union_prefer_right(
                entries_map(names.skip(names.len() as int), vals.skip(names.len() as int)),
            ));
            assert(names.len() == vals.len());
        }
        while keys.len() > 0
            invariant
                keys@.len() == values@.len(),
                keys@.len() <= names.len(),
                names.len() == vals.len(),
                ascending(names),
                texts(keys@) =~= names.take(keys@.len() as int),
                values@ =~= vals.take(keys@.len() as int),
                self@ == old(self)@.union_prefer_right(
                    entries_map(names.skip(keys@.len() as int), vals.skip(keys@.len() as int)),
                ),
            decreases keys@.len(),
        {
            let ghost n = keys@.len() as int;
            let ghost held_keys = keys@;
            let key = keys.pop().unwrap();
            let value = values.pop().unwrap();
            let ghost held = self@;
            proof {
                assert(texts(held_keys)[n - 1] == key@);
                assert(key@ == names[n - 1]);
                lemma_entries_extend(names, vals, n);
                assert(held.insert(key@, value) =~= old(self)@.union_prefer_right(
                    entries_map(names.skip(n - 1), vals.skip(n - 1)),
                ));
                assert(texts(keys@) =~= names.take(n - 1));
            }
            self.insert(key, value);
        }
        proof {
            assert(names.skip(0) =~= names);
            assert(vals.skip(0) =~= vals);
        }
    }
}

impl<V: Clone> Clone for TextMap<V> {
    fn clone(&self) -> (r: Self)
        ensures
            r.names() == self.names(),
            r@.dom() == self@.dom(),
            forall|k: Seq<char>| #[trigger]
                self@.contains_key(k) ==> cloned(self@[k], r@[k]),
    {
        proof {
            use_type_invariant(&*self);
        }
        let keys = copy_strings(&self.keys);
        let values = self.values.clone();
        let r = TextMap { keys, values };
        proof {
            assert(r@.dom() =~= self@.dom());
            assert forall|k: Seq<char>| #[trigger] self@.contains_key(k) implies cloned(
                self@[k],
                r@[k],
            ) by {
                let i = self.names().index_of(k);
                assert(cloned(self.values@[i], r.values@[i]));
            }
        }
        r
    }
}

/// One more entry in front of a run of entries.
pub proof fn lemma_entries_extend<V>(names: Seq<Seq<char>>, vals: Seq<V>, n: int)
    requires
        ascending(names),
        names.len() == vals.len(),
        0 < n <= names.len(),
    ensures
        entries_map(names.skip(n - 1), vals.skip(n - 1)) =~= entries_map(
            names.skip(n),
            vals.skip(n),
        ).insert(names[n - 1], vals[n - 1]),
{
    let long = names.skip(n - 1);
    let short = names.skip(n);
    let lv = vals.skip(n - 1);
    let sv = vals.skip(n);
    assert(ascending(long)) by {
        assert forall|i: int, j: int| 0 <= i < j < long.len() implies #[trigger] text_less(
            long[i],
            long[j],
        ) by {
            assert(text_less(names[i + n - 1], names[j + n - 1]));
        }
    }
    assert(ascending(short)) by {
        assert forall|i: int, j: int| 0 <= i < j < short.len() implies #[trigger] text_less(
            short[i],
            short[j],
        ) by {
            assert(text_less(names[i + n], names[j + n]));
        }
    }
    assert forall|k: Seq<char>|
        #![trigger long.contains(k)]
        long.contains(k) <==> (short.contains(k) || k == names[n - 1]) by {
        if long.contains(k) {
            let i = long.index_of(k);
            if i > 0 {
                assert(short[i - 1] == k);
            }
        }
        if short.contains(k) {
            let i = short.index_of(k);
            assert(long[i + 1] == k);
        }
        if k == names[n - 1] {
            assert(long[0] == k);
        }
    }
    assert forall|k: Seq<char>| long.contains(k) implies entries_map(long, lv)[k] == entries_map(
        short,
        sv,
    ).insert(names[n - 1], vals[n - 1])[k] by {
        let i = long.index_of(k);
        lemma_entries_map(long, lv, i);
        if k == names[n - 1] {
            lemma_entries_map(long, lv, 0);
        } else {
            assert(i > 0);
            assert(short[i - 1] == k);
            lemma_entries_map(short, sv, i - 1);
        }
    }
}

/// Texts are ordered as words in a dictionary: at the first index at which they
/// differ the smaller character decides, and a text stands before its
/// continuations.
pub proof fn texts_are_ordered_like_words(front: Seq<char>, a: Seq<char>, b: Seq<char>)
    ensures
        b.len() > 0 ==> text_less(front, front + b),
        !text_less(front + b, front),
        a.len() > 0 && b.len() > 0 && a[0] < b[0] ==> text_less(front + a, front + b),
        a.len() > 0 && b.len() > 0 && a[0] > b[0] ==> !text_less(front + a, front + b),
    decreases front.len(),
{
    if front.len() == 0 {
        assert(front + a =~= a);
        assert(front + b =~= b);
    } else {
        let rest = front.drop_first();
        texts_are_ordered_like_words(rest, a, b);
        assert((front + a).drop_first() =~= rest + a);
        assert((front + b).drop_first() =~= rest + b);
        assert((front + a)[0] == front[0] && (front + b)[0] == front[0]);
    }
}

} // verus!
