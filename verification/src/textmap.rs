//! A map keyed by text whose entries are kept in ascending byte order of
//! their keys, each key once, as an ordered map of strings iterates them.

use vstd::prelude::*;
use vstd::utf8::encode_utf8;

use crate::text::{bytes_less, bytes_lt, lemma_bytes_lt_order, lemma_encode_injective, str_equal};

verus! {

/// The first position of key `k` among the first `n` entries.
pub open spec fn key_index<V>(s: Seq<(String, V)>, k: Seq<char>, n: int) -> Option<int>
    decreases n,
{
    if n <= 0 {
        None
    } else {
        match key_index(s, k, n - 1) {
            Some(i) => Some(i),
            None => if s[n - 1].0@ == k {
                Some(n - 1)
            } else {
                None
            },
        }
    }
}

/// Keys in strictly ascending byte order, so each occurs once.
pub open spec fn keys_ascending<V>(s: Seq<(String, V)>) -> bool {
    forall|i: int, j: int| 0 <= i < j < s.len() ==> bytes_lt(encode_utf8((#[trigger] s[i]).0@), encode_utf8((#[trigger] s[j]).0@))
}

/// The entries as a map from key text to value.
pub open spec fn entries_view<V>(s: Seq<(String, V)>) -> Map<Seq<char>, V> {
    Map::new(
        |k: Seq<char>| key_index(s, k, s.len() as int) is Some,
        |k: Seq<char>| s[key_index(s, k, s.len() as int)->0].1,
    )
}

pub proof fn lemma_key_index<V>(s: Seq<(String, V)>, k: Seq<char>, n: int)
    requires
        0 <= n <= s.len(),
    ensures
        key_index(s, k, n) matches Some(i) ==> 0 <= i < n && s[i].0@ == k && forall|j: int| 0 <= j < i ==> s[j].0@ != k,
        key_index(s, k, n) is None ==> forall|j: int| 0 <= j < n ==> s[j].0@ != k,
    decreases n,
{
    if n > 0 {
        lemma_key_index(s, k, n - 1);
    }
}

/// Once found among a prefix, a key's first position stays the same.
pub proof fn lemma_key_index_stable<V>(s: Seq<(String, V)>, k: Seq<char>, a: int, b: int)
    requires
        0 <= a <= b,
        key_index(s, k, a) is Some,
    ensures
        key_index(s, k, b) == key_index(s, k, a),
    decreases b - a,
{
    if a < b {
        lemma_key_index_stable(s, k, a, b - 1);
    }
}

/// With unique keys, the position holding `k` is where `k` is found.
pub proof fn lemma_key_index_unique<V>(s: Seq<(String, V)>, k: Seq<char>, i: int)
    requires
        keys_ascending(s),
        0 <= i < s.len(),
        s[i].0@ == k,
    ensures
        key_index(s, k, s.len() as int) == Some(i),
{
    lemma_key_index(s, k, s.len() as int);
    match key_index(s, k, s.len() as int) {
        Some(j) => {
            if j != i {
                if j < i {
                    lemma_bytes_lt_order(encode_utf8(s[j].0@), encode_utf8(s[i].0@), encode_utf8(s[i].0@));
                } else {
                    lemma_bytes_lt_order(encode_utf8(s[i].0@), encode_utf8(s[j].0@), encode_utf8(s[j].0@));
                }
            }
        },
        None => {},
    }
}

/// An ordered map of text keys.
#[derive(Debug, PartialEq, Eq)]
pub struct TextMap<V> {
    entries: Vec<(String, V)>,
}

impl<V> View for TextMap<V> {
    type V = Map<Seq<char>, V>;

    closed spec fn view(&self) -> Map<Seq<char>, V> {
        entries_view(self.entries@)
    }
}

impl<V> TextMap<V> {
    pub closed spec fn spec_entries(&self) -> Seq<(String, V)> {
        self.entries@
    }

    /// Keys are kept ascending, each once.
    #[verifier::type_invariant]
    pub closed spec fn well_formed(&self) -> bool {
        keys_ascending(self.entries@)
    }

    pub proof fn lemma_view_entries(&self)
        requires
            self.well_formed(),
        ensures
            forall|i: int| 0 <= i < self.spec_entries().len() ==> #[trigger] self@.contains_key(self.spec_entries()[i].0@)
                && self@[self.spec_entries()[i].0@] == self.spec_entries()[i].1,
            forall|k: Seq<char>| #[trigger] self@.contains_key(k) ==> exists|i: int| 0 <= i < self.spec_entries().len()
                && self.spec_entries()[i].0@ == k,
            self@.dom().finite(),
            self@.len() == self.spec_entries().len(),
            keys_ascending(self.spec_entries()),
    {
        let s = self.entries@;
        assert forall|i: int| 0 <= i < s.len() implies #[trigger] self@.contains_key(s[i].0@) && self@[s[i].0@] == s[i].1 by {
            lemma_key_index_unique(s, s[i].0@, i);
        }
        assert forall|k: Seq<char>| #[trigger] self@.contains_key(k) implies exists|i: int| 0 <= i < self.spec_entries().len()
            && self.spec_entries()[i].0@ == k by {
            lemma_key_index(s, k, s.len() as int);
            let i = key_index(s, k, s.len() as int)->0;
            assert(self.spec_entries()[i].0@ == k);
        }
        lemma_dom_len(s);
    }

    pub fn new() -> (r: TextMap<V>)
        ensures
            r@ == Map::<Seq<char>, V>::empty(),
            r.well_formed(),
    {
        let r = TextMap { entries: Vec::new() };
        assert(r@ =~= Map::<Seq<char>, V>::empty());
        r
    }

    pub fn len(&self) -> (r: usize)
        ensures
            r == self.spec_entries().len(),
    {
        self.entries.len()
    }

    /// The entries in ascending key order.
    pub fn entries(&self) -> (r: &[(String, V)])
        ensures
            r@ == self.spec_entries(),
    {
        self.entries.as_slice()
    }

    fn find(&self, key: &str) -> (r: Option<usize>)
        ensures
            r is None <==> key_index(self.entries@, key@, self.entries@.len() as int) is None,
            r matches Some(i) ==> key_index(self.entries@, key@, self.entries@.len() as int) == Some(i as int),
    {
        let mut i: usize = 0;
        while i < self.entries.len()
            invariant
                i <= self.entries@.len(),
                key_index(self.entries@, key@, i as int) is None,
            decreases self.entries@.len() - i,
        {
            if str_equal(self.entries[i].0.as_str(), key) {
                proof {
                    assert(key_index(self.entries@, key@, i as int + 1) == Some(i as int));
                    lemma_key_index_stable(self.entries@, key@, i as int + 1, self.entries@.len() as int);
                }
                return Some(i);
            }
            i = i + 1;
        }
        None
    }

    /// The value stored under `key`.
    pub fn get(&self, key: &str) -> (r: Option<&V>)
        ensures
            r is Some == self@.contains_key(key@),
            r is Some ==> *r->0 == self@[key@],
    {
        proof {
            lemma_key_index(self.entries@, key@, self.entries@.len() as int);
        }
        match self.find(key) {
            Some(i) => Some(&self.entries[i].1),
            None => None,
        }
    }

    fn position(&self, key: &String) -> (r: usize)
        ensures
            r <= self.entries@.len(),
            forall|j: int| 0 <= j < r ==> bytes_lt(encode_utf8((#[trigger] self.entries@[j]).0@), encode_utf8(key@)),
            r < self.entries@.len() ==> !bytes_lt(encode_utf8(self.entries@[r as int].0@), encode_utf8(key@)),
    {
        let n = self.entries.len();
        let mut i: usize = 0;
        while i < n && bytes_less(self.entries[i].0.as_str().as_bytes(), key.as_str().as_bytes())
            invariant
                i <= n,
                n == self.entries@.len(),
                forall|j: int| 0 <= j < i ==> bytes_lt(encode_utf8((#[trigger] self.entries@[j]).0@), encode_utf8(key@)),
            decreases n - i,
        {
            i = i + 1;
        }
        i
    }

    /// Stores `value` under `key`, replacing an earlier value.
    pub fn insert(&mut self, key: String, value: V)
        ensures
            final(self)@ == old(self)@.insert(key@, value),
    {
        proof {
            use_type_invariant(&*self);
        }
        let p = self.position(&key);
        let mut entries: Vec<(String, V)> = Vec::new();
        std::mem::swap(&mut entries, &mut self.entries);
        let ghost s = entries@;
        if p < entries.len() && str_equal(entries[p].0.as_str(), key.as_str()) {
            let ghost k = key@;
            entries.set(p, (key, value));
            proof {
                let t = entries@;
                assert(t =~= s.update(p as int, (t[p as int].0, value)));
                assert(keys_ascending(t)) by {
                    assert forall|i: int, j: int| 0 <= i < j < t.len() implies bytes_lt(encode_utf8((#[trigger] t[i]).0@), encode_utf8((#[trigger] t[j]).0@)) by {
                        assert(t[i].0@ == s[i].0@ && t[j].0@ == s[j].0@);
                    }
                }
                lemma_update_view(s, p as int, t, k, value);
            }
            self.entries = entries;
        } else {
            proof {
                if p < s.len() {
                    let a = encode_utf8(s[p as int].0@);
                    let b = encode_utf8(key@);
                    lemma_bytes_lt_order(a, b, b);
                    if a == b {
                        lemma_encode_injective(s[p as int].0@, key@);
                    }
                    assert(bytes_lt(b, a));
                }
            }
            let ghost k = key@;
            entries.insert(p, (key, value));
            proof {
                let t = entries@;
                assert(t =~= s.insert(p as int, (t[p as int].0, value)));
                assert(keys_ascending(t)) by {
                    assert forall|i: int, j: int| 0 <= i < j < t.len() implies bytes_lt(encode_utf8((#[trigger] t[i]).0@), encode_utf8((#[trigger] t[j]).0@)) by {
                        let x = encode_utf8(t[i].0@);
                        let y = encode_utf8(t[j].0@);
                        if j < p {
                            assert(t[i] == s[i] && t[j] == s[j]);
                        } else if j == p {
                            assert(t[i] == s[i]);
                        } else if i < p {
                            assert(t[i] == s[i] && t[j] == s[j - 1]);
                            let z = encode_utf8(s[p as int].0@);
                            if j - 1 > p {
                                lemma_bytes_lt_order(x, encode_utf8(k), z);
                                lemma_bytes_lt_order(x, z, y);
                            } else {
                                lemma_bytes_lt_order(x, encode_utf8(k), z);
                            }
                        } else if i == p {
                            assert(t[j] == s[j - 1]);
                            let z = encode_utf8(s[p as int].0@);
                            if j - 1 > p {
                                lemma_bytes_lt_order(x, z, y);
                            }
                        } else {
                            assert(t[i] == s[i - 1] && t[j] == s[j - 1]);
                        }
                    }
                }
                assert forall|j: int| 0 <= j < s.len() implies s[j].0@ != k by {
                    if j < p {
                        lemma_bytes_lt_order(encode_utf8(s[j].0@), encode_utf8(k), encode_utf8(k));
                    } else if p < s.len() {
                        if j > p {
                            lemma_bytes_lt_order(encode_utf8(k), encode_utf8(s[p as int].0@), encode_utf8(s[j].0@));
                        }
                        lemma_bytes_lt_order(encode_utf8(k), encode_utf8(s[j].0@), encode_utf8(s[j].0@));
                    }
                }
                lemma_insert_view(s, p as int, t, k, value);
            }
            self.entries = entries;
        }
    }

    /// Takes the value stored under `key` out of the map.
    pub fn remove(&mut self, key: &str) -> (r: Option<V>)
        ensures
            final(self)@ == old(self)@.remove(key@),
            r is Some == old(self)@.contains_key(key@),
            r is Some ==> r->0 == old(self)@[key@],
    {
        proof {
            use_type_invariant(&*self);
        }
        match self.find(key) {
            Some(i) => {
                let mut entries: Vec<(String, V)> = Vec::new();
                std::mem::swap(&mut entries, &mut self.entries);
                let ghost s = entries@;
                proof {
                    lemma_key_index(s, key@, s.len() as int);
                }
                let (_, v) = entries.remove(i);
                proof {
                    let t = entries@;
                    assert(t =~= s.remove(i as int));
                    assert(keys_ascending(t)) by {
                        assert forall|a: int, b: int| 0 <= a < b < t.len() implies bytes_lt(encode_utf8((#[trigger] t[a]).0@), encode_utf8((#[trigger] t[b]).0@)) by {
                            if b < i {
                                assert(t[a] == s[a] && t[b] == s[b]);
                            } else if a < i {
                                assert(t[a] == s[a] && t[b] == s[b + 1]);
                            } else {
                                assert(t[a] == s[a + 1] && t[b] == s[b + 1]);
                            }
                        }
                    }
                    lemma_remove_view(s, i as int, t);
                }
                self.entries = entries;
                Some(v)
            },
            None => {
                proof {
                    assert(self@ =~= self@.remove(key@));
                }
                None
            },
        }
    }
}

impl<V: Clone> Clone for TextMap<V> {
    /// A copy with the same keys in the same order, each value cloned.
    fn clone(&self) -> (r: TextMap<V>)
        ensures
            r.spec_entries().len() == self.spec_entries().len(),
            forall|i: int| 0 <= i < r.spec_entries().len() ==> (#[trigger] r.spec_entries()[i]).0 == self.spec_entries()[i].0
                && cloned::<V>(self.spec_entries()[i].1, r.spec_entries()[i].1),
    {
        proof {
            use_type_invariant(self);
        }
        let mut out: Vec<(String, V)> = Vec::new();
        let mut i: usize = 0;
        while i < self.entries.len()
            invariant
                i <= self.entries@.len(),
                keys_ascending(self.entries@),
                out@.len() == i,
                forall|j: int| 0 <= j < i ==> (#[trigger] out@[j]).0 == self.entries@[j].0
                    && cloned::<V>(self.entries@[j].1, out@[j].1),
            decreases self.entries@.len() - i,
        {
            let k = self.entries[i].0.clone();
            let v = self.entries[i].1.clone();
            out.push((k, v));
            i = i + 1;
        }
        proof {
            assert forall|a: int, b: int| 0 <= a < b < out@.len() implies bytes_lt(encode_utf8((#[trigger] out@[a]).0@), encode_utf8((#[trigger] out@[b]).0@)) by {
                assert(out@[a].0 == self.entries@[a].0 && out@[b].0 == self.entries@[b].0);
            }
        }
        TextMap { entries: out }
    }
}

proof fn lemma_dom_len<V>(s: Seq<(String, V)>)
    requires
        keys_ascending(s),
    ensures
        entries_view(s).dom().finite(),
        entries_view(s).len() == s.len(),
    decreases s.len(),
{
    if s.len() == 0 {
        assert(entries_view(s).dom() =~= Set::<Seq<char>>::empty());
    } else {
        let u = s.drop_last();
        assert(keys_ascending(u)) by {
            assert forall|i: int, j: int| 0 <= i < j < u.len() implies bytes_lt(encode_utf8((#[trigger] u[i]).0@), encode_utf8((#[trigger] u[j]).0@)) by {
                assert(u[i] == s[i] && u[j] == s[j]);
            }
        }
        lemma_dom_len(u);
        let k = s.last().0@;
        assert forall|j: int| 0 <= j < u.len() implies u[j].0@ != k by {
            lemma_bytes_lt_order(encode_utf8(u[j].0@), encode_utf8(k), encode_utf8(k));
            assert(u[j] == s[j]);
        }
        assert(entries_view(s).dom() =~= entries_view(u).dom().insert(k)) by {
            assert forall|x: Seq<char>| entries_view(s).dom().contains(x) <==> entries_view(u).dom().insert(k).contains(x) by {
                lemma_key_index(s, x, s.len() as int);
                lemma_key_index(u, x, u.len() as int);
                if let Some(i) = key_index(u, x, u.len() as int) {
                    assert(s[i] == u[i]);
                }
                if let Some(i) = key_index(s, x, s.len() as int) {
                    if i < u.len() {
                        assert(s[i] == u[i]);
                    }
                }
                if x == k {
                    lemma_key_index_unique(s, k, s.len() - 1);
                }
            }
        }
        lemma_key_index(u, k, u.len() as int);
    }
}

proof fn lemma_update_view<V>(s: Seq<(String, V)>, p: int, t: Seq<(String, V)>, k: Seq<char>, v: V)
    requires
        keys_ascending(s),
        keys_ascending(t),
        0 <= p < s.len(),
        s[p].0@ == k,
        t.len() == s.len(),
        t[p].0@ == k,
        t[p].1 == v,
        forall|j: int| 0 <= j < s.len() && j != p ==> t[j] == s[j],
    ensures
        entries_view(t) == entries_view(s).insert(k, v),
{
    assert forall|x: Seq<char>| #[trigger] entries_view(t).contains_key(x) <==> entries_view(s).insert(k, v).contains_key(x) by {
        lemma_key_index(s, x, s.len() as int);
        lemma_key_index(t, x, t.len() as int);
        if let Some(i) = key_index(s, x, s.len() as int) {
            lemma_key_index_unique(t, x, i);
        }
        if let Some(i) = key_index(t, x, t.len() as int) {
            lemma_key_index_unique(s, x, i);
        }
        if x == k {
            lemma_key_index_unique(t, k, p);
        }
    }
    assert forall|x: Seq<char>| #[trigger] entries_view(t).contains_key(x) implies entries_view(t)[x] == entries_view(s).insert(k, v)[x] by {
        lemma_key_index(t, x, t.len() as int);
        let i = key_index(t, x, t.len() as int)->0;
        if x == k {
            lemma_key_index_unique(t, k, p);
        } else {
            lemma_key_index_unique(s, x, i);
        }
    }
    assert(entries_view(t) =~= entries_view(s).insert(k, v));
}

proof fn lemma_insert_view<V>(s: Seq<(String, V)>, p: int, t: Seq<(String, V)>, k: Seq<char>, v: V)
    requires
        keys_ascending(s),
        keys_ascending(t),
        0 <= p <= s.len(),
        t.len() == s.len() + 1,
        t[p].0@ == k,
        t[p].1 == v,
        forall|j: int| 0 <= j < p ==> t[j] == s[j],
        forall|j: int| p < j < t.len() ==> t[j] == s[j - 1],
        forall|j: int| 0 <= j < s.len() ==> s[j].0@ != k,
    ensures
        entries_view(t) == entries_view(s).insert(k, v),
{
    assert forall|x: Seq<char>| #[trigger] entries_view(t).contains_key(x) <==> entries_view(s).insert(k, v).contains_key(x) by {
        lemma_key_index(s, x, s.len() as int);
        lemma_key_index(t, x, t.len() as int);
        if let Some(i) = key_index(s, x, s.len() as int) {
            if i < p {
                lemma_key_index_unique(t, x, i);
            } else {
                lemma_key_index_unique(t, x, i + 1);
            }
        }
        if x == k {
            lemma_key_index_unique(t, k, p);
        }
        if let Some(i) = key_index(t, x, t.len() as int) {
            if i < p {
                lemma_key_index_unique(s, x, i);
            } else if i > p {
                lemma_key_index_unique(s, x, i - 1);
            }
        }
    }
    assert forall|x: Seq<char>| #[trigger] entries_view(t).contains_key(x) implies entries_view(t)[x] == entries_view(s).insert(k, v)[x] by {
        lemma_key_index(t, x, t.len() as int);
        let i = key_index(t, x, t.len() as int)->0;
        if x == k {
            lemma_key_index_unique(t, k, p);
        } else if i < p {
            lemma_key_index_unique(s, x, i);
        } else {
            lemma_key_index_unique(s, x, i - 1);
        }
    }
    assert(entries_view(t) =~= entries_view(s).insert(k, v));
}

proof fn lemma_remove_view<V>(s: Seq<(String, V)>, p: int, t: Seq<(String, V)>)
    requires
        keys_ascending(s),
        keys_ascending(t),
        0 <= p < s.len(),
        t.len() + 1 == s.len(),
        forall|j: int| 0 <= j < p ==> t[j] == s[j],
        forall|j: int| p <= j < t.len() ==> t[j] == s[j + 1],
    ensures
        entries_view(t) == entries_view(s).remove(s[p].0@),
{
    let k = s[p].0@;
    assert forall|x: Seq<char>| #[trigger] entries_view(t).contains_key(x) <==> entries_view(s).remove(k).contains_key(x) by {
        lemma_key_index(s, x, s.len() as int);
        lemma_key_index(t, x, t.len() as int);
        if let Some(i) = key_index(s, x, s.len() as int) {
            if i < p {
                lemma_key_index_unique(t, x, i);
            } else if i > p {
                lemma_key_index_unique(t, x, i - 1);
            }
        }
        if let Some(i) = key_index(t, x, t.len() as int) {
            if i < p {
                lemma_key_index_unique(s, x, i);
                lemma_key_index_unique(s, k, p);
            } else {
                lemma_key_index_unique(s, x, i + 1);
                lemma_key_index_unique(s, k, p);
            }
        }
    }
    assert forall|x: Seq<char>| #[trigger] entries_view(t).contains_key(x) implies entries_view(t)[x] == entries_view(s).remove(k)[x] by {
        lemma_key_index(t, x, t.len() as int);
        let i = key_index(t, x, t.len() as int)->0;
        if i < p {
            lemma_key_index_unique(s, x, i);
        } else {
            lemma_key_index_unique(s, x, i + 1);
        }
    }
    assert(entries_view(t) =~= entries_view(s).remove(k));
}

} // verus!
