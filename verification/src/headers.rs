//! An ordered map of header names to values. A name occurs at most once;
//! writing a name that is present replaces its value in place, and a new
//! name is appended, so the order in which names were first written is the
//! order in which they are rendered.
use vstd::prelude::*;
use crate::text::push_char;

verus! {

/// The abstract contents of a header map: (name, value) pairs in order.
pub type HeaderEntries = Seq<(Seq<char>, Seq<char>)>;

/// Whether some entry has name `k`.
pub open spec fn has_key(es: HeaderEntries, k: Seq<char>) -> bool {
    exists|i: int| 0 <= i < es.len() && es[i].0 == k
}

/// The position of the entry with name `k`, where there is one.
pub open spec fn key_index(es: HeaderEntries, k: Seq<char>) -> int {
    choose|i: int| 0 <= i < es.len() && es[i].0 == k
}

/// No name occurs twice.
pub open spec fn distinct_keys(es: HeaderEntries) -> bool {
    forall|i: int, j: int|
        0 <= i < es.len() && 0 <= j < es.len() && i != j ==> es[i].0 != es[j].0
}

/// The value stored under `k`, if any.
pub open spec fn lookup(es: HeaderEntries, k: Seq<char>) -> Option<Seq<char>> {
    if has_key(es, k) {
        Some(es[key_index(es, k)].1)
    } else {
        None
    }
}

/// The entries after writing `v` under `k`: an existing entry for `k` is
/// replaced in place, otherwise the pair is appended.
pub open spec fn insert_entry(es: HeaderEntries, k: Seq<char>, v: Seq<char>) -> HeaderEntries {
    if has_key(es, k) {
        es.update(key_index(es, k), (k, v))
    } else {
        es.push((k, v))
    }
}

/// The text of the entries: `name:value\r\n` for each, in order.
pub open spec fn header_text(es: HeaderEntries) -> Seq<char>
    decreases es.len(),
{
    if es.len() == 0 {
        Seq::<char>::empty()
    } else {
        header_text(es.drop_last()) + es.last().0 + seq![':'] + es.last().1 + seq!['\r', '\n']
    }
}

/// With distinct names, the entry found for `k` is the one at `i`.
pub proof fn lemma_key_index(es: HeaderEntries, k: Seq<char>, i: int)
    requires
        distinct_keys(es),
        0 <= i < es.len(),
        es[i].0 == k,
    ensures
        has_key(es, k),
        key_index(es, k) == i,
{
    assert(has_key(es, k));
    let j = key_index(es, k);
    assert(0 <= j < es.len() && es[j].0 == k);
}

/// Law: reading a name just written gives the written value, and names
/// stay distinct.
pub proof fn law_lookup_after_insert(es: HeaderEntries, k: Seq<char>, v: Seq<char>)
    requires
        distinct_keys(es),
    ensures
        lookup(insert_entry(es, k, v), k) == Some(v),
        distinct_keys(insert_entry(es, k, v)),
{
    let r = insert_entry(es, k, v);
    if has_key(es, k) {
        let i = key_index(es, k);
        assert(distinct_keys(r));
        lemma_key_index(r, k, i);
    } else {
        assert(distinct_keys(r));
        lemma_key_index(r, k, es.len() as int);
    }
}

/// Law: writing one name leaves the value of every other name unchanged.
pub proof fn law_lookup_other_after_insert(
    es: HeaderEntries,
    k: Seq<char>,
    v: Seq<char>,
    other: Seq<char>,
)
    requires
        distinct_keys(es),
        other != k,
    ensures
        lookup(insert_entry(es, k, v), other) == lookup(es, other),
{
    let r = insert_entry(es, k, v);
    law_lookup_after_insert(es, k, v);
    if has_key(es, other) {
        let j = key_index(es, other);
        lemma_key_index(r, other, j);
    } else {
        if has_key(r, other) {
            let j = key_index(r, other);
            assert(0 <= j < es.len() && es[j].0 == other);
        }
    }
}

/// Law: a write adds an entry exactly when the name is new.
pub proof fn law_insert_len(es: HeaderEntries, k: Seq<char>, v: Seq<char>)
    ensures
        insert_entry(es, k, v).len() == if has_key(es, k) {
            es.len()
        } else {
            es.len() + 1
        },
{
}

/// An ordered map from header names to values.
#[derive(Debug, PartialEq)]
pub struct HeaderMap {
    entries: Vec<(String, String)>,
}

impl View for HeaderMap {
    type V = HeaderEntries;

    closed spec fn view(&self) -> HeaderEntries {
        self.entries@.map_values(|e: (String, String)| (e.0@, e.1@))
    }
}

impl HeaderMap {
    #[verifier::type_invariant]
    spec fn inv(self) -> bool {
        distinct_keys(self@)
    }

    /// An empty map.
    pub fn new() -> (r: HeaderMap)
        ensures
            r@ == Seq::<(Seq<char>, Seq<char>)>::empty(),
    {
        let r = HeaderMap { entries: Vec::new() };
        assert(r@ =~= Seq::<(Seq<char>, Seq<char>)>::empty());
        r
    }

    /// A copy of the map with the same entries.
    pub fn copy(&self) -> (r: HeaderMap)
        ensures
            r@ == self@,
    {
        proof {
            use_type_invariant(self);
        }
        let mut entries: Vec<(String, String)> = Vec::new();
        let mut i: usize = 0;
        while i < self.entries.len()
            invariant
                distinct_keys(self@),
                i <= self@.len(),
                self@.len() == self.entries@.len(),
                entries@.map_values(|e: (String, String)| (e.0@, e.1@)) == self@.take(i as int),
            decreases self.entries@.len() - i,
        {
            let e = &self.entries[i];
            assert(self@[i as int] == (e.0@, e.1@));
            let ghost before = entries@.map_values(|e: (String, String)| (e.0@, e.1@));
            let k = e.0.clone();
            let v = e.1.clone();
            entries.push((k, v));
            assert(entries@.map_values(|e: (String, String)| (e.0@, e.1@)) =~= before.push(
                (e.0@, e.1@),
            ));
            assert(entries@.map_values(|e: (String, String)| (e.0@, e.1@)) =~= self@.take(i + 1));
            i = i + 1;
        }
        assert(self@.take(i as int) =~= self@);
        HeaderMap { entries }
    }

    /// The position of `key`, if present.
    fn position(&self, key: &String) -> (r: Option<usize>)
        requires
            distinct_keys(self@),
        ensures
            r is None <==> !has_key(self@, key@),
            r matches Some(i) ==> i < self@.len() && key_index(self@, key@) == i,
    {
        let mut i: usize = 0;
        while i < self.entries.len()
            invariant
                distinct_keys(self@),
                i <= self@.len(),
                self@.len() == self.entries@.len(),
                forall|j: int| 0 <= j < i ==> self@[j].0 != key@,
            decreases self.entries@.len() - i,
        {
            assert(self@[i as int].0 == self.entries@[i as int].0@);
            if self.entries[i].0 == *key {
                proof {
                    lemma_key_index(self@, key@, i as int);
                }
                return Some(i);
            }
            i = i + 1;
        }
        None
    }

    /// Writes `value` under `key`: replaces the value of an existing entry
    /// for `key` in place, or appends a new entry.
    pub fn insert(&mut self, key: &str, value: &str)
        ensures
            final(self)@ == insert_entry(old(self)@, key@, value@),
            distinct_keys(final(self)@),
    {
        proof {
            use_type_invariant(&*self);
        }
        let k = key.to_owned();
        let v = value.to_owned();
        let ghost es = self@;
        proof {
            law_lookup_after_insert(es, key@, value@);
        }
        match self.position(&k) {
            Some(i) => {
                let mut entries: Vec<(String, String)> = Vec::new();
                core::mem::swap(&mut entries, &mut self.entries);
                entries.set(i, (k, v));
                assert(entries@.map_values(|e: (String, String)| (e.0@, e.1@)) =~= insert_entry(
                    es,
                    key@,
                    value@,
                ));
                self.entries = entries;
                assert(self@ =~= es.update(i as int, (key@, value@)));
            },
            None => {
                let mut entries: Vec<(String, String)> = Vec::new();
                core::mem::swap(&mut entries, &mut self.entries);
                entries.push((k, v));
                assert(entries@.map_values(|e: (String, String)| (e.0@, e.1@)) =~= insert_entry(
                    es,
                    key@,
                    value@,
                ));
                self.entries = entries;
                assert(self@ =~= es.push((key@, value@)));
            },
        }
    }

    /// The value stored under `key`, if any.
    pub fn get(&self, key: &str) -> (r: Option<&String>)
        ensures
            distinct_keys(self@),
            r is None <==> lookup(self@, key@) is None,
            r matches Some(v) ==> lookup(self@, key@) == Some(v@),
    {
        proof {
            use_type_invariant(self);
        }
        let k = key.to_owned();
        match self.position(&k) {
            Some(i) => {
                assert(self@[i as int].1 == self.entries@[i as int].1@);
                Some(&self.entries[i].1)
            },
            None => None,
        }
    }

    /// The number of entries.
    pub fn len(&self) -> (r: usize)
        ensures
            r == self@.len(),
            distinct_keys(self@),
    {
        proof {
            use_type_invariant(self);
        }
        self.entries.len()
    }

    /// Whether there are no entries.
    pub fn is_empty(&self) -> (r: bool)
        ensures
            r == (self@.len() == 0),
            distinct_keys(self@),
    {
        proof {
            use_type_invariant(self);
        }
        self.entries.len() == 0
    }

    /// The entries as text, `name:value\r\n` for each, in order.
    pub fn to_text(&self) -> (r: String)
        ensures
            r@ == header_text(self@),
    {
        let mut out = String::new();
        let mut i: usize = 0;
        while i < self.entries.len()
            invariant
                i <= self@.len(),
                self@.len() == self.entries@.len(),
                out@ == header_text(self@.take(i as int)),
            decreases self.entries@.len() - i,
        {
            let ghost before = out@;
            let e = &self.entries[i];
            out.append(e.0.as_str());
            push_char(&mut out, ':');
            out.append(e.1.as_str());
            push_char(&mut out, '\r');
            push_char(&mut out, '\n');
            assert(self@.take(i + 1).drop_last() =~= self@.take(i as int));
            assert(self@[i as int] == (e.0@, e.1@));
            assert(out@ =~= header_text(self@.take(i + 1)));
            i = i + 1;
        }
        assert(self@.take(i as int) =~= self@);
        out
    }
}

impl Clone for HeaderMap {
    fn clone(&self) -> (r: HeaderMap)
        ensures
            r@ == self@,
    {
        self.copy()
    }
}

} // verus!
