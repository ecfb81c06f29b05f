//! The document model: a JSON value, whose objects are maps with their keys
//! kept in ascending order.

use vstd::prelude::*;
use crate::codec::JsonNumber;
use crate::text::{text_lt, TextOrder, compare_text, lemma_text_lt_irreflexive, lemma_text_lt_transitive};

verus! {

/// A JSON value, the universal representation of a decoded document.
#[derive(Debug)]
pub enum JsonValue {
    Null,
    Bool(bool),
    Number(JsonNumber),
    String(String),
    Array(Vec<JsonValue>),
    Object(JsonMap),
}

/// The content of a JSON value: texts as their characters, arrays and
/// objects as sequences. Two values with the same content are written
/// alike.
pub enum JsonData {
    Null,
    Bool(bool),
    Number(Seq<char>),
    String(Seq<char>),
    Array(Seq<JsonData>),
    Object(Seq<(Seq<char>, JsonData)>),
}

impl JsonValue {
    /// The content of this value.
    pub open spec fn data(self) -> JsonData
        decreases self,
    {
        match self {
            JsonValue::Null => JsonData::Null,
            JsonValue::Bool(b) => JsonData::Bool(b),
            JsonValue::Number(n) => JsonData::Number(n@),
            JsonValue::String(s) => JsonData::String(s@),
            JsonValue::Array(a) => JsonData::Array(items_data(a@)),
            JsonValue::Object(m) => JsonData::Object(m.data_entries()),
        }
    }
}

/// The content of each item, in order.
pub open spec fn items_data(s: Seq<JsonValue>) -> Seq<JsonData>
    decreases s,
{
    if s.len() == 0 {
        Seq::empty()
    } else {
        items_data(s.subrange(0, s.len() - 1)).push(s[s.len() - 1].data())
    }
}

/// The content of each entry, in order.
pub open spec fn entries_data(s: Seq<(String, JsonValue)>) -> Seq<(Seq<char>, JsonData)>
    decreases s,
{
    if s.len() == 0 {
        Seq::empty()
    } else {
        entries_data(s.subrange(0, s.len() - 1)).push((s[s.len() - 1].0@, s[s.len() - 1].1.data()))
    }
}

/// The content of each entry of an object's entries.
pub open spec fn pairs_data(es: Seq<(Seq<char>, JsonValue)>) -> Seq<(Seq<char>, JsonData)> {
    es.map_values(|e: (Seq<char>, JsonValue)| (e.0, e.1.data()))
}

proof fn lemma_entries_data(s: Seq<(String, JsonValue)>)
    ensures
        entries_data(s) == s.map_values(|e: (String, JsonValue)| (e.0@, e.1.data())),
    decreases s.len(),
{
    if s.len() > 0 {
        lemma_entries_data(s.subrange(0, s.len() - 1));
        assert(entries_data(s) =~= s.map_values(|e: (String, JsonValue)| (e.0@, e.1.data())));
    }
}

/// The content of an object is the content of its entries.
pub proof fn lemma_object_data(m: JsonMap)
    ensures
        JsonValue::Object(m).data() == JsonData::Object(pairs_data(m@)),
{
    assert(m.data_entries() == entries_data(m.entries@));
    lemma_entries_data(m.entries@);
    assert(pairs_data(m@) =~= m.entries@.map_values(|e: (String, JsonValue)| (e.0@, e.1.data())));
}

/// A JSON object: a map from texts to values, kept in ascending order of keys
/// with no key twice, the order in which `serde_json::Map` (without its
/// `preserve_order` feature) keeps and walks them.
///
/// `serde_json::Map` itself cannot hold these values: its methods exist only
/// for `Map<String, serde_json::Value>`, whose values are opaque here.
#[derive(Debug)]
pub struct JsonMap {
    entries: Vec<(String, JsonValue)>,
}

/// The keys of a sequence of entries, in order.
pub open spec fn keys_of(es: Seq<(Seq<char>, JsonValue)>) -> Seq<Seq<char>> {
    es.map_values(|e: (Seq<char>, JsonValue)| e.0)
}

/// Each text comes strictly before the next one.
pub open spec fn strictly_sorted(ks: Seq<Seq<char>>) -> bool {
    forall|i: int, j: int| 0 <= i < j < ks.len() ==> text_lt(ks[i], ks[j])
}

/// The value stored under `k` among the entries `es`, if any.
pub open spec fn lookup(es: Seq<(Seq<char>, JsonValue)>, k: Seq<char>) -> Option<JsonValue> {
    if exists|i: int| 0 <= i < es.len() && es[i].0 == k {
        Some(es[choose|i: int| 0 <= i < es.len() && es[i].0 == k].1)
    } else {
        None
    }
}

impl View for JsonMap {
    type V = Seq<(Seq<char>, JsonValue)>;

    closed spec fn view(&self) -> Seq<(Seq<char>, JsonValue)> {
        self.entries@.map_values(|e: (String, JsonValue)| (e.0@, e.1))
    }
}

/// In strictly sorted entries, the value found under the key of entry `i`
/// is the value of entry `i`.
pub proof fn lemma_lookup_at(es: Seq<(Seq<char>, JsonValue)>, i: int)
    requires
        strictly_sorted(keys_of(es)),
        0 <= i < es.len(),
    ensures
        lookup(es, es[i].0) == Some(es[i].1),
{
    assert(keys_of(es)[i] == es[i].0);
    let j = choose|j: int| 0 <= j < es.len() && es[j].0 == es[i].0;
    assert(keys_of(es)[j] == es[j].0);
    if j < i {
        assert(text_lt(keys_of(es)[j], keys_of(es)[i]));
        lemma_text_lt_irreflexive(es[i].0);
    } else if i < j {
        assert(text_lt(keys_of(es)[i], keys_of(es)[j]));
        lemma_text_lt_irreflexive(es[i].0);
    }
}

/// A key that no entry has is not found.
pub proof fn lemma_lookup_absent(es: Seq<(Seq<char>, JsonValue)>, k: Seq<char>)
    requires
        forall|i: int| 0 <= i < es.len() ==> es[i].0 != k,
    ensures
        lookup(es, k) is None,
{
}

impl JsonMap {
    /// The content of each entry, in order.
    pub closed spec fn data_entries(self) -> Seq<(Seq<char>, JsonData)>
        decreases self,
    {
        entries_data(self.entries@)
    }

    #[verifier::type_invariant]
    spec fn keys_in_order(self) -> bool {
        strictly_sorted(keys_of(self@))
    }

    /// An empty object.
    pub fn new() -> (m: JsonMap)
        ensures
            m@ == Seq::<(Seq<char>, JsonValue)>::empty(),
    {
        let m = JsonMap { entries: Vec::new() };
        assert(m@ =~= Seq::<(Seq<char>, JsonValue)>::empty());
        m
    }

    /// The number of entries.
    pub fn len(&self) -> (n: usize)
        ensures
            n == self@.len(),
    {
        self.entries.len()
    }

    /// The entries, in ascending order of keys.
    pub fn entries(&self) -> (es: &Vec<(String, JsonValue)>)
        ensures
            es@.map_values(|e: (String, JsonValue)| (e.0@, e.1)) == self@,
            strictly_sorted(keys_of(self@)),
    {
        proof {
            use_type_invariant(self);
        }
        &self.entries
    }

    /// The keys, in ascending order.
    pub fn keys(&self) -> (ks: Vec<String>)
        ensures
            ks@.map_values(|s: String| s@) == keys_of(self@),
            strictly_sorted(keys_of(self@)),
    {
        proof {
            use_type_invariant(self);
        }
        let n = self.entries.len();
        let mut ks: Vec<String> = Vec::new();
        let mut i: usize = 0;
        while i < n
            invariant
                n == self.entries@.len(),
                i <= n,
                ks@.len() == i,
                forall|j: int| 0 <= j < i ==> #[trigger] ks@[j]@ == keys_of(self@)[j],
            decreases n - i,
        {
            ks.push(self.entries[i].0.clone());
            i = i + 1;
        }
        assert(ks@.map_values(|s: String| s@) =~= keys_of(self@));
        ks
    }

    /// Finds the index of `key`, or the index at which it would be inserted.
    fn position(&self, key: &str) -> (r: (usize, bool))
        ensures
            r.0 <= self@.len(),
            forall|j: int| 0 <= j < r.0 ==> text_lt(#[trigger] keys_of(self@)[j], key@),
            r.1 ==> r.0 < self@.len() && keys_of(self@)[r.0 as int] == key@,
            !r.1 ==> forall|j: int| r.0 <= j < self@.len() ==> text_lt(key@, #[trigger] keys_of(self@)[j]),
    {
        proof {
            use_type_invariant(self);
        }
        let n = self.entries.len();
        let mut p: usize = 0;
        while p < n
            invariant
                n == self@.len(),
                p <= n,
                strictly_sorted(keys_of(self@)),
                forall|j: int| 0 <= j < p ==> text_lt(#[trigger] keys_of(self@)[j], key@),
            decreases n - p,
        {
            assert(keys_of(self@)[p as int] == self.entries@[p as int].0@);
            match compare_text(self.entries[p].0.as_str(), key) {
                TextOrder::Less => {
                    p = p + 1;
                },
                TextOrder::Equal => {
                    return (p, true);
                },
                TextOrder::Greater => {
                    assert forall|j: int| p <= j < self@.len() implies text_lt(
                        key@,
                        #[trigger] keys_of(self@)[j],
                    ) by {
                        if j > p {
                            lemma_text_lt_transitive(key@, keys_of(self@)[p as int], keys_of(self@)[j]);
                        }
                    }
                    return (p, false);
                },
            }
        }
        (p, false)
    }

    /// The value stored under `key`, if any.
    pub fn get(&self, key: &str) -> (v: Option<&JsonValue>)
        ensures
            v matches Some(x) ==> lookup(self@, key@) == Some(*x),
            v is None ==> lookup(self@, key@) is None,
    {
        proof {
            use_type_invariant(self);
        }
        let (p, found) = self.position(key);
        if found {
            proof {
                assert(keys_of(self@)[p as int] == self@[p as int].0);
                lemma_lookup_at(self@, p as int);
                assert(self@[p as int].1 == self.entries@[p as int].1);
            }
            Some(&self.entries[p].1)
        } else {
            proof {
                assert forall|i: int| 0 <= i < self@.len() implies self@[i].0 != key@ by {
                    assert(keys_of(self@)[i] == self@[i].0);
                    lemma_text_lt_irreflexive(key@);
                }
                lemma_lookup_absent(self@, key@);
            }
            None
        }
    }

    /// Stores `value` under `key`, replacing the value stored there before.
    pub fn insert(&mut self, key: String, value: JsonValue)
        ensures
            forall|k: Seq<char>|
                #[trigger] lookup(final(self)@, k) == if k == key@ {
                    Some(value)
                } else {
                    lookup(old(self)@, k)
                },
            strictly_sorted(keys_of(final(self)@)),
    {
        proof {
            use_type_invariant(&*self);
        }
        let ghost old_view = self@;
        let (p, found) = self.position(key.as_str());
        let ghost kv = key@;
        let ghost new_entry = (key@, value);
        let mut es: Vec<(String, JsonValue)> = Vec::new();
        std::mem::swap(&mut es, &mut self.entries);
        assert(es@.map_values(|e: (String, JsonValue)| (e.0@, e.1)) == old_view);
        if found {
            es.set(p, (key, value));
        } else {
            es.insert(p, (key, value));
        }
        let ghost new_view = es@.map_values(|e: (String, JsonValue)| (e.0@, e.1));
        proof {
            if found {
                assert(new_view =~= old_view.update(p as int, new_entry));
                assert(keys_of(new_view) =~= keys_of(old_view));
                assert forall|k: Seq<char>| #[trigger] lookup(new_view, k) == if k == kv {
                    Some(value)
                } else {
                    lookup(old_view, k)
                } by {
                    lemma_lookup_at(new_view, p as int);
                    if k != kv {
                        if exists|i: int| 0 <= i < old_view.len() && old_view[i].0 == k {
                            let i = choose|i: int| 0 <= i < old_view.len() && old_view[i].0 == k;
                            lemma_lookup_at(old_view, i);
                            assert(keys_of(old_view)[p as int] == old_view[p as int].0);
                            assert(i != p);
                            lemma_lookup_at(new_view, i);
                        } else {
                            assert forall|i: int| 0 <= i < new_view.len() implies new_view[i].0 != k by {
                                if i != p {
                                    assert(new_view[i] == old_view[i]);
                                }
                            }
                            lemma_lookup_absent(new_view, k);
                        }
                    }
                }
            } else {
                assert(new_view =~= old_view.insert(p as int, new_entry));
                let old_keys = keys_of(old_view);
                let new_keys = keys_of(new_view);
                assert(new_keys =~= old_keys.insert(p as int, kv));
                assert forall|i: int, j: int| 0 <= i < j < new_keys.len() implies text_lt(
                    new_keys[i],
                    new_keys[j],
                ) by {
                    if j < p {
                        assert(new_keys[i] == old_keys[i] && new_keys[j] == old_keys[j]);
                    } else if j == p {
                        assert(new_keys[i] == old_keys[i]);
                    } else if i < p {
                        assert(new_keys[i] == old_keys[i] && new_keys[j] == old_keys[j - 1]);
                        lemma_text_lt_transitive(old_keys[i], kv, old_keys[j - 1]);
                    } else if i == p {
                        assert(new_keys[j] == old_keys[j - 1]);
                    } else {
                        assert(new_keys[i] == old_keys[i - 1] && new_keys[j] == old_keys[j - 1]);
                    }
                }
                assert forall|k: Seq<char>| #[trigger] lookup(new_view, k) == if k == kv {
                    Some(value)
                } else {
                    lookup(old_view, k)
                } by {
                    assert(new_view[p as int] == new_entry);
                    lemma_lookup_at(new_view, p as int);
                    if k != kv {
                        if exists|i: int| 0 <= i < old_view.len() && old_view[i].0 == k {
                            let i = choose|i: int| 0 <= i < old_view.len() && old_view[i].0 == k;
                            lemma_lookup_at(old_view, i);
                            if i < p {
                                assert(new_view[i] == old_view[i]);
                                lemma_lookup_at(new_view, i);
                            } else {
                                assert(new_view[i + 1] == old_view[i]);
                                lemma_lookup_at(new_view, i + 1);
                            }
                        } else {
                            assert forall|i: int| 0 <= i < new_view.len() implies new_view[i].0 != k by {
                                if i < p {
                                    assert(new_view[i] == old_view[i]);
                                } else if i > p {
                                    assert(new_view[i] == old_view[i - 1]);
                                }
                            }
                            lemma_lookup_absent(new_view, k);
                        }
                    }
                }
            }
        }
        self.entries = es;
    }

    /// Takes out the value stored under `key`, if any.
    pub fn remove(&mut self, key: &str) -> (v: Option<JsonValue>)
        ensures
            v == lookup(old(self)@, key@),
            forall|k: Seq<char>|
                #[trigger] lookup(final(self)@, k) == if k == key@ {
                    None
                } else {
                    lookup(old(self)@, k)
                },
            strictly_sorted(keys_of(final(self)@)),
    {
        proof {
            use_type_invariant(&*self);
        }
        let ghost old_view = self@;
        let ghost kv = key@;
        let (p, found) = self.position(key);
        if !found {
            proof {
                assert forall|i: int| 0 <= i < old_view.len() implies old_view[i].0 != kv by {
                    assert(keys_of(old_view)[i] == old_view[i].0);
                    lemma_text_lt_irreflexive(kv);
                }
                lemma_lookup_absent(old_view, kv);
            }
            return None;
        }
        let mut es: Vec<(String, JsonValue)> = Vec::new();
        std::mem::swap(&mut es, &mut self.entries);
        assert(es@.map_values(|e: (String, JsonValue)| (e.0@, e.1)) == old_view);
        let removed = es.remove(p);
        let ghost new_view = es@.map_values(|e: (String, JsonValue)| (e.0@, e.1));
        proof {
            assert(new_view =~= old_view.remove(p as int));
            let old_keys = keys_of(old_view);
            let new_keys = keys_of(new_view);
            assert(new_keys =~= old_keys.remove(p as int));
            assert forall|i: int, j: int| 0 <= i < j < new_keys.len() implies text_lt(
                new_keys[i],
                new_keys[j],
            ) by {
                if j < p {
                    assert(new_keys[i] == old_keys[i] && new_keys[j] == old_keys[j]);
                } else if i < p {
                    assert(new_keys[i] == old_keys[i] && new_keys[j] == old_keys[j + 1]);
                } else {
                    assert(new_keys[i] == old_keys[i + 1] && new_keys[j] == old_keys[j + 1]);
                }
            }
            assert(old_keys[p as int] == old_view[p as int].0);
            lemma_lookup_at(old_view, p as int);
            assert forall|k: Seq<char>| #[trigger] lookup(new_view, k) == if k == kv {
                None
            } else {
                lookup(old_view, k)
            } by {
                if k == kv {
                    assert forall|i: int| 0 <= i < new_view.len() implies new_view[i].0 != k by {
                        if i < p {
                            assert(new_view[i] == old_view[i]);
                            assert(text_lt(old_keys[i], old_keys[p as int]));
                        } else {
                            assert(new_view[i] == old_view[i + 1]);
                            assert(text_lt(old_keys[p as int], old_keys[i + 1]));
                        }
                        lemma_text_lt_irreflexive(kv);
                    }
                    lemma_lookup_absent(new_view, k);
                } else {
                    if exists|i: int| 0 <= i < old_view.len() && old_view[i].0 == k {
                        let i = choose|i: int| 0 <= i < old_view.len() && old_view[i].0 == k;
                        lemma_lookup_at(old_view, i);
                        assert(i != p);
                        if i < p {
                            assert(new_view[i] == old_view[i]);
                            lemma_lookup_at(new_view, i);
                        } else {
                            assert(new_view[i - 1] == old_view[i]);
                            lemma_lookup_at(new_view, i - 1);
                        }
                    } else {
                        assert forall|i: int| 0 <= i < new_view.len() implies new_view[i].0 != k by {
                            if i < p {
                                assert(new_view[i] == old_view[i]);
                            } else {
                                assert(new_view[i] == old_view[i + 1]);
                            }
                        }
                        lemma_lookup_absent(new_view, k);
                    }
                }
            }
        }
        self.entries = es;
        Some(removed.1)
    }
}

} // verus!
