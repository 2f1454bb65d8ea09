use vstd::prelude::*;

use crate::strutil::str_eq;
use crate::Params;
use crate::value::{Val, Value};

verus! {

/// No two entries of the sequence carry the same key.
pub open spec fn entry_keys_unique(s: Seq<(String, Value)>) -> bool {
    forall|i: int, j: int| 0 <= i < j < s.len() ==> s[i].0@ != s[j].0@
}

/// The mapping that a sequence of keyed values stands for, read from front to
/// back: a later entry for a key overrides an earlier one.
pub open spec fn assoc_map(s: Seq<(String, Value)>) -> Map<Seq<char>, Val>
    decreases s,
{
    if s.len() <= 0 {
        Map::<Seq<char>, Val>::empty()
    } else {
        assoc_map(s.subrange(0, s.len() - 1)).insert(
            s[s.len() - 1].0@,
            s[s.len() - 1].1.val(),
        )
    }
}

/// A key none of the entries carries is absent from the mapping.
proof fn lemma_assoc_absent(s: Seq<(String, Value)>, k: Seq<char>)
    requires
        forall|j: int| 0 <= j < s.len() ==> s[j].0@ != k,
    ensures
        !assoc_map(s).contains_key(k),
    decreases s.len(),
{
    if s.len() > 0 {
        let pre = s.subrange(0, s.len() - 1);
        assert(forall|j: int| 0 <= j < pre.len() ==> pre[j] == s[j]);
        lemma_assoc_absent(pre, k);
    }
}

/// Appending an entry updates the mapping at that entry's key.
proof fn lemma_assoc_push(s: Seq<(String, Value)>, p: (String, Value))
    ensures
        assoc_map(s.push(p)) == assoc_map(s).insert(p.0@, p.1.val()),
{
    assert(s.push(p).subrange(0, s.push(p).len() - 1) =~= s);
}

/// The entry that carries a key decides the mapping at that key, when keys
/// are unique.
proof fn lemma_assoc_get(s: Seq<(String, Value)>, i: int)
    requires
        entry_keys_unique(s),
        0 <= i < s.len(),
    ensures
        assoc_map(s).contains_key(s[i].0@),
        assoc_map(s)[s[i].0@] == s[i].1.val(),
    decreases s.len(),
{
    let pre = s.subrange(0, s.len() - 1);
    assert(forall|j: int| 0 <= j < pre.len() ==> pre[j] == s[j]);
    if i < s.len() - 1 {
        lemma_assoc_get(pre, i);
    }
}

/// Removing the entry that carries a key removes the key from the mapping,
/// when keys are unique.
proof fn lemma_assoc_remove(s: Seq<(String, Value)>, i: int)
    requires
        entry_keys_unique(s),
        0 <= i < s.len(),
    ensures
        assoc_map(s.remove(i)) == assoc_map(s).remove(s[i].0@),
    decreases s.len(),
{
    let k = s[i].0@;
    let pre = s.subrange(0, s.len() - 1);
    assert(forall|j: int| 0 <= j < pre.len() ==> pre[j] == s[j]);
    if i == s.len() - 1 {
        assert(s.remove(i) =~= pre);
        assert(forall|j: int| 0 <= j < pre.len() ==> pre[j].0@ != k);
        lemma_assoc_absent(pre, k);
        assert(assoc_map(pre) =~= assoc_map(s).remove(k));
    } else {
        lemma_assoc_remove(pre, i);
        let r = s.remove(i);
        assert(r.len() == s.len() - 1);
        assert(r[r.len() - 1] == s[s.len() - 1]);
        assert(r.subrange(0, r.len() - 1) =~= pre.remove(i));
        assert(assoc_map(r) == assoc_map(pre.remove(i)).insert(
            s[s.len() - 1].0@,
            s[s.len() - 1].1.val(),
        ));
        assert(s[s.len() - 1].0@ != k);
        assert(assoc_map(pre).remove(k).insert(s[s.len() - 1].0@, s[s.len() - 1].1.val())
            =~= assoc_map(pre).insert(s[s.len() - 1].0@, s[s.len() - 1].1.val()).remove(k));
    }
}

/// Context visibility is strictly sequential. A run hands one context from
/// visit to visit, so a binding made while one unit works is in the mapping
/// handed to every later unit, and was not in the mapping handed to any
/// earlier one: after a write, the written key reads as the written value
/// until it is overwritten, and every other key reads exactly as before the
/// write.
pub proof fn lemma_sequential_visibility(
    m: Map<Seq<char>, Val>,
    key: Seq<char>,
    value: Val,
    other: Seq<char>,
)
    ensures
        m.insert(key, value).contains_key(key),
        m.insert(key, value)[key] == value,
        other != key ==> m.insert(key, value).contains_key(other) == m.contains_key(other),
        other != key && m.contains_key(other) ==> m.insert(key, value)[other] == m[other],
{
}

/// What a run reads and writes: the data mapping and the metadata mapping,
/// two independent namespaces of keyed values.
pub struct ContextView {
    pub data: Map<Seq<char>, Val>,
    pub metadata: Map<Seq<char>, Val>,
}

/// The mutable, keyed store of values threaded through one run, together
/// with a second, independent store of out-of-band metadata.
#[derive(Debug)]
pub struct Context {
    data: Vec<(String, Value)>,
    metadata: Vec<(String, Value)>,
}

impl View for Context {
    type V = ContextView;

    closed spec fn view(&self) -> ContextView {
        ContextView { data: assoc_map(self.data@), metadata: assoc_map(self.metadata@) }
    }
}

/// Looks a key up among the entries: the value of the last entry that
/// carries the key.
fn entries_get<'a>(entries: &'a Vec<(String, Value)>, key: &str) -> (r: Option<&'a Value>)
    ensures
        match r {
            Some(v) => assoc_map(entries@).contains_key(key@) && v@ == assoc_map(
                entries@,
            )[key@],
            None => !assoc_map(entries@).contains_key(key@),
        },
{
    let n = entries.len();
    let mut i: usize = n;
    proof {
        assert(entries@.subrange(0, n as int) =~= entries@);
    }
    while i > 0
        invariant
            i <= n,
            n == entries@.len(),
            assoc_map(entries@).contains_key(key@) == assoc_map(
                entries@.subrange(0, i as int),
            ).contains_key(key@),
            assoc_map(entries@).contains_key(key@) ==> assoc_map(entries@)[key@]
                == assoc_map(entries@.subrange(0, i as int))[key@],
        decreases i,
    {
        i = i - 1;
        proof {
            assert(entries@.subrange(0, i + 1).subrange(0, i as int) =~= entries@.subrange(
                0,
                i as int,
            ));
            assert(entries@.subrange(0, i + 1)[i as int] == entries@[i as int]);
        }
        if str_eq(entries[i].0.as_str(), key) {
            return Some(&entries[i].1);
        }
    }
    proof {
        assert(entries@.subrange(0, 0) =~= Seq::<(String, Value)>::empty());
    }
    None
}

/// The index of the entry that carries the key, if any entry does.
fn entries_find(entries: &Vec<(String, Value)>, key: &str) -> (r: Option<usize>)
    ensures
        match r {
            Some(i) => i < entries@.len() && entries@[i as int].0@ == key@,
            None => forall|j: int| 0 <= j < entries@.len() ==> entries@[j].0@ != key@,
        },
{
    let n = entries.len();
    let mut i: usize = n;
    while i > 0
        invariant
            i <= n,
            n == entries@.len(),
            forall|j: int| i <= j < n ==> entries@[j].0@ != key@,
        decreases i,
    {
        i = i - 1;
        if str_eq(entries[i].0.as_str(), key) {
            return Some(i);
        }
    }
    None
}

/// Binds the key to the value among the entries, replacing what the key was
/// bound to before.
fn entries_set(entries: &mut Vec<(String, Value)>, key: &str, value: Value)
    requires
        entry_keys_unique(old(entries)@),
    ensures
        entry_keys_unique(final(entries)@),
        assoc_map(final(entries)@) == assoc_map(old(entries)@).insert(key@, value@),
{
    let found = entries_find(entries, key);
    match found {
        Some(i) => {
            proof {
                lemma_assoc_remove(entries@, i as int);
            }
            let _ = entries.remove(i);
            proof {
                assert(entry_keys_unique(entries@)) by {
                    assert(forall|a: int, b: int|
                        0 <= a < b < entries@.len() ==> entries@[a].0@ != entries@[b].0@);
                }
                assert(forall|j: int| 0 <= j < entries@.len() ==> entries@[j].0@ != key@)
                    by {
                    assert(forall|j: int|
                        0 <= j < entries@.len() ==> entries@[j] == old(entries)@.remove(
                            i as int,
                        )[j]);
                }
            }
            let ghost mid = entries@;
            entries.push((key.to_owned(), value));
            proof {
                lemma_assoc_push(mid, (final(entries)@[mid.len() as int].0, value));
                assert(final(entries)@.subrange(0, mid.len() as int) =~= mid);
                assert(assoc_map(final(entries)@) =~= assoc_map(old(entries)@).insert(
                    key@,
                    value@,
                ));
            }
        }
        None => {
            let ghost mid = entries@;
            entries.push((key.to_owned(), value));
            proof {
                assert(final(entries)@.subrange(0, mid.len() as int) =~= mid);
                assert(assoc_map(final(entries)@) =~= assoc_map(old(entries)@).insert(
                    key@,
                    value@,
                ));
            }
        }
    }
}

/// Unbinds the key among the entries and hands its value back.
fn entries_remove(entries: &mut Vec<(String, Value)>, key: &str) -> (r: Option<Value>)
    requires
        entry_keys_unique(old(entries)@),
    ensures
        entry_keys_unique(final(entries)@),
        assoc_map(final(entries)@) == assoc_map(old(entries)@).remove(key@),
        match r {
            Some(v) => assoc_map(old(entries)@).contains_key(key@) && v@ == assoc_map(
                old(entries)@,
            )[key@],
            None => !assoc_map(old(entries)@).contains_key(key@),
        },
{
    let found = entries_find(entries, key);
    match found {
        Some(i) => {
            proof {
                lemma_assoc_get(entries@, i as int);
                lemma_assoc_remove(entries@, i as int);
            }
            let pair = entries.remove(i);
            proof {
                assert(forall|j: int|
                    0 <= j < entries@.len() ==> entries@[j] == old(entries)@.remove(
                        i as int,
                    )[j]);
            }
            Some(pair.1)
        }
        None => {
            proof {
                lemma_assoc_absent(entries@, key@);
                assert(assoc_map(entries@) =~= assoc_map(entries@).remove(key@));
            }
            None
        }
    }
}

impl Context {
    #[verifier::type_invariant]
    spec fn wf(&self) -> bool {
        entry_keys_unique(self.data@) && entry_keys_unique(self.metadata@)
    }

    /// An empty context: no data, no metadata.
    pub fn new() -> (r: Context)
        ensures
            r@.data == Map::<Seq<char>, Val>::empty(),
            r@.metadata == Map::<Seq<char>, Val>::empty(),
    {
        Context { data: Vec::new(), metadata: Vec::new() }
    }

    /// A context pre-populated with the given data entries, read in order: a
    /// later entry for a key overrides an earlier one. Metadata starts empty.
    pub fn from_data(data: Params) -> (r: Context)
        ensures
            r@.data == assoc_map(data@),
            r@.metadata == Map::<Seq<char>, Val>::empty(),
    {
        let ghost orig = data@;
        let mut data = data;
        let mut store: Vec<(String, Value)> = Vec::new();
        let ghost mut taken: int = 0;
        while data.len() > 0
            invariant
                entry_keys_unique(store@),
                0 <= taken <= orig.len(),
                data@ =~= orig.subrange(taken, orig.len() as int),
                assoc_map(store@) == assoc_map(orig.subrange(0, taken)),
            decreases data@.len(),
        {
            let pair = data.remove(0);
            entries_set(&mut store, pair.0.as_str(), pair.1);
            proof {
                assert(pair == orig[taken]);
                assert(orig.subrange(0, taken + 1).subrange(0, taken) =~= orig.subrange(
                    0,
                    taken,
                ));
                assert(assoc_map(orig.subrange(0, taken + 1)) == assoc_map(orig.subrange(
                    0,
                    taken,
                )).insert(orig[taken].0@, orig[taken].1.val()));
                taken = taken + 1;
                assert(data@ =~= orig.subrange(taken, orig.len() as int));
            }
        }
        proof {
            assert(orig.subrange(0, taken) =~= orig);
        }
        Context { data: store, metadata: Vec::new() }
    }

    /// The value bound to the key in the data namespace, if any.
    pub fn get(&self, key: &str) -> (r: Option<&Value>)
        ensures
            match r {
                Some(v) => self@.data.contains_key(key@) && v@ == self@.data[key@],
                None => !self@.data.contains_key(key@),
            },
    {
        entries_get(&self.data, key)
    }

    /// The value bound to the key in the metadata namespace, if any.
    pub fn get_metadata(&self, key: &str) -> (r: Option<&Value>)
        ensures
            match r {
                Some(v) => self@.metadata.contains_key(key@) && v@ == self@.metadata[key@],
                None => !self@.metadata.contains_key(key@),
            },
    {
        entries_get(&self.metadata, key)
    }

    /// Binds the key to the value in the data namespace; a later binding of
    /// a key wins over an earlier one.
    pub fn set(&mut self, key: &str, value: Value)
        ensures
            final(self)@.data == old(self)@.data.insert(key@, value@),
            final(self)@.metadata == old(self)@.metadata,
    {
        proof {
            use_type_invariant(&*self);
        }
        let mut store: Vec<(String, Value)> = Vec::new();
        std::mem::swap(&mut store, &mut self.data);
        entries_set(&mut store, key, value);
        self.data = store;
    }

    /// Binds the key to the value in the metadata namespace.
    pub fn set_metadata(&mut self, key: &str, value: Value)
        ensures
            final(self)@.metadata == old(self)@.metadata.insert(key@, value@),
            final(self)@.data == old(self)@.data,
    {
        proof {
            use_type_invariant(&*self);
        }
        let mut store: Vec<(String, Value)> = Vec::new();
        std::mem::swap(&mut store, &mut self.metadata);
        entries_set(&mut store, key, value);
        self.metadata = store;
    }

    /// Unbinds the key in the data namespace and hands its value back.
    pub fn remove(&mut self, key: &str) -> (r: Option<Value>)
        ensures
            final(self)@.data == old(self)@.data.remove(key@),
            final(self)@.metadata == old(self)@.metadata,
            match r {
                Some(v) => old(self)@.data.contains_key(key@) && v@ == old(
                    self,
                )@.data[key@],
                None => !old(self)@.data.contains_key(key@),
            },
    {
        proof {
            use_type_invariant(&*self);
        }
        let mut store: Vec<(String, Value)> = Vec::new();
        std::mem::swap(&mut store, &mut self.data);
        let r = entries_remove(&mut store, key);
        self.data = store;
        r
    }

    /// Unbinds the key in the metadata namespace and hands its value back.
    pub fn remove_metadata(&mut self, key: &str) -> (r: Option<Value>)
        ensures
            final(self)@.metadata == old(self)@.metadata.remove(key@),
            final(self)@.data == old(self)@.data,
            match r {
                Some(v) => old(self)@.metadata.contains_key(key@) && v@ == old(
                    self,
                )@.metadata[key@],
                None => !old(self)@.metadata.contains_key(key@),
            },
    {
        proof {
            use_type_invariant(&*self);
        }
        let mut store: Vec<(String, Value)> = Vec::new();
        std::mem::swap(&mut store, &mut self.metadata);
        let r = entries_remove(&mut store, key);
        self.metadata = store;
        r
    }

    /// All data entries, each key bound once.
    pub fn get_all_data(&self) -> (r: &Vec<(String, Value)>)
        ensures
            assoc_map(r@) == self@.data,
            entry_keys_unique(r@),
    {
        proof {
            use_type_invariant(self);
        }
        &self.data
    }

    /// All metadata entries, each key bound once.
    pub fn get_all_metadata(&self) -> (r: &Vec<(String, Value)>)
        ensures
            assoc_map(r@) == self@.metadata,
            entry_keys_unique(r@),
    {
        proof {
            use_type_invariant(self);
        }
        &self.metadata
    }

    /// Overlays every entry of the other context onto this one, for both
    /// namespaces: on a key collision the other context's value wins.
    pub fn merge(&mut self, other: &Context)
        ensures
            final(self)@.data == old(self)@.data.union_prefer_right(other@.data),
            final(self)@.metadata == old(self)@.metadata.union_prefer_right(
                other@.metadata,
            ),
    {
        proof {
            use_type_invariant(&*self);
        }
        let mut store: Vec<(String, Value)> = Vec::new();
        std::mem::swap(&mut store, &mut self.data);
        merge_entries(&mut store, &other.data);
        self.data = store;
        let mut store_m: Vec<(String, Value)> = Vec::new();
        std::mem::swap(&mut store_m, &mut self.metadata);
        merge_entries(&mut store_m, &other.metadata);
        self.metadata = store_m;
    }

    /// Empties both namespaces.
    pub fn clear(&mut self)
        ensures
            final(self)@.data == Map::<Seq<char>, Val>::empty(),
            final(self)@.metadata == Map::<Seq<char>, Val>::empty(),
    {
        proof {
            use_type_invariant(&*self);
        }
        self.data = Vec::new();
        self.metadata = Vec::new();
    }

    /// Whether the key is bound in the data namespace.
    pub fn contains_key(&self, key: &str) -> (r: bool)
        ensures
            r == self@.data.contains_key(key@),
    {
        let v = entries_get(&self.data, key);
        v.is_some()
    }

    /// Whether the key is bound in the metadata namespace.
    pub fn contains_metadata_key(&self, key: &str) -> (r: bool)
        ensures
            r == self@.metadata.contains_key(key@),
    {
        let v = entries_get(&self.metadata, key);
        v.is_some()
    }
}

impl Default for Context {
    /// An empty context, as [`Context::new`] builds it.
    fn default() -> (r: Context)
        ensures
            r@.data == Map::<Seq<char>, Val>::empty(),
            r@.metadata == Map::<Seq<char>, Val>::empty(),
    {
        Context::new()
    }
}

impl From<Params> for Context {
    /// A context pre-populated as [`Context::from_data`] builds it.
    fn from(data: Params) -> (r: Context)
        ensures
            r@.data == assoc_map(data@),
            r@.metadata == Map::<Seq<char>, Val>::empty(),
    {
        Context::from_data(data)
    }
}

impl vstd::std_specs::convert::FromSpecImpl<Params> for Context {
    /// A context value cannot be written down in a specification, so the
    /// generic `from_spec` view stays unobeyed; what `from` builds is
    /// stated by its own clauses above.
    open spec fn obeys_from_spec() -> bool {
        false
    }

    open spec fn from_spec(v: Params) -> Context {
        arbitrary()
    }
}

/// Overlays every entry of `from` onto `entries`, in order: on a key
/// collision the entry of `from` wins.
fn merge_entries(entries: &mut Vec<(String, Value)>, from: &Vec<(String, Value)>)
    requires
        entry_keys_unique(old(entries)@),
    ensures
        entry_keys_unique(final(entries)@),
        assoc_map(final(entries)@) == assoc_map(old(entries)@).union_prefer_right(
            assoc_map(from@),
        ),
{
    let mut i: usize = 0;
    while i < from.len()
        invariant
            i <= from@.len(),
            entry_keys_unique(entries@),
            assoc_map(entries@) == assoc_map(old(entries)@).union_prefer_right(
                assoc_map(from@.subrange(0, i as int)),
            ),
        decreases from@.len() - i,
    {
        let k = from[i].0.clone();
        let v = from[i].1.duplicate();
        entries_set(entries, k.as_str(), v);
        proof {
            assert(from@.subrange(0, i + 1).subrange(0, i as int) =~= from@.subrange(
                0,
                i as int,
            ));
            assert(assoc_map(from@.subrange(0, i + 1)) == assoc_map(from@.subrange(
                0,
                i as int,
            )).insert(from@[i as int].0@, from@[i as int].1.val()));
            assert(assoc_map(old(entries)@).union_prefer_right(assoc_map(from@.subrange(
                0,
                i + 1,
            ))) =~= assoc_map(old(entries)@).union_prefer_right(assoc_map(from@.subrange(
                0,
                i as int,
            ))).insert(from@[i as int].0@, from@[i as int].1.val()));
        }
        i = i + 1;
    }
    proof {
        assert(from@.subrange(0, i as int) =~= from@);
    }
}

} // verus!
