use vstd::prelude::*;

use crate::strutil::str_eq;

verus! {

/// No two entries of the registry carry the same name.
pub open spec fn registry_keys_unique<N>(s: Seq<(String, N)>) -> bool {
    forall|i: int, j: int| 0 <= i < j < s.len() ==> s[i].0@ != s[j].0@
}

/// The binding a registry sequence stands for, read from front to back: a
/// later entry for a name overrides an earlier one.
pub open spec fn registry_map<N>(s: Seq<(String, N)>) -> Map<Seq<char>, N>
    decreases s,
{
    if s.len() <= 0 {
        Map::<Seq<char>, N>::empty()
    } else {
        registry_map(s.subrange(0, s.len() - 1)).insert(s[s.len() - 1].0@, s[s.len() - 1].1)
    }
}

/// A name none of the entries carries is bound to nothing.
proof fn lemma_registry_absent<N>(s: Seq<(String, N)>, k: Seq<char>)
    requires
        forall|j: int| 0 <= j < s.len() ==> s[j].0@ != k,
    ensures
        !registry_map(s).contains_key(k),
    decreases s.len(),
{
    if s.len() > 0 {
        let pre = s.subrange(0, s.len() - 1);
        assert(forall|j: int| 0 <= j < pre.len() ==> pre[j] == s[j]);
        lemma_registry_absent(pre, k);
    }
}

/// Appending an entry binds its name to its item.
proof fn lemma_registry_push<N>(s: Seq<(String, N)>, p: (String, N))
    ensures
        registry_map(s.push(p)) == registry_map(s).insert(p.0@, p.1),
{
    assert(s.push(p).subrange(0, s.push(p).len() - 1) =~= s);
}

/// The entry that carries a name decides the binding at that name, when
/// names are unique.
proof fn lemma_registry_get<N>(s: Seq<(String, N)>, i: int)
    requires
        registry_keys_unique(s),
        0 <= i < s.len(),
    ensures
        registry_map(s).contains_key(s[i].0@),
        registry_map(s)[s[i].0@] == s[i].1,
    decreases s.len(),
{
    let pre = s.subrange(0, s.len() - 1);
    assert(forall|j: int| 0 <= j < pre.len() ==> pre[j] == s[j]);
    if i < s.len() - 1 {
        lemma_registry_get(pre, i);
    }
}

/// Replacing the entry that carries a name rebinds that name and nothing
/// else, when names are unique.
proof fn lemma_registry_update<N>(s: Seq<(String, N)>, k: int, p: (String, N))
    requires
        registry_keys_unique(s),
        0 <= k < s.len(),
        s[k].0@ == p.0@,
    ensures
        registry_map(s.update(k, p)) == registry_map(s).insert(p.0@, p.1),
    decreases s.len(),
{
    let t = s.update(k, p);
    let pre = s.subrange(0, s.len() - 1);
    assert(forall|j: int| 0 <= j < pre.len() ==> pre[j] == s[j]);
    if k == s.len() - 1 {
        assert(t.subrange(0, t.len() - 1) =~= pre);
        assert(registry_map(t) == registry_map(pre).insert(p.0@, p.1));
        assert(registry_map(pre).insert(p.0@, p.1) =~= registry_map(s).insert(p.0@, p.1));
    } else {
        lemma_registry_update(pre, k, p);
        assert(t.subrange(0, t.len() - 1) =~= pre.update(k, p));
        assert(t[t.len() - 1] == s[s.len() - 1]);
        assert(registry_map(t) == registry_map(pre).insert(p.0@, p.1).insert(
            s[s.len() - 1].0@,
            s[s.len() - 1].1,
        ));
        assert(s[s.len() - 1].0@ != p.0@);
        assert(registry_map(pre).insert(p.0@, p.1).insert(s[s.len() - 1].0@, s[s.len() - 1].1)
            =~= registry_map(pre).insert(s[s.len() - 1].0@, s[s.len() - 1].1).insert(
            p.0@,
            p.1,
        ));
    }
}

/// Binds the name to the item, replacing the entry that carried the name
/// before, or appending one when none did.
pub(crate) fn registry_upsert<N>(entries: &mut Vec<(String, N)>, name: String, item: N)
    requires
        registry_keys_unique(old(entries)@),
    ensures
        registry_keys_unique(final(entries)@),
        registry_map(final(entries)@) == registry_map(old(entries)@).insert(name@, item),
{
    let n = entries.len();
    let mut i: usize = 0;
    let mut found: Option<usize> = None;
    while i < n
        invariant
            i <= n,
            n == entries@.len(),
            match found {
                Some(k) => k < n && entries@[k as int].0@ == name@,
                None => forall|j: int| 0 <= j < i ==> entries@[j].0@ != name@,
            },
        decreases n - i,
    {
        if found.is_none() {
            if str_eq(entries[i].0.as_str(), name.as_str()) {
                found = Some(i);
            }
        }
        i = i + 1;
    }
    match found {
        Some(k) => {
            proof {
                lemma_registry_update(entries@, k as int, (name, item));
            }
            entries[k] = (name, item);
        }
        None => {
            let ghost before = entries@;
            entries.push((name, item));
            proof {
                lemma_registry_push(before, (name, item));
                assert(before.push((name, item)) =~= final(entries)@);
            }
        }
    }
}

/// The item bound to the name, if any entry carries it.
pub(crate) fn registry_find<'a, N>(entries: &'a Vec<(String, N)>, name: &str) -> (r: Option<
    &'a N,
>)
    requires
        registry_keys_unique(entries@),
    ensures
        match r {
            Some(item) => registry_map(entries@).contains_key(name@) && *item
                == registry_map(entries@)[name@],
            None => !registry_map(entries@).contains_key(name@),
        },
{
    let n = entries.len();
    let mut i: usize = 0;
    while i < n
        invariant
            i <= n,
            n == entries@.len(),
            registry_keys_unique(entries@),
            forall|j: int| 0 <= j < i ==> entries@[j].0@ != name@,
        decreases n - i,
    {
        if str_eq(entries[i].0.as_str(), name) {
            proof {
                lemma_registry_get(entries@, i as int);
            }
            return Some(&entries[i].1);
        }
        i = i + 1;
    }
    proof {
        lemma_registry_absent(entries@, name@);
    }
    None
}

} // verus!
