//! A cache of the latest state of each resource of one kind, by name.

use vstd::prelude::*;
use vstd::string::*;
use crate::watch::{Crd, CrdList, Named, WatchEvent};

verus! {

/// The resources by name, each name once.
pub type ResourceMap<T> = Vec<(String, T)>;

/// The resources last seen, and the version of the cluster's state that
/// they were seen at.
#[derive(Default, Clone)]
pub struct Cache<T> {
    pub data: ResourceMap<T>,
    /// Current resourceVersion used for bookkeeping
    pub version: String,
}

/// The mathematical value of a `Cache`.
pub struct CacheView<T> {
    pub data: Map<Seq<char>, T>,
    pub version: Seq<char>,
}

/// Whether the entry `e` stands under the name `key`.
pub open spec fn keyed<T>(e: (String, T), key: Seq<char>) -> bool {
    e.0@ == key
}

/// What `entries` holds under `key`: the value of the first entry with
/// that name.
pub open spec fn held<T>(entries: Seq<(String, T)>, key: Seq<char>) -> Option<T>
    decreases entries.len(),
{
    if entries.len() == 0 {
        None
    } else if keyed(entries[0], key) {
        Some(entries[0].1)
    } else {
        held(entries.drop_first(), key)
    }
}

/// No two entries stand under the same name.
pub open spec fn distinct_keys<T>(entries: Seq<(String, T)>) -> bool {
    forall|i: int, j: int|
        0 <= i < entries.len() && 0 <= j < entries.len() && keyed(
            #[trigger] entries[i],
            (#[trigger] entries[j]).0@,
        ) ==> i == j
}

/// The map from names to values that `entries` stands for.
pub open spec fn map_of<T>(entries: Seq<(String, T)>) -> Map<Seq<char>, T> {
    Map::new(|k: Seq<char>| held(entries, k) is Some, |k: Seq<char>| held(entries, k)->0)
}

/// The version to keep after a resource with the version `seen` went by:
/// `seen`, unless it is empty.
pub open spec fn newer(kept: Seq<char>, seen: Seq<char>) -> Seq<char> {
    if seen.len() == 0 {
        kept
    } else {
        seen
    }
}

/// The cache after one event of a watch. An added resource is taken up
/// unless its name is known; a modified one replaces what is known under
/// its name and is ignored otherwise; a deleted one is dropped. Each of the
/// three leaves its version, where it has one. An error changes nothing.
pub open spec fn after_event<T: Named>(c: CacheView<T>, ev: WatchEvent<Crd<T>>) -> CacheView<T> {
    match ev {
        WatchEvent::Added(o) => CacheView {
            data: if c.data.contains_key(o.spec.named()) {
                c.data
            } else {
                c.data.insert(o.spec.named(), o.spec)
            },
            version: newer(c.version, o.metadata.resourceVersion@),
        },
        WatchEvent::Modified(o) => CacheView {
            data: if c.data.contains_key(o.spec.named()) {
                c.data.insert(o.spec.named(), o.spec)
            } else {
                c.data
            },
            version: newer(c.version, o.metadata.resourceVersion@),
        },
        WatchEvent::Deleted(o) => CacheView {
            data: c.data.remove(o.spec.named()),
            version: newer(c.version, o.metadata.resourceVersion@),
        },
        WatchEvent::Error(_) => c,
    }
}

/// The cache after the events `evs` in order.
pub open spec fn after_events<T: Named>(c: CacheView<T>, evs: Seq<WatchEvent<Crd<T>>>) -> CacheView<
    T,
>
    decreases evs.len(),
{
    if evs.len() == 0 {
        c
    } else {
        after_event(after_events(c, evs.drop_last()), evs.last())
    }
}

/// The map after each of `items` was put under its name, in order: of two
/// items with one name the later stays.
pub open spec fn listed<T: Named>(items: Seq<Crd<T>>) -> Map<Seq<char>, T>
    decreases items.len(),
{
    if items.len() == 0 {
        Map::empty()
    } else {
        listed(items.drop_last()).insert(items.last().spec.named(), items.last().spec)
    }
}

impl<T> View for Cache<T> {
    type V = CacheView<T>;

    open spec fn view(&self) -> CacheView<T> {
        CacheView { data: map_of(self.data@), version: self.version@ }
    }
}

proof fn lemma_held_at<T>(entries: Seq<(String, T)>, k: int, key: Seq<char>)
    requires
        0 <= k < entries.len(),
        keyed(entries[k], key),
        forall|j: int| 0 <= j < k ==> !keyed(#[trigger] entries[j], key),
    ensures
        held(entries, key) == Some(entries[k].1),
    decreases k,
{
    if k > 0 {
        let rest = entries.drop_first();
        assert(rest[k - 1] == entries[k]);
        assert forall|j: int| 0 <= j < k - 1 implies !keyed(#[trigger] rest[j], key) by {
            assert(rest[j] == entries[j + 1]);
        }
        assert(!keyed(entries[0], key));
        lemma_held_at(rest, k - 1, key);
    }
}

proof fn lemma_held_none<T>(entries: Seq<(String, T)>, key: Seq<char>)
    requires
        forall|j: int| 0 <= j < entries.len() ==> !keyed(#[trigger] entries[j], key),
    ensures
        held(entries, key) is None,
    decreases entries.len(),
{
    if entries.len() > 0 {
        let rest = entries.drop_first();
        assert forall|j: int| 0 <= j < rest.len() implies !keyed(#[trigger] rest[j], key) by {
            assert(rest[j] == entries[j + 1]);
        }
        assert(!keyed(entries[0], key));
        lemma_held_none(rest, key);
    }
}

/// What is held under `key` is the value of an entry under that name.
proof fn lemma_held_some<T>(entries: Seq<(String, T)>, key: Seq<char>)
    requires
        held(entries, key) is Some,
    ensures
        exists|k: int|
            0 <= k < entries.len() && keyed(#[trigger] entries[k], key) && held(entries, key)
                == Some(entries[k].1),
    decreases entries.len(),
{
    if keyed(entries[0], key) {
        assert(0 <= 0 < entries.len() && keyed(entries[0], key));
    } else {
        let rest = entries.drop_first();
        lemma_held_some(rest, key);
        let k = choose|k: int|
            0 <= k < rest.len() && keyed(#[trigger] rest[k], key) && held(rest, key) == Some(
                rest[k].1,
            );
        assert(rest[k] == entries[k + 1]);
        assert(keyed(entries[k + 1], key));
    }
}

/// Under distinct names, what is held under the name of an entry is the
/// value of that entry.
proof fn lemma_held_entry<T>(entries: Seq<(String, T)>, k: int)
    requires
        distinct_keys(entries),
        0 <= k < entries.len(),
    ensures
        held(entries, entries[k].0@) == Some(entries[k].1),
{
    let key = entries[k].0@;
    assert forall|j: int| 0 <= j < k implies !keyed(#[trigger] entries[j], key) by {
        if keyed(entries[j], key) {
            assert(keyed(entries[j], entries[k].0@));
        }
    }
    assert(keyed(entries[k], key));
    lemma_held_at(entries, k, key);
}

/// Under distinct names, what is held under a name without an entry is
/// nothing, and what is held under any name is decided by the one entry
/// that has it.
proof fn lemma_held_is<T>(entries: Seq<(String, T)>, key: Seq<char>)
    requires
        distinct_keys(entries),
    ensures
        held(entries, key) is Some <==> exists|k: int|
            0 <= k < entries.len() && keyed(#[trigger] entries[k], key),
        forall|k: int|
            0 <= k < entries.len() && keyed(#[trigger] entries[k], key) ==> held(entries, key)
                == Some(entries[k].1),
{
    if held(entries, key) is Some {
        lemma_held_some(entries, key);
    }
    if !(exists|k: int| 0 <= k < entries.len() && keyed(#[trigger] entries[k], key)) {
        lemma_held_none(entries, key);
    }
    assert forall|k: int| 0 <= k < entries.len() && keyed(#[trigger] entries[k], key) implies held(
        entries,
        key,
    ) == Some(entries[k].1) by {
        lemma_held_entry(entries, k);
    }
}

/// The first position of `data` that stands under the name `key`.
fn position<T>(data: &Vec<(String, T)>, key: &String) -> (r: Option<usize>)
    ensures
        match r {
            Some(i) => i < data@.len() && keyed(data@[i as int], key@),
            None => forall|j: int| 0 <= j < data@.len() ==> !keyed(#[trigger] data@[j], key@),
        },
{
    let mut i: usize = 0;
    while i < data.len()
        invariant
            i <= data.len(),
            forall|j: int| 0 <= j < i ==> !keyed(#[trigger] data@[j], key@),
        decreases data.len() - i,
    {
        if data[i].0 == *key {
            return Some(i);
        }
        i += 1;
    }
    None
}

/// Puts `value` under `key`, in place of what stood there.
fn put<T>(data: &mut Vec<(String, T)>, key: String, value: T)
    requires
        distinct_keys(old(data)@),
    ensures
        distinct_keys(final(data)@),
        map_of(final(data)@) == map_of(old(data)@).insert(key@, value),
{
    let ghost before = data@;
    let ghost name = key@;
    let found = position(data, &key);
    let ghost slot: int = match found {
        Some(i) => i as int,
        None => before.len() as int,
    };
    match found {
        Some(i) => {
            data.set(i, (key, value));
        },
        None => {
            data.push((key, value));
        },
    }
    proof {
        let after = data@;
        assert(after[slot].1 == value && keyed(after[slot], name));
        assert forall|a: int| 0 <= a < before.len() && a != slot implies #[trigger] after[a]
            == before[a] by {}
        assert forall|a: int, b: int|
            0 <= a < after.len() && 0 <= b < after.len() && keyed(
                #[trigger] after[a],
                (#[trigger] after[b]).0@,
            ) implies a == b by {
            if a < before.len() && b < before.len() {
                assert(keyed(before[a], before[b].0@) || keyed(before[a], name) || keyed(
                    before[b],
                    name,
                ));
                if keyed(before[a], name) && !keyed(before[b], name) {
                    assert(after[b] == before[b]);
                }
                if keyed(before[b], name) && !keyed(before[a], name) {
                    assert(after[a] == before[a]);
                }
                if keyed(before[a], name) && keyed(before[b], name) {
                    assert(keyed(before[a], before[b].0@));
                }
            }
        }
        assert forall|k: Seq<char>| true implies #[trigger] held(after, k) == (if k == name {
            Some(value)
        } else {
            held(before, k)
        }) by {
            lemma_held_is(after, k);
            lemma_held_is(before, k);
            if k == name {
                assert(keyed(after[slot], k));
            } else {
                if held(before, k) is Some {
                    let w = choose|w: int| 0 <= w < before.len() && keyed(#[trigger] before[w], k);
                    assert(after[w] == before[w]);
                    assert(keyed(after[w], k));
                }
                if held(after, k) is Some {
                    let w = choose|w: int| 0 <= w < after.len() && keyed(#[trigger] after[w], k);
                    assert(before[w] == after[w]);
                    assert(keyed(before[w], k));
                }
            }
        }
        assert(map_of(after) =~= map_of(before).insert(name, value));
    }
}

/// Drops what stands under `key`, if anything does.
fn drop_key<T>(data: &mut Vec<(String, T)>, key: &String)
    requires
        distinct_keys(old(data)@),
    ensures
        distinct_keys(final(data)@),
        map_of(final(data)@) == map_of(old(data)@).remove(key@),
{
    let ghost before = data@;
    let ghost name = key@;
    let found = position(data, key);
    match found {
        Some(i) => {
            data.remove(i);
        },
        None => {},
    }
    proof {
        let after = data@;
        let gap: int = match found {
            Some(i) => i as int,
            None => before.len() as int,
        };
        assert forall|a: int| 0 <= a < after.len() implies #[trigger] after[a] == before[if a
            < gap {
            a
        } else {
            a + 1
        }] by {}
        assert forall|a: int, b: int|
            0 <= a < after.len() && 0 <= b < after.len() && keyed(
                #[trigger] after[a],
                (#[trigger] after[b]).0@,
            ) implies a == b by {
            let a2 = if a < gap { a } else { a + 1 };
            let b2 = if b < gap { b } else { b + 1 };
            assert(after[a] == before[a2]);
            assert(after[b] == before[b2]);
            assert(keyed(before[a2], before[b2].0@));
        }
        assert forall|k: Seq<char>| true implies #[trigger] held(after, k) == (if k == name {
            None
        } else {
            held(before, k)
        }) by {
            lemma_held_is(after, k);
            lemma_held_is(before, k);
            if k == name {
                if held(after, k) is Some {
                    let w = choose|w: int| 0 <= w < after.len() && keyed(#[trigger] after[w], k);
                    let w2 = if w < gap { w } else { w + 1 };
                    assert(after[w] == before[w2]);
                    assert(keyed(before[w2], name));
                    if found is Some {
                        assert(keyed(before[gap], name));
                        assert(keyed(before[w2], before[gap].0@));
                    }
                }
            } else {
                if held(before, k) is Some {
                    let w = choose|w: int| 0 <= w < before.len() && keyed(#[trigger] before[w], k);
                    let w1 = if w < gap { w } else { w - 1 };
                    assert(after[w1] == before[w]);
                    assert(keyed(after[w1], k));
                }
                if held(after, k) is Some {
                    let w = choose|w: int| 0 <= w < after.len() && keyed(#[trigger] after[w], k);
                    let w2 = if w < gap { w } else { w + 1 };
                    assert(after[w] == before[w2]);
                    assert(keyed(before[w2], k));
                }
            }
        }
        assert(map_of(after) =~= map_of(before).remove(name));
    }
}

/// Tells whether anything stands under `key`.
fn knows<T>(data: &Vec<(String, T)>, key: &String) -> (r: bool)
    requires
        distinct_keys(data@),
    ensures
        r == map_of(data@).contains_key(key@),
{
    proof {
        lemma_held_is(data@, key@);
    }
    position(data, key).is_some()
}

/// The items of `v` from the last to the first.
fn reversed<E>(v: Vec<E>) -> (r: Vec<E>)
    ensures
        r@.len() == v@.len(),
        forall|j: int| 0 <= j < r@.len() ==> r@[j] == v@[v@.len() - 1 - j],
{
    let mut v = v;
    let ghost all = v@;
    let mut out: Vec<E> = Vec::new();
    while v.len() > 0
        invariant
            v@.len() + out@.len() == all.len(),
            forall|j: int| 0 <= j < v@.len() ==> v@[j] == all[j],
            forall|j: int| 0 <= j < out@.len() ==> out@[j] == all[all.len() - 1 - j],
        decreases v.len(),
    {
        let e = v.pop();
        match e {
            Some(e) => {
                out.push(e);
            },
            None => {},
        }
    }
    out
}

impl<T> Cache<T> {
    /// No name stands twice in the cache.
    pub open spec fn wf(&self) -> bool {
        distinct_keys(self.data@)
    }

    /// Tells whether no name stands twice in the cache.
    pub fn is_wf(&self) -> (r: bool)
        ensures
            r == self.wf(),
    {
        let mut i: usize = 0;
        while i < self.data.len()
            invariant
                i <= self.data.len(),
                forall|a: int, b: int|
                    0 <= a < i && 0 <= b < self.data@.len() && keyed(
                        #[trigger] self.data@[a],
                        (#[trigger] self.data@[b]).0@,
                    ) ==> a == b,
            decreases self.data.len() - i,
        {
            let mut j: usize = 0;
            while j < self.data.len()
                invariant
                    i < self.data.len(),
                    j <= self.data.len(),
                    forall|b: int|
                        0 <= b < j && keyed(self.data@[i as int], (#[trigger] self.data@[b]).0@)
                            ==> i == b,
                decreases self.data.len() - j,
            {
                if j != i && self.data[i].0 == self.data[j].0 {
                    proof {
                        assert(keyed(self.data@[i as int], self.data@[j as int].0@));
                    }
                    return false;
                }
                j += 1;
            }
            i += 1;
        }
        true
    }

    /// Tells whether the cache holds a resource under `name`.
    pub fn contains(&self, name: &str) -> (r: bool)
        requires
            self.wf(),
        ensures
            r == self@.data.contains_key(name@),
    {
        let key = String::from_str(name);
        knows(&self.data, &key)
    }

    /// How many resources the cache holds.
    pub fn len(&self) -> (n: usize)
        ensures
            n == self.data@.len(),
    {
        self.data.len()
    }
}

/// The cache that a list of all resources starts: each item under the name
/// of its spec, the later of two with one name, at the version of the list.
pub fn get_cr_entries<T: Named>(res: CrdList<Crd<T>>) -> (c: Cache<T>)
    ensures
        c.wf(),
        c@.data == listed(res.items@),
        c@.version == res.metadata.resourceVersion@,
{
    let CrdList { apiVersion: _, kind: _, metadata, items } = res;
    let ghost all = items@;
    let mut rest = reversed(items);
    let mut data: Vec<(String, T)> = Vec::new();
    proof {
        assert(map_of(data@) =~= listed(all.take(0)));
    }
    while rest.len() > 0
        invariant
            rest@.len() <= all.len(),
            forall|j: int| 0 <= j < rest@.len() ==> rest@[j] == all[all.len() - 1 - j],
            distinct_keys(data@),
            map_of(data@) == listed(all.take(all.len() - rest@.len())),
        decreases rest.len(),
    {
        let ghost done = all.len() - rest@.len();
        match rest.pop() {
            Some(item) => {
                proof {
                    assert(item == all[done]);
                    assert(all.take(done + 1).drop_last() =~= all.take(done));
                    assert(all.take(done + 1).last() == all[done]);
                }
                let key = item.spec.name();
                put(&mut data, key, item.spec);
            },
            None => {},
        }
    }
    proof {
        assert(all.take(all.len() as int) =~= all);
    }
    Cache { data, version: metadata.resourceVersion }
}

/// Takes one event of a watch into the cache.
fn take_event<T: Named>(c: &mut Cache<T>, ev: WatchEvent<Crd<T>>)
    requires
        old(c).wf(),
    ensures
        final(c).wf(),
        final(c)@ == after_event(old(c)@, ev),
{
    match ev {
        WatchEvent::Added(o) => {
            let key = o.spec.name();
            if !knows(&c.data, &key) {
                put(&mut c.data, key, o.spec);
            }
            if o.metadata.resourceVersion.as_str().unicode_len() != 0 {
                c.version = o.metadata.resourceVersion;
            }
        },
        WatchEvent::Modified(o) => {
            let key = o.spec.name();
            if knows(&c.data, &key) {
                put(&mut c.data, key, o.spec);
            }
            if o.metadata.resourceVersion.as_str().unicode_len() != 0 {
                c.version = o.metadata.resourceVersion;
            }
        },
        WatchEvent::Deleted(o) => {
            let key = o.spec.name();
            drop_key(&mut c.data, &key);
            if o.metadata.resourceVersion.as_str().unicode_len() != 0 {
                c.version = o.metadata.resourceVersion;
            }
        },
        WatchEvent::Error(_) => {},
    }
}

/// Brings the cache `c` up to date with the events of a watch, taken in
/// the order in which they came.
pub fn watch_for_cr_updates<T: Named>(events: Vec<WatchEvent<Crd<T>>>, c: Cache<T>) -> (r: Cache<T>)
    requires
        c.wf(),
    ensures
        r.wf(),
        r@ == after_events(c@, events@),
{
    let ghost all = events@;
    let ghost start = c@;
    let mut c = c;
    let mut rest = reversed(events);
    while rest.len() > 0
        invariant
            rest@.len() <= all.len(),
            forall|j: int| 0 <= j < rest@.len() ==> rest@[j] == all[all.len() - 1 - j],
            c.wf(),
            c@ == after_events(start, all.take(all.len() - rest@.len())),
        decreases rest.len(),
    {
        let ghost done = all.len() - rest@.len();
        match rest.pop() {
            Some(ev) => {
                proof {
                    assert(ev == all[done]);
                    assert(all.take(done + 1).drop_last() =~= all.take(done));
                    assert(all.take(done + 1).last() == all[done]);
                }
                take_event(&mut c, ev);
            },
            None => {},
        }
    }
    proof {
        assert(all.take(all.len() as int) =~= all);
    }
    c
}

} // verus!
