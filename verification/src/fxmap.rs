//! Maps with the Fx hash function, of `rustc_hash`.
use core::hash::Hash;
use rustc_hash::FxBuildHasher;
use rustc_hash::FxHashMap;
use vstd::prelude::*;

verus! {

/// `rustc_hash::FxBuildHasher`, which makes the hashers of an `FxHashMap`.
#[verifier::external_type_specification]
#[verifier::external_body]
pub struct ExFxBuildHasher(FxBuildHasher);

/// The key types in use. Two keys of such a type are equal, and have equal
/// hashes, exactly if their views are the same.
pub(crate) trait FxKey: View + Eq + Hash + Clone {
    /// The same key once more.
    fn duplicate(&self) -> (copy: Self)
        ensures
            copy@ == self@,
    ;
}

impl FxKey for u64 {
    fn duplicate(&self) -> (copy: Self) {
        *self
    }
}

impl FxKey for i64 {
    fn duplicate(&self) -> (copy: Self) {
        *self
    }
}

impl FxKey for String {
    fn duplicate(&self) -> (copy: Self) {
        self.clone()
    }
}

/// What a map holds, by the views of its keys and values.
pub closed spec fn contents<K: View, V: View>(map: FxHashMap<K, V>) -> Map<K::V, V::V> {
    Map::new(
        |t: K::V| exists|key: K| map@.contains_key(key) && key@ == t,
        |t: K::V| map@[choose|key: K| map@.contains_key(key) && key@ == t]@,
    )
}

/// `order` names each element of `set` once.
pub open spec fn lists<T>(order: Seq<T>, set: Set<T>) -> bool {
    &&& order.no_duplicates()
    &&& forall|t: T| #[trigger] order.contains(t) <==> set.contains(t)
}

/// The views of a list.
pub open spec fn views<K: View>(list: Seq<K>) -> Seq<K::V> {
    list.map_values(|k: K| k@)
}

/// `out` names once each of the first `n` keys that are wanted.
spec fn picks<T>(out: Seq<T>, keys: Seq<T>, n: int, wanted: Set<T>) -> bool {
    &&& out.no_duplicates()
    &&& forall|t: T| #[trigger]
        out.contains(t) <==> wanted.contains(t) && exists|j: int|
            0 <= j < n && #[trigger] keys[j] == t
}

proof fn lemma_picks_step<T>(out: Seq<T>, keys: Seq<T>, n: int, wanted: Set<T>)
    requires
        picks(out, keys, n, wanted),
        keys.no_duplicates(),
        0 <= n < keys.len(),
    ensures
        wanted.contains(keys[n]) ==> picks(out.push(keys[n]), keys, n + 1, wanted),
        !wanted.contains(keys[n]) ==> picks(out, keys, n + 1, wanted),
{
    let key = keys[n];
    if out.contains(key) {
        let j = choose|j: int| 0 <= j < n && #[trigger] keys[j] == key;
        assert(false);
    }
    let next = if wanted.contains(key) {
        out.push(key)
    } else {
        out
    };
    assert forall|t: T| #[trigger] next.contains(t) <==> wanted.contains(t) && exists|j: int|
        0 <= j < n + 1 && #[trigger] keys[j] == t by {
        if next.contains(t) {
            if wanted.contains(key) && t == key {
                assert(keys[n] == t);
            } else {
                let i = choose|i: int| 0 <= i < next.len() && next[i] == t;
                assert(out[i] == t);
                assert(out.contains(t));
            }
        }
        if wanted.contains(t) && exists|j: int| 0 <= j < n + 1 && #[trigger] keys[j] == t {
            let j = choose|j: int| 0 <= j < n + 1 && #[trigger] keys[j] == t;
            if j == n {
                assert(next.last() == t);
            } else {
                assert(out.contains(t));
                let i = choose|i: int| 0 <= i < out.len() && out[i] == t;
                assert(next[i] == t);
            }
        }
    }
    assert(next.no_duplicates()) by {
        assert forall|i: int, j: int| 0 <= i < next.len() && 0 <= j < next.len() && i
            != j implies next[i] != next[j] by {
            if i == out.len() {
                assert(out.contains(out[j]));
            }
            if j == out.len() {
                assert(out.contains(out[i]));
            }
        }
    }
}

proof fn lemma_picks_done<T>(out: Seq<T>, keys: Seq<T>, all: Set<T>, wanted: Set<T>)
    requires
        lists(keys, all),
        picks(out, keys, keys.len() as int, wanted),
        wanted.subset_of(all),
    ensures
        lists(out, wanted),
{
    assert forall|t: T| #[trigger] out.contains(t) <==> wanted.contains(t) by {
        if wanted.contains(t) {
            assert(keys.contains(t));
            let j = choose|j: int| 0 <= j < keys.len() && keys[j] == t;
            assert(keys[j] == t);
        }
    }
}

pub(crate) proof fn lemma_take_to_set<T>(order: Seq<T>, n: int)
    requires
        0 <= n < order.len(),
    ensures
        order.take(n + 1).to_set() == order.take(n).to_set().insert(order[n]),
{
    let shorter = order.take(n);
    let longer = order.take(n + 1);
    assert forall|t: T| longer.contains(t) == (shorter.contains(t) || t == order[n]) by {
        if shorter.contains(t) {
            let j = choose|j: int| 0 <= j < shorter.len() && shorter[j] == t;
            assert(longer[j] == t);
        }
        if longer.contains(t) {
            let j = choose|j: int| 0 <= j < longer.len() && longer[j] == t;
            assert(j < n ==> shorter[j] == t);
        }
        assert(longer[n] == order[n]);
    }
    assert(longer.to_set() =~= shorter.to_set().insert(order[n]));
}

/// A set has as many elements as a list that names each of them once.
pub proof fn lemma_lists_len<T>(order: Seq<T>, set: Set<T>)
    requires
        lists(order, set),
    ensures
        set.finite(),
        set.len() == order.len(),
{
    order.unique_seq_to_set();
    assert(order.to_set() =~= set);
}

/// `FxHashMap::default` makes a map without entries.
#[verifier::external_body]
pub(crate) fn fx_new<K: FxKey, V: View>() -> (map: FxHashMap<K, V>)
    ensures
        contents(map) =~= Map::empty(),
{
    FxHashMap::default()
}

/// `HashMap::insert` of an `FxHashMap`: the entry for `key` is `value` from
/// now on.
#[verifier::external_body]
pub(crate) fn fx_insert<K: FxKey, V: View>(map: &mut FxHashMap<K, V>, key: K, value: V)
    ensures
        contents(*final(map)) == contents(*old(map)).insert(key@, value@),
{
    map.insert(key, value);
}

/// `HashMap::remove` of an `FxHashMap`: the entry for `key` is gone and handed
/// out.
#[verifier::external_body]
pub(crate) fn fx_remove<K: FxKey, V: View>(map: &mut FxHashMap<K, V>, key: &K) -> (value: Option<V>)
    ensures
        contents(*final(map)) == contents(*old(map)).remove(key@),
        match value {
            Some(v) => contents(*old(map)).contains_key(key@) && contents(*old(map))[key@] == v@,
            None => !contents(*old(map)).contains_key(key@),
        },
{
    map.remove(key)
}

/// `HashMap::get` of an `FxHashMap`: the value of the entry for `key`.
#[verifier::external_body]
pub(crate) fn fx_get<'a, K: FxKey, V: View>(map: &'a FxHashMap<K, V>, key: &K) -> (value: Option<
    &'a V,
>)
    ensures
        match value {
            Some(v) => contents(*map).contains_key(key@) && contents(*map)[key@] == v@,
            None => !contents(*map).contains_key(key@),
        },
{
    map.get(key)
}

/// `HashMap::keys` of an `FxHashMap`, cloned: every key once, in the order in
/// which the map is walked, of which nothing is known.
#[verifier::external_body]
pub(crate) fn fx_keys<K: FxKey, V: View>(map: &FxHashMap<K, V>) -> (keys: Vec<K>)
    ensures
        lists(views(keys@), contents(*map).dom()),
{
    map.keys().cloned().collect()
}

/// The keys of the entries that are wanted.
pub open spec fn selected<K, V>(map: Map<K, V>, wanted: spec_fn(V) -> bool) -> Set<K> {
    Set::new(|key: K| map.contains_key(key) && wanted(map[key]))
}

/// Lists the keys of the entries for which `holds` does.
pub(crate) fn fx_keys_where<K: FxKey, V: View, F: Fn(&V) -> bool>(
    map: &FxHashMap<K, V>,
    holds: F,
    Ghost(wanted): Ghost<spec_fn(V::V) -> bool>,
) -> (picked: Vec<K>)
    requires
        forall|value: &V| #[trigger] holds.requires((value,)),
        forall|value: &V, result: bool| #[trigger]
            holds.ensures((value,), result) ==> result == wanted(value@),
    ensures
        lists(views(picked@), selected(contents(*map), wanted)),
        picked@.len() <= contents(*map).dom().len(),
{
    let keys = fx_keys(map);
    let ghost all = views(keys@);
    let ghost chosen = selected(contents(*map), wanted);
    let mut picked: Vec<K> = Vec::new();
    let mut i: usize = 0;
    while i < keys.len()
        invariant
            picked@.len() <= i <= keys@.len(),
            all == views(keys@),
            lists(all, contents(*map).dom()),
            chosen == selected(contents(*map), wanted),
            picks(views(picked@), all, i as int, chosen),
            forall|value: &V| #[trigger] holds.requires((value,)),
            forall|value: &V, result: bool| #[trigger]
                holds.ensures((value,), result) ==> result == wanted(value@),
        decreases keys@.len() - i,
    {
        let ghost so_far = views(picked@);
        proof {
            lemma_picks_step(so_far, all, i as int, chosen);
            assert(all.contains(all[i as int]));
        }
        if let Some(value) = fx_get(map, &keys[i]) {
            if holds(value) {
                picked.push(keys[i].duplicate());
                assert(views(picked@) =~= so_far.push(all[i as int]));
            }
        }
        i += 1;
    }
    proof {
        lemma_picks_done(views(picked@), all, contents(*map).dom(), chosen);
        lemma_lists_len(all, contents(*map).dom());
    }
    picked
}

} // verus!
