//! A bounded cache of texts, kept by the `lru` crate.
use vstd::prelude::*;

verus! {

#[verifier::external_type_specification]
#[verifier::external_body]
#[verifier::reject_recursive_types(K)]
#[verifier::reject_recursive_types(V)]
#[verifier::reject_recursive_types(S)]
pub struct ExLruCache<K, V, S>(lru::LruCache<K, V, S>);

/// A cache from texts to texts.
pub type TextCache = lru::LruCache<String, String, std::collections::hash_map::RandomState>;

/// The entries of a text cache, by key.
pub uninterp spec fn cache_entries(c: TextCache) -> Map<Seq<char>, Seq<char>>;

/// The keys of a text cache from the most recently used to the least.
pub uninterp spec fn cache_order(c: TextCache) -> Seq<Seq<char>>;

/// The number of entries that a text cache holds at most.
pub uninterp spec fn cache_capacity(c: TextCache) -> nat;

/// `order` lists each key of `entries` once.
pub open spec fn order_lists(entries: Map<Seq<char>, Seq<char>>, order: Seq<Seq<char>>) -> bool {
    &&& order.no_duplicates()
    &&& forall|k: Seq<char>| #[trigger] entries.contains_key(k) <==> order.contains(k)
    &&& entries.dom().finite()
    &&& order.len() == entries.len()
}

/// Where `key` stands in `order`.
pub open spec fn key_position(order: Seq<Seq<char>>, key: Seq<char>) -> int {
    choose|i: int| 0 <= i < order.len() && order[i] == key
}

/// The order after `key`, which it lists, is used: `key` first, the others
/// as they were.
pub open spec fn to_front(order: Seq<Seq<char>>, key: Seq<char>) -> Seq<Seq<char>> {
    seq![key] + order.remove(key_position(order, key))
}

/// Moving a listed key to the front lists the same keys, each once.
pub proof fn lemma_to_front_lists(entries: Map<Seq<char>, Seq<char>>, order: Seq<Seq<char>>, key: Seq<char>)
    requires
        order_lists(entries, order),
        entries.contains_key(key),
    ensures
        order_lists(entries, to_front(order, key)),
{
    assert(order.contains(key));
    let i = key_position(order, key);
    let r = order.remove(i);
    let t = to_front(order, key);
    assert(0 <= i < order.len() && order[i] == key);
    assert forall|j: int| 0 <= j < r.len() implies r[j] != key by {
        if j < i {
            assert(r[j] == order[j]);
        } else {
            assert(r[j] == order[j + 1]);
        }
    }
    assert forall|a: int, b: int| 0 <= a < t.len() && 0 <= b < t.len() && a != b implies t[a] != t[b] by {
        if a > 0 && b > 0 {
            let ia = if a - 1 < i { a - 1 } else { a };
            let ib = if b - 1 < i { b - 1 } else { b };
            assert(t[a] == order[ia] && t[b] == order[ib]);
        } else if a == 0 {
            assert(t[b] == r[b - 1]);
        } else {
            assert(t[a] == r[a - 1]);
        }
    }
    assert forall|k: Seq<char>| #[trigger] entries.contains_key(k) <==> t.contains(k) by {
        if entries.contains_key(k) {
            assert(order.contains(k));
            let j = choose|j: int| 0 <= j < order.len() && order[j] == k;
            if j < i {
                assert(t[j + 1] == k);
            } else if j > i {
                assert(t[j] == k);
            } else {
                assert(t[0] == k);
            }
        }
        if t.contains(k) {
            let j = choose|j: int| 0 <= j < t.len() && t[j] == k;
            if j == 0 {
            } else if j - 1 < i {
                assert(order[j - 1] == k);
            } else {
                assert(order[j] == k);
            }
        }
    }
}

/// A put keeps every key listed once and the cache within its capacity.
pub proof fn lemma_after_put_lists(
    entries: Map<Seq<char>, Seq<char>>,
    order: Seq<Seq<char>>,
    cap: nat,
    key: Seq<char>,
    value: Seq<char>,
)
    requires
        order_lists(entries, order),
        cap > 0,
        entries.len() <= cap,
    ensures
        order_lists(after_put(entries, order, cap, key, value).0, after_put(entries, order, cap, key, value).1),
        after_put(entries, order, cap, key, value).0.len() <= cap,
{
    let (e2, o2) = after_put(entries, order, cap, key, value);
    if entries.contains_key(key) {
        lemma_to_front_lists(entries, order, key);
        assert(e2.dom() =~= entries.dom());
        assert forall|k: Seq<char>| #[trigger] e2.contains_key(k) <==> o2.contains(k) by {
            assert(entries.contains_key(k) <==> to_front(order, key).contains(k));
        }
    } else {
        assert(!order.contains(key));
        if entries.len() < cap {
            assert(e2.dom() =~= entries.dom().insert(key));
            assert forall|a: int, b: int| 0 <= a < o2.len() && 0 <= b < o2.len() && a != b implies o2[a] != o2[b] by {
                if a == 0 {
                    assert(o2[b] == order[b - 1]);
                } else if b == 0 {
                    assert(o2[a] == order[a - 1]);
                } else {
                    assert(o2[a] == order[a - 1] && o2[b] == order[b - 1]);
                }
            }
            assert forall|k: Seq<char>| #[trigger] e2.contains_key(k) <==> o2.contains(k) by {
                if o2.contains(k) && k != key {
                    let j = choose|j: int| 0 <= j < o2.len() && o2[j] == k;
                    assert(order[j - 1] == k);
                }
                if entries.contains_key(k) {
                    assert(order.contains(k));
                    let j = choose|j: int| 0 <= j < order.len() && order[j] == k;
                    assert(o2[j + 1] == k);
                }
                if k == key {
                    assert(o2[0] == key);
                }
            }
        } else {
            assert(order.len() > 0);
            let last = order.last();
            assert(order.contains(last));
            assert(entries.contains_key(last));
            let d = order.drop_last();
            assert(forall|j: int| 0 <= j < d.len() ==> d[j] != last);
            assert(e2.dom() =~= entries.dom().remove(last).insert(key));
            assert forall|a: int, b: int| 0 <= a < o2.len() && 0 <= b < o2.len() && a != b implies o2[a] != o2[b] by {
                if a == 0 {
                    assert(o2[b] == order[b - 1]);
                } else if b == 0 {
                    assert(o2[a] == order[a - 1]);
                } else {
                    assert(o2[a] == order[a - 1] && o2[b] == order[b - 1]);
                }
            }
            assert forall|k: Seq<char>| #[trigger] e2.contains_key(k) <==> o2.contains(k) by {
                if o2.contains(k) && k != key {
                    let j = choose|j: int| 0 <= j < o2.len() && o2[j] == k;
                    assert(order[j - 1] == k);
                    assert(k != last);
                }
                if entries.contains_key(k) && k != last {
                    assert(order.contains(k));
                    let j = choose|j: int| 0 <= j < order.len() && order[j] == k;
                    assert(j != order.len() - 1);
                    assert(o2[j + 1] == k);
                }
                if k == key {
                    assert(o2[0] == key);
                }
            }
        }
    }
}

/// The entries and the order after `key` is set to `value` in a cache of
/// `cap` entries: an existing key is updated and becomes the most recent; a
/// new key is added as the most recent, and when the cache was full the least
/// recently used entry is dropped to make room.
pub open spec fn after_put(
    entries: Map<Seq<char>, Seq<char>>,
    order: Seq<Seq<char>>,
    cap: nat,
    key: Seq<char>,
    value: Seq<char>,
) -> (Map<Seq<char>, Seq<char>>, Seq<Seq<char>>) {
    if entries.contains_key(key) {
        (entries.insert(key, value), to_front(order, key))
    } else if entries.len() < cap {
        (entries.insert(key, value), seq![key] + order)
    } else {
        (entries.remove(order.last()).insert(key, value), seq![key] + order.drop_last())
    }
}

/// Calls `LruCache::with_hasher` with a capacity of `cap` entries and std's
/// `RandomState` as the hasher. Claimed: the cache is empty and has that
/// capacity.
#[verifier::external_body]
pub(crate) fn new_text_cache(cap: usize) -> (c: TextCache)
    requires
        cap > 0,
    ensures
        cache_entries(c).dom() == Set::<Seq<char>>::empty(),
        cache_order(c) == Seq::<Seq<char>>::empty(),
        cache_capacity(c) == cap,
{
    lru::LruCache::with_hasher(
        std::num::NonZeroUsize::new(cap).unwrap(),
        std::collections::hash_map::RandomState::new(),
    )
}

/// Calls `LruCache::get` and clones the value found. Claimed: the result is
/// the entry for `key`, if there is one, and then `key` becomes the most
/// recently used; the entries and the capacity stay as they were.
#[verifier::external_body]
pub(crate) fn cache_get(c: &mut TextCache, key: &str) -> (r: Option<String>)
    ensures
        cache_entries(*final(c)) == cache_entries(*old(c)),
        cache_capacity(*final(c)) == cache_capacity(*old(c)),
        cache_entries(*old(c)).contains_key(key@) ==> {
            &&& r matches Some(v) && v@ == cache_entries(*old(c))[key@]
            &&& cache_order(*final(c)) == to_front(cache_order(*old(c)), key@)
        },
        !cache_entries(*old(c)).contains_key(key@) ==> {
            &&& r is None
            &&& cache_order(*final(c)) == cache_order(*old(c))
        },
{
    c.get(key).cloned()
}

/// Calls `LruCache::put`. Claimed: the entries and the order become those
/// of `after_put` (an existing key is updated and moved to the front; a new
/// key goes to the front, dropping the least recently used entry when the
/// cache is full); each key is listed once in the order; the capacity stays
/// as it was.
#[verifier::external_body]
pub(crate) fn cache_put(c: &mut TextCache, key: String, value: String)
    requires
        order_lists(cache_entries(*old(c)), cache_order(*old(c))),
        cache_capacity(*old(c)) > 0,
    ensures
        (cache_entries(*final(c)), cache_order(*final(c))) == after_put(
            cache_entries(*old(c)),
            cache_order(*old(c)),
            cache_capacity(*old(c)),
            key@,
            value@,
        ),
        cache_capacity(*final(c)) == cache_capacity(*old(c)),
{
    c.put(key, value);
}

} // verus!
