//! Recency-ordered entries keyed by glyph id: the model of an LRU cache, front
//! first.
use vstd::prelude::*;

verus! {

/// Position of the first entry of `s` with key `id`, or -1.
pub open spec fn index_of<V>(s: Seq<(u16, V)>, id: u16) -> int
    decreases s.len(),
{
    if s.len() == 0 {
        -1
    } else if s[0].0 == id {
        0
    } else {
        let r = index_of(s.drop_first(), id);
        if r < 0 { -1 } else { r + 1 }
    }
}

/// `s` with its entry at `i` moved to the front.
pub open spec fn touch<V>(s: Seq<(u16, V)>, i: int) -> Seq<(u16, V)> {
    seq![s[i]] + s.remove(i)
}

/// `s` after `e` is inserted at the front of a cache that holds at most
/// `cap` entries: the back entry leaves when the cache is full.
pub open spec fn lru_insert<V>(s: Seq<(u16, V)>, e: (u16, V), cap: int) -> Seq<(u16, V)> {
    if s.len() < cap {
        seq![e] + s
    } else {
        seq![e] + s.drop_last()
    }
}

/// No two entries of `s` share a key.
pub open spec fn keys_unique<V>(s: Seq<(u16, V)>) -> bool {
    forall|i: int, j: int| 0 <= i < s.len() && 0 <= j < s.len() && i != j ==> s[i].0 != s[j].0
}

/// `index_of` finds an entry with the key exactly when one is present.
pub proof fn lemma_index_of<V>(s: Seq<(u16, V)>, id: u16)
    ensures
        -1 <= index_of(s, id) < s.len(),
        index_of(s, id) >= 0 ==> s[index_of(s, id)].0 == id,
        index_of(s, id) >= 0 ==> forall|j: int| 0 <= j < index_of(s, id) ==> s[j].0 != id,
        index_of(s, id) < 0 ==> forall|j: int| 0 <= j < s.len() ==> s[j].0 != id,
    decreases s.len(),
{
    if s.len() > 0 && s[0].0 != id {
        lemma_index_of(s.drop_first(), id);
        assert forall|j: int| 0 < j < s.len() implies s[j] == s.drop_first()[j - 1] by {}
    }
}

/// Where each entry of `touch(s, i)` comes from; keys stay unique.
pub proof fn lemma_touch_shape<V>(s: Seq<(u16, V)>, i: int)
    requires
        0 <= i < s.len(),
    ensures
        touch(s, i).len() == s.len(),
        touch(s, i)[0] == s[i],
        forall|j: int| 1 <= j <= i ==> #[trigger] touch(s, i)[j] == s[j - 1],
        forall|j: int| i < j < s.len() ==> #[trigger] touch(s, i)[j] == s[j],
        keys_unique(s) ==> keys_unique(touch(s, i)),
{
    let t = touch(s, i);
    assert forall|j: int| 1 <= j <= i implies #[trigger] t[j] == s[j - 1] by {
        assert(t[j] == s.remove(i)[j - 1]);
    }
    assert forall|j: int| i < j < s.len() implies #[trigger] t[j] == s[j] by {
        assert(t[j] == s.remove(i)[j - 1]);
    }
    if keys_unique(s) {
        // each position of t maps back to a distinct position of s
        assert forall|a: int, b: int|
            0 <= a < t.len() && 0 <= b < t.len() && a != b implies t[a].0 != t[b].0 by {
            let sa = if a == 0 { i } else if a <= i { a - 1 } else { a };
            let sb = if b == 0 { i } else if b <= i { b - 1 } else { b };
            assert(t[a] == s[sa]);
            assert(t[b] == s[sb]);
        }
    }
}

/// Where each entry of `lru_insert(s, e, cap)` comes from; keys stay unique
/// when the new key was absent.
pub proof fn lemma_insert_shape<V>(s: Seq<(u16, V)>, e: (u16, V), cap: int)
    requires
        0 < cap,
        s.len() <= cap,
    ensures
        lru_insert(s, e, cap).len() == if s.len() < cap { s.len() + 1 } else { cap as nat },
        lru_insert(s, e, cap)[0] == e,
        forall|j: int| 1 <= j < lru_insert(s, e, cap).len() ==> #[trigger] lru_insert(s, e, cap)[j]
            == s[j - 1],
        keys_unique(s) && index_of(s, e.0) < 0 ==> keys_unique(lru_insert(s, e, cap)),
{
    let t = lru_insert(s, e, cap);
    assert forall|j: int| 1 <= j < t.len() implies #[trigger] t[j] == s[j - 1] by {}
    if keys_unique(s) && index_of(s, e.0) < 0 {
        lemma_index_of(s, e.0);
        assert forall|a: int, b: int|
            0 <= a < t.len() && 0 <= b < t.len() && a != b implies t[a].0 != t[b].0 by {
            if a > 0 {
                assert(t[a] == s[a - 1]);
            }
            if b > 0 {
                assert(t[b] == s[b - 1]);
            }
        }
    }
}

/// With unique keys, `index_of` finds the one entry holding the key.
pub proof fn lemma_index_of_unique<V>(s: Seq<(u16, V)>, k: int)
    requires
        keys_unique(s),
        0 <= k < s.len(),
    ensures
        index_of(s, s[k].0) == k,
{
    lemma_index_of(s, s[k].0);
}

/// `s` after each entry of `es` is inserted in turn, first to last.
pub open spec fn insert_all<V>(s: Seq<(u16, V)>, es: Seq<(u16, V)>, cap: int) -> Seq<(u16, V)>
    decreases es.len(),
{
    if es.len() == 0 {
        s
    } else {
        lru_insert(insert_all(s, es.drop_last(), cap), es.last(), cap)
    }
}

/// Up to capacity, inserting into an empty cache keeps every entry, the last
/// inserted in front.
pub(crate) proof fn lemma_insert_all_fits<V>(es: Seq<(u16, V)>, cap: int)
    requires
        es.len() <= cap,
    ensures
        insert_all(Seq::empty(), es, cap).len() == es.len(),
        forall|j: int| 0 <= j < es.len() ==> #[trigger] insert_all(Seq::empty(), es, cap)[j]
            == es[es.len() - 1 - j],
    decreases es.len(),
{
    if es.len() > 0 {
        lemma_insert_all_fits(es.drop_last(), cap);
        let prev = insert_all(Seq::empty(), es.drop_last(), cap);
        let t = insert_all(Seq::empty(), es, cap);
        assert forall|j: int| 0 <= j < es.len() implies #[trigger] t[j] == es[es.len() - 1 - j] by {
            if j > 0 {
                assert(t[j] == prev[j - 1]);
            }
        }
    }
}

/// Inserting one more distinct key than a cache holds, into an empty cache,
/// evicts exactly the first key inserted: every later key stays.
pub proof fn lemma_overflow_evicts_first_inserted<V>(es: Seq<(u16, V)>, cap: int)
    requires
        0 < cap,
        es.len() == cap + 1,
        keys_unique(es),
    ensures
        insert_all(Seq::empty(), es, cap).len() == cap,
        index_of(insert_all(Seq::empty(), es, cap), es[0].0) < 0,
        forall|k: int| 1 <= k < es.len() ==> index_of(insert_all(Seq::empty(), es, cap), #[trigger] es[k].0) >= 0,
{
    let prefix = es.drop_last();
    lemma_insert_all_fits(prefix, cap);
    let prev = insert_all(Seq::empty(), prefix, cap);
    let t = insert_all(Seq::empty(), es, cap);
    assert(t == seq![es.last()] + prev.drop_last());
    assert forall|j: int| 0 <= j < cap implies #[trigger] t[j] == es[cap - j] by {
        if j > 0 {
            assert(t[j] == prev[j - 1]);
            assert(prev[j - 1] == prefix[prefix.len() - 1 - (j - 1)]);
        }
    }
    lemma_index_of(t, es[0].0);
    if index_of(t, es[0].0) >= 0 {
        let j = index_of(t, es[0].0);
        assert(t[j] == es[cap - j]);
    }
    assert forall|k: int| 1 <= k < es.len() implies index_of(t, #[trigger] es[k].0) >= 0 by {
        lemma_index_of(t, es[k].0);
        assert(t[cap - k] == es[k]);
    }
}

} // verus!
