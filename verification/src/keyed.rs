use vstd::prelude::*;

verus! {

/// A record found by a text key (an agent by its name, a transaction by its id).
pub trait Keyed {
    spec fn key(&self) -> Seq<char>;
}

/// No two records share a key.
pub open spec fn unique_keys<T: Keyed>(s: Seq<T>) -> bool {
    forall|i: int, j: int| 0 <= i < s.len() && 0 <= j < s.len() && i != j ==> #[trigger] s[i].key() != #[trigger] s[j].key()
}

/// Some record has key `k`.
pub open spec fn has_key<T: Keyed>(s: Seq<T>, k: Seq<char>) -> bool {
    exists|i: int| 0 <= i < s.len() && #[trigger] s[i].key() == k
}

/// The position of the record with key `k`.
pub open spec fn key_index<T: Keyed>(s: Seq<T>, k: Seq<char>) -> int {
    choose|i: int| 0 <= i < s.len() && #[trigger] s[i].key() == k
}

/// `s` with `x` stored under its key: the record with that key is replaced in
/// place, or `x` is appended when there is none (as `HashMap::insert` keeps one
/// value per key).
pub open spec fn upsert<T: Keyed>(s: Seq<T>, x: T) -> Seq<T> {
    if has_key(s, x.key()) {
        s.update(key_index(s, x.key()), x)
    } else {
        s.push(x)
    }
}

/// The records of `items` stored one after the other, the later of two with
/// one key taking the place of the earlier.
pub open spec fn collect_keyed<T: Keyed>(items: Seq<T>) -> Seq<T>
    decreases items.len(),
{
    if items.len() == 0 {
        Seq::empty()
    } else {
        upsert(collect_keyed(items.drop_last()), items.last())
    }
}

pub proof fn lemma_key_index<T: Keyed>(s: Seq<T>, i: int)
    requires
        unique_keys(s),
        0 <= i < s.len(),
    ensures
        has_key(s, s[i].key()),
        key_index(s, s[i].key()) == i,
{
    assert(has_key(s, s[i].key()));
    let j = key_index(s, s[i].key());
    assert(s[j].key() == s[i].key());
}

pub proof fn lemma_update_same_key<T: Keyed>(s: Seq<T>, i: int, x: T)
    requires
        unique_keys(s),
        0 <= i < s.len(),
        x.key() == s[i].key(),
    ensures
        unique_keys(s.update(i, x)),
        forall|k: Seq<char>| has_key(s.update(i, x), k) == has_key(s, k),
{
    let t = s.update(i, x);
    assert forall|k: Seq<char>| has_key(t, k) == has_key(s, k) by {
        if has_key(s, k) {
            let j = choose|j: int| 0 <= j < s.len() && #[trigger] s[j].key() == k;
            assert(t[j].key() == k);
        }
        if has_key(t, k) {
            let j = choose|j: int| 0 <= j < t.len() && #[trigger] t[j].key() == k;
            assert(s[j].key() == k);
        }
    }
}

pub proof fn lemma_upsert<T: Keyed>(s: Seq<T>, x: T)
    requires
        unique_keys(s),
    ensures
        unique_keys(upsert(s, x)),
        has_key(upsert(s, x), x.key()),
        upsert(s, x)[key_index(upsert(s, x), x.key())] == x,
        forall|k: Seq<char>| has_key(s, k) ==> has_key(upsert(s, x), k),
        upsert(s, x).len() == s.len() + if has_key(s, x.key()) { 0int } else { 1int },
{
    let t = upsert(s, x);
    if has_key(s, x.key()) {
        let i = key_index(s, x.key());
        lemma_update_same_key(s, i, x);
        lemma_key_index(t, i);
    } else {
        assert forall|a: int, b: int|
            0 <= a < t.len() && 0 <= b < t.len() && a != b implies #[trigger] t[a].key()
            != #[trigger] t[b].key() by {
            if a == s.len() {
                assert(s[b].key() != x.key());
            } else if b == s.len() {
                assert(s[a].key() != x.key());
            }
        }
        lemma_key_index(t, s.len() as int);
        assert forall|k: Seq<char>| has_key(s, k) implies has_key(t, k) by {
            let j = choose|j: int| 0 <= j < s.len() && #[trigger] s[j].key() == k;
            assert(t[j].key() == k);
        }
    }
}

/// Storing a record leaves every record under another key where it was found.
pub proof fn lemma_upsert_other<T: Keyed>(s: Seq<T>, x: T, k: Seq<char>)
    requires
        unique_keys(s),
        has_key(s, k),
        k != x.key(),
    ensures
        has_key(upsert(s, x), k),
        upsert(s, x)[key_index(upsert(s, x), k)] == s[key_index(s, k)],
{
    lemma_upsert(s, x);
    let i = key_index(s, k);
    let t = upsert(s, x);
    assert(t[i] == s[i]);
    lemma_key_index(t, i);
}

pub proof fn lemma_collect_keyed_unique<T: Keyed>(items: Seq<T>)
    ensures
        unique_keys(collect_keyed(items)),
    decreases items.len(),
{
    if items.len() > 0 {
        lemma_collect_keyed_unique(items.drop_last());
        lemma_upsert(collect_keyed(items.drop_last()), items.last());
    }
}

/// Collecting records whose keys are already distinct gives them back unchanged.
pub proof fn lemma_collect_keyed_identity<T: Keyed>(items: Seq<T>)
    requires
        unique_keys(items),
    ensures
        collect_keyed(items) == items,
    decreases items.len(),
{
    if items.len() > 0 {
        let init = items.drop_last();
        assert(unique_keys(init)) by {
            assert forall|a: int, b: int|
                0 <= a < init.len() && 0 <= b < init.len() && a != b implies #[trigger] init[a].key()
                != #[trigger] init[b].key() by {
                assert(init[a] == items[a]);
                assert(init[b] == items[b]);
            }
        }
        lemma_collect_keyed_identity(init);
        if has_key(init, items.last().key()) {
            let j = choose|j: int| 0 <= j < init.len() && #[trigger] init[j].key() == items.last().key();
            assert(items[j].key() == items[items.len() - 1].key());
            assert(false);
        }
        assert(init.push(items.last()) =~= items);
    }
}

} // verus!
