//! Finding records by their id: the vocabulary that the stores' contracts
//! share, and the facts about it.

use vstd::prelude::*;

verus! {

/// The answer of a store that was asked for a record it does not hold.
#[derive(Clone, Copy, Debug, PartialEq, Eq)]
pub struct NotFound;

/// A record that carries the key by which its store finds it.
pub trait Keyed<K> {
    spec fn key(&self) -> K;
}

/// Whether some record carries `key`.
pub open spec fn has_key<K, T: Keyed<K>>(records: Seq<T>, key: K) -> bool {
    exists|i: int| 0 <= i < records.len() && #[trigger] records[i].key() == key
}

/// Whether the record at `i` carries `key` and none before it does.
pub open spec fn is_first_with_key<K, T: Keyed<K>>(records: Seq<T>, key: K, i: int) -> bool {
    &&& 0 <= i < records.len()
    &&& records[i].key() == key
    &&& forall|j: int| 0 <= j < i ==> #[trigger] records[j].key() != key
}

/// The place of the first record that carries `key`. It says nothing where
/// no record carries it.
pub open spec fn first_with_key<K, T: Keyed<K>>(records: Seq<T>, key: K) -> int {
    choose|i: int| is_first_with_key(records, key, i)
}

/// The records that do not carry `key`, in their order.
pub open spec fn without_key<K, T: Keyed<K>>(records: Seq<T>, key: K) -> Seq<T> {
    records.filter(|r: T| r.key() != key)
}

/// Whether no two records carry the same key.
pub open spec fn distinct_keys<K, T: Keyed<K>>(records: Seq<T>) -> bool {
    forall|i: int, j: int|
        0 <= i < j < records.len() ==> #[trigger] records[i].key() != #[trigger] records[j].key()
}

/// Whether the records carry the ids 1, 2, 3 and so on, in their order.
pub open spec fn numbered<T: Keyed<Option<u32>>>(records: Seq<T>) -> bool {
    forall|i: int|
        0 <= i < records.len() ==> (#[trigger] records[i].key() matches Some(id) && id == i + 1)
}

/// Whether every record carries an id from 1 up to, not including, `bound`.
pub open spec fn ids_below<T: Keyed<Option<u32>>>(records: Seq<T>, bound: int) -> bool {
    forall|i: int|
        0 <= i < records.len() ==> (#[trigger] records[i].key() matches Some(id) && 1 <= id
            < bound)
}

/// What a store holds once the records of `added` have been added to
/// `start`, one after the other.
pub open spec fn after_adding<T>(start: Seq<T>, added: Seq<T>) -> Seq<T>
    decreases added.len(),
{
    if added.len() == 0 {
        start
    } else {
        after_adding(start, added.drop_last()).push(added.last())
    }
}

/// Adding keeps what a store holds and puts each new record behind it. So a
/// store that was empty and has seen `n` additions holds exactly the `n`
/// records added, in the order in which they came.
pub proof fn lemma_after_adding<T>(start: Seq<T>, added: Seq<T>)
    ensures
        after_adding(start, added) == start + added,
        after_adding(start, added).len() == start.len() + added.len(),
        after_adding(Seq::empty(), added) == added,
    decreases added.len(),
{
    if added.len() > 0 {
        lemma_after_adding(start, added.drop_last());
        lemma_after_adding(Seq::empty(), added.drop_last());
        assert(added.drop_last().push(added.last()) == added);
        assert((start + added.drop_last()).push(added.last()) == start + added);
    } else {
        assert(start + added == start);
    }
}

/// The id that a numbered store gives out next, its count plus one, is
/// carried by none of its records, and with the new record behind them the
/// records are numbered still.
pub proof fn lemma_next_id_is_new<T: Keyed<Option<u32>>>(records: Seq<T>, next: T)
    requires
        numbered(records),
        next.key() matches Some(id) && id == records.len() + 1,
    ensures
        !has_key(records, next.key()),
        numbered(records.push(next)),
{
    lemma_numbered(records);
}

/// An id above all the ids that the records carry is carried by none of
/// them, and with the record that has it behind them the ids are distinct
/// still.
pub proof fn lemma_id_above_is_new<T: Keyed<Option<u32>>>(records: Seq<T>, next: T)
    requires
        distinct_keys(records),
        next.key() matches Some(id) && id >= 1 && ids_below(records, id as int),
    ensures
        !has_key(records, next.key()),
        distinct_keys(records.push(next)),
        ids_below(records.push(next), next.key()->0 + 1),
{
    let id = next.key()->0;
    assert forall|i: int| 0 <= i < records.len() implies #[trigger] records[i].key()
        != next.key() by {
        assert(records[i].key() matches Some(k) && k < id);
    }
    let longer = records.push(next);
    assert forall|i: int, j: int| 0 <= i < j < longer.len() implies #[trigger] longer[i].key()
        != #[trigger] longer[j].key() by {
        if j < records.len() {
            assert(records[i].key() != records[j].key());
        } else {
            assert(records[i].key() != next.key());
        }
    }
    assert forall|i: int| 0 <= i < longer.len() implies (#[trigger] longer[i].key() matches Some(
        k,
    ) && 1 <= k < id + 1) by {
        if i < records.len() {
            assert(records[i].key() matches Some(k) && k < id);
        }
    }
}

/// Among records with distinct keys, taking out those with a key takes out
/// the one record that carries it, and the keys left are distinct.
pub proof fn lemma_without_unique_key<K, T: Keyed<K>>(records: Seq<T>, key: K, i: int)
    requires
        distinct_keys(records),
        0 <= i < records.len(),
        records[i].key() == key,
    ensures
        without_key(records, key) == records.remove(i),
        distinct_keys(records.remove(i)),
    decreases records.len(),
{
    let keep = |r: T| r.key() != key;
    let front = records.drop_last();
    let last = records.len() - 1;
    reveal(Seq::filter);
    assert forall|a: int, b: int| 0 <= a < b < front.len() implies #[trigger] front[a].key()
        != #[trigger] front[b].key() by {
        assert(records[a].key() != records[b].key());
    }
    if i == last {
        assert forall|j: int| 0 <= j < front.len() implies keep(#[trigger] front[j]) by {
            assert(records[j].key() != records[last].key());
        }
        lemma_filter_all(front, keep);
        assert(records.remove(i) == front);
    } else {
        lemma_without_unique_key(front, key, i);
        assert(records[i].key() != records[last].key());
        assert(front.remove(i).push(records.last()) == records.remove(i));
    }
    let shorter = records.remove(i);
    assert forall|a: int, b: int| 0 <= a < b < shorter.len() implies #[trigger] shorter[a].key()
        != #[trigger] shorter[b].key() by {
        let from_a = if a < i {
            a
        } else {
            a + 1
        };
        let from_b = if b < i {
            b
        } else {
            b + 1
        };
        assert(records[from_a].key() != records[from_b].key());
    }
}

/// An index that is first with a key is the one that `first_with_key` names.
pub proof fn lemma_first_is_unique<K, T: Keyed<K>>(records: Seq<T>, key: K, i: int)
    requires
        is_first_with_key(records, key, i),
    ensures
        has_key(records, key),
        first_with_key(records, key) == i,
{
    let chosen = first_with_key(records, key);
    assert(is_first_with_key(records, key, chosen));
    if chosen < i {
        assert(records[chosen].key() != key);
    } else if i < chosen {
        assert(records[i].key() != key);
    }
}

/// After the records with a key are taken out, none carries it, the others
/// are all still there, and taking them out again changes nothing.
pub proof fn lemma_without_key<K, T: Keyed<K>>(records: Seq<T>, key: K)
    ensures
        !has_key(without_key(records, key), key),
        without_key(without_key(records, key), key) == without_key(records, key),
        without_key(records, key).len() <= records.len(),
        has_key(records, key) ==> without_key(records, key).len() < records.len(),
        forall|other: K|
            other != key ==> (has_key(without_key(records, key), other) <==> has_key(
                records,
                other,
            )),
{
    let keep = |r: T| r.key() != key;
    let kept = records.filter(keep);
    records.lemma_filter_len(keep);
    assert forall|i: int| 0 <= i < kept.len() implies #[trigger] kept[i].key() != key by {
        records.lemma_filter_pred(keep, i);
    }
    assert(kept.filter(keep) == kept) by {
        lemma_filter_all(kept, keep);
    }
    if has_key(records, key) {
        let i = choose|i: int| 0 <= i < records.len() && #[trigger] records[i].key() == key;
        if kept.len() == records.len() {
            lemma_filter_same_len(records, keep);
            assert(keep(records[i]));
        }
    }
    assert forall|other: K| other != key implies (has_key(kept, other) <==> has_key(
        records,
        other,
    )) by {
        if has_key(kept, other) {
            let i = choose|i: int| 0 <= i < kept.len() && #[trigger] kept[i].key() == other;
            assert(kept.contains(kept[i]));
            records.lemma_filter_contains_rev(keep, kept[i]);
            let j = choose|j: int| 0 <= j < records.len() && records[j] == kept[i];
            assert(records[j].key() == other);
        }
        if has_key(records, other) {
            let j = choose|j: int| 0 <= j < records.len() && #[trigger] records[j].key() == other;
            assert(keep(records[j]));
            records.lemma_filter_contains(keep, j);
            let i = choose|i: int| 0 <= i < kept.len() && kept[i] == records[j];
            assert(kept[i].key() == other);
        }
    }
}

/// Taking out the records with a key that none carries changes nothing.
pub proof fn lemma_absent_key<K, T: Keyed<K>>(records: Seq<T>, key: K)
    requires
        !has_key(records, key),
    ensures
        without_key(records, key) == records,
{
    let keep = |r: T| r.key() != key;
    assert forall|i: int| 0 <= i < records.len() implies keep(#[trigger] records[i]) by {
        assert(records[i].key() != key);
    }
    lemma_filter_all(records, keep);
}

/// A filter that every record passes leaves the sequence as it is.
proof fn lemma_filter_all<T>(records: Seq<T>, keep: spec_fn(T) -> bool)
    requires
        forall|i: int| 0 <= i < records.len() ==> keep(#[trigger] records[i]),
    ensures
        records.filter(keep) == records,
    decreases records.len(),
{
    reveal(Seq::filter);
    if records.len() > 0 {
        lemma_filter_all(records.drop_last(), keep);
        assert(records.drop_last().push(records.last()) == records);
    }
}

/// A filter that keeps the length has let every record pass.
proof fn lemma_filter_same_len<T>(records: Seq<T>, keep: spec_fn(T) -> bool)
    requires
        records.filter(keep).len() == records.len(),
    ensures
        forall|i: int| 0 <= i < records.len() ==> keep(#[trigger] records[i]),
    decreases records.len(),
{
    reveal(Seq::filter);
    if records.len() > 0 {
        records.drop_last().lemma_filter_len(keep);
        lemma_filter_same_len(records.drop_last(), keep);
        assert forall|i: int| 0 <= i < records.len() implies keep(#[trigger] records[i]) by {
            if i < records.len() - 1 {
                assert(records.drop_last()[i] == records[i]);
            }
        }
    }
}

/// Records that are numbered carry distinct ids, exactly the ids from 1 to
/// their count, and the record with id `n` stands at place `n - 1`.
pub proof fn lemma_numbered<T: Keyed<Option<u32>>>(records: Seq<T>)
    requires
        numbered(records),
    ensures
        records.len() <= u32::MAX,
        distinct_keys(records),
        forall|id: u32| has_key(records, Some(id)) <==> 1 <= id <= records.len(),
        forall|id: u32|
            1 <= id <= records.len() ==> #[trigger] first_with_key(records, Some(id)) == id - 1,
{
    if records.len() > 0 {
        assert(records[records.len() - 1].key() is Some);
    }
    assert forall|id: u32| has_key(records, Some(id)) <==> 1 <= id <= records.len() by {
        if 1 <= id <= records.len() {
            assert(records[id - 1].key() == Some(id));
        }
    }
    assert forall|id: u32| 1 <= id <= records.len() implies #[trigger] first_with_key(
        records,
        Some(id),
    ) == id - 1 by {
        assert(records[id - 1].key() == Some(id));
        assert(is_first_with_key(records, Some(id), id - 1));
        lemma_first_is_unique(records, Some(id), id - 1);
    }
}

} // verus!
