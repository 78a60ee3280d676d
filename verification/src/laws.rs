//! Session-level laws of the conversational memory store, stated over the
//! spec model and proved once and for all: how the identifier counter moves
//! over a run of turns, that issued identifiers never collide, and that
//! ensuring the collection is idempotent.

use vstd::prelude::*;

use crate::store::{
    distinct_names, empty_collection, ensure_spec, CollectionView, DistanceMetric, StoreView,
};

verus! {

/// The identifier counter after a run of turns that started at `start`:
/// each turn that persisted advances it by two, every other turn leaves it
/// alone — exactly the step `run_turn` guarantees for a single turn.
pub open spec fn next_id_after(start: int, persisted: Seq<bool>) -> int
    decreases persisted.len(),
{
    if persisted.len() == 0 {
        start
    } else {
        next_id_after(start + if persisted[0] { 2int } else { 0int }, persisted.drop_first())
    }
}

/// How many turns of a run persisted their memory write.
pub open spec fn count_persisted(persisted: Seq<bool>) -> int
    decreases persisted.len(),
{
    if persisted.len() == 0 {
        0int
    } else {
        (if persisted[0] { 1int } else { 0int }) + count_persisted(persisted.drop_first())
    }
}

/// The point identifiers issued over a run of turns, in turn order: a turn
/// that persisted claims the pair (counter, counter + 1), any other turn
/// claims nothing.
pub open spec fn ids_issued(start: int, persisted: Seq<bool>) -> Seq<int>
    decreases persisted.len(),
{
    if persisted.len() == 0 {
        Seq::empty()
    } else if persisted[0] {
        seq![start, start + 1] + ids_issued(start + 2, persisted.drop_first())
    } else {
        ids_issued(start, persisted.drop_first())
    }
}

/// Law: after any run of turns, the counter stands at its start plus twice
/// the number of turns whose memory write succeeded; a session begins at
/// zero, so there it is exactly twice that number.
pub proof fn lemma_next_id_counts_writes(start: int, persisted: Seq<bool>)
    ensures
        next_id_after(start, persisted) == start + 2 * count_persisted(persisted),
    decreases persisted.len(),
{
    if persisted.len() > 0 {
        lemma_next_id_counts_writes(
            start + if persisted[0] { 2int } else { 0int },
            persisted.drop_first(),
        );
    }
}

/// Every identifier issued lies at or above the counter it started from.
pub proof fn lemma_ids_issued_lower_bound(start: int, persisted: Seq<bool>)
    ensures
        forall|k: int|
            0 <= k < ids_issued(start, persisted).len() ==> #[trigger] ids_issued(
                start,
                persisted,
            )[k] >= start,
    decreases persisted.len(),
{
    if persisted.len() > 0 {
        if persisted[0] {
            lemma_ids_issued_lower_bound(start + 2, persisted.drop_first());
            let rest = ids_issued(start + 2, persisted.drop_first());
            let all = ids_issued(start, persisted);
            assert(all == seq![start, start + 1] + rest);
            assert forall|k: int| 0 <= k < all.len() implies #[trigger] all[k] >= start by {
                if k == 0 {
                    assert(all[0] == start);
                } else if k == 1 {
                    assert(all[1] == start + 1);
                } else {
                    assert(all[k] == rest[k - 2]);
                    assert(ids_issued(start + 2, persisted.drop_first())[k - 2] >= start + 2);
                }
            }
        } else {
            lemma_ids_issued_lower_bound(start, persisted.drop_first());
            assert(ids_issued(start, persisted) == ids_issued(start, persisted.drop_first()));
        }
    }
}

/// Law: point identifiers are issued in strictly increasing order across a
/// run of turns — in particular they are pairwise distinct and monotone in
/// turn order.
pub proof fn lemma_ids_issued_strictly_increasing(start: int, persisted: Seq<bool>)
    ensures
        forall|i: int, j: int|
            0 <= i < j < ids_issued(start, persisted).len() ==> #[trigger] ids_issued(
                start,
                persisted,
            )[i] < #[trigger] ids_issued(start, persisted)[j],
    decreases persisted.len(),
{
    if persisted.len() > 0 {
        if persisted[0] {
            let rest = ids_issued(start + 2, persisted.drop_first());
            lemma_ids_issued_strictly_increasing(start + 2, persisted.drop_first());
            lemma_ids_issued_lower_bound(start + 2, persisted.drop_first());
            let all = ids_issued(start, persisted);
            assert(all == seq![start, start + 1] + rest);
            assert forall|i: int, j: int| 0 <= i < j < all.len() implies #[trigger] all[i]
                < #[trigger] all[j] by {
                assert(all[0] == start);
                if j == 1 {
                    assert(all[1] == start + 1);
                } else if j >= 2 {
                    assert(all[j] == rest[j - 2]);
                    assert(ids_issued(start + 2, persisted.drop_first())[j - 2] >= start + 2);
                    if i == 1 {
                        assert(all[1] == start + 1);
                    } else if i >= 2 {
                        assert(all[i] == rest[i - 2]);
                        assert(ids_issued(start + 2, persisted.drop_first())[i - 2] < ids_issued(
                            start + 2,
                            persisted.drop_first(),
                        )[j - 2]);
                    }
                }
            }
        } else {
            lemma_ids_issued_strictly_increasing(start, persisted.drop_first());
            assert(ids_issued(start, persisted) == ids_issued(start, persisted.drop_first()));
        }
    }
}

/// How many collections of a store carry this name.
pub open spec fn count_named(cs: Seq<CollectionView>, name: Seq<char>) -> int
    decreases cs.len(),
{
    if cs.len() == 0 {
        0int
    } else {
        (if cs[0].name == name { 1int } else { 0int }) + count_named(cs.drop_first(), name)
    }
}

/// A count of collections is never negative.
pub proof fn lemma_count_named_nonneg(cs: Seq<CollectionView>, name: Seq<char>)
    ensures
        count_named(cs, name) >= 0,
    decreases cs.len(),
{
    if cs.len() > 0 {
        lemma_count_named_nonneg(cs.drop_first(), name);
    }
}

/// The count is zero exactly when no collection carries the name.
pub proof fn lemma_count_named_zero(cs: Seq<CollectionView>, name: Seq<char>)
    ensures
        count_named(cs, name) == 0 <==> (forall|i: int|
            0 <= i < cs.len() ==> #[trigger] cs[i].name != name),
    decreases cs.len(),
{
    if cs.len() > 0 {
        lemma_count_named_zero(cs.drop_first(), name);
        lemma_count_named_nonneg(cs.drop_first(), name);
        assert forall|k: int| 0 <= k < cs.drop_first().len() implies #[trigger] cs.drop_first()[k]
            == cs[k + 1] by {}
        if count_named(cs, name) == 0 {
            assert forall|i: int| 0 <= i < cs.len() implies #[trigger] cs[i].name != name by {
                if i > 0 {
                    assert(cs.drop_first()[i - 1] == cs[i]);
                }
            }
        }
    }
}

/// Appending one collection raises the count by one exactly when its name
/// matches.
pub proof fn lemma_count_named_push(cs: Seq<CollectionView>, c: CollectionView, name: Seq<char>)
    ensures
        count_named(cs.push(c), name) == count_named(cs, name) + (if c.name == name {
            1int
        } else {
            0int
        }),
    decreases cs.len(),
{
    let snoc = cs.push(c);
    if cs.len() == 0 {
        assert(snoc[0] == c);
        assert(snoc.drop_first() =~= Seq::<CollectionView>::empty());
        assert(count_named(snoc, name) == (if c.name == name {
            1int
        } else {
            0int
        }) + count_named(snoc.drop_first(), name));
        assert(count_named(snoc.drop_first(), name) == 0);
    } else {
        assert(snoc[0] == cs[0]);
        assert(snoc.drop_first() =~= cs.drop_first().push(c));
        lemma_count_named_push(cs.drop_first(), c, name);
        assert(count_named(snoc, name) == (if cs[0].name == name {
            1int
        } else {
            0int
        }) + count_named(snoc.drop_first(), name));
        assert(count_named(cs, name) == (if cs[0].name == name {
            1int
        } else {
            0int
        }) + count_named(cs.drop_first(), name));
    }
}

/// Under unique names, at most one collection carries any name.
pub proof fn lemma_distinct_count_at_most_one(cs: Seq<CollectionView>, name: Seq<char>)
    requires
        distinct_names(cs),
    ensures
        count_named(cs, name) <= 1,
    decreases cs.len(),
{
    if cs.len() > 0 {
        let rest = cs.drop_first();
        assert forall|i: int, j: int| 0 <= i < j < rest.len() implies rest[i].name
            != rest[j].name by {
            assert(rest[i] == cs[i + 1]);
            assert(rest[j] == cs[j + 1]);
        }
        lemma_distinct_count_at_most_one(rest, name);
        if cs[0].name == name {
            assert forall|k: int| 0 <= k < rest.len() implies #[trigger] rest[k].name != name by {
                assert(rest[k] == cs[k + 1]);
                assert(cs[0].name != cs[k + 1].name);
            }
            lemma_count_named_zero(rest, name);
        } else {
            lemma_count_named_nonneg(rest, name);
        }
    }
}

/// Law: ensuring the collection is idempotent — the second of two identical
/// calls finds the collection in place and changes nothing, with no error
/// (the operation is total).
pub proof fn lemma_ensure_collection_idempotent(
    s: StoreView,
    name: Seq<char>,
    dim: usize,
    metric: DistanceMetric,
)
    ensures
        ensure_spec(ensure_spec(s, name, dim, metric), name, dim, metric) == ensure_spec(
            s,
            name,
            dim,
            metric,
        ),
{
    let s1 = ensure_spec(s, name, dim, metric);
    if !s.has_collection(name) {
        assert(s1.collections[s.collections.len() as int] == empty_collection(name, dim, metric));
        assert(s1.has_collection(name));
    }
}

/// Law: after ensuring the collection on a well-formed store, exactly one
/// collection carries the name — never zero, never a duplicate.
pub proof fn lemma_ensure_collection_exactly_one(
    s: StoreView,
    name: Seq<char>,
    dim: usize,
    metric: DistanceMetric,
)
    requires
        s.wf(),
    ensures
        count_named(ensure_spec(s, name, dim, metric).collections, name) == 1,
{
    let s1 = ensure_spec(s, name, dim, metric);
    if s.has_collection(name) {
        lemma_distinct_count_at_most_one(s.collections, name);
        lemma_count_named_zero(s.collections, name);
        lemma_count_named_nonneg(s.collections, name);
        let w = choose|i: int|
            0 <= i < s.collections.len() && s.collections[i].name == name;
        assert(s.collections[w].name == name);
        assert(!(forall|i: int| 0 <= i < s.collections.len() ==> #[trigger] s.collections[i].name
            != name));
        assert(count_named(s.collections, name) != 0);
        assert(s1 == s);
    } else {
        lemma_count_named_zero(s.collections, name);
        assert(forall|i: int|
            0 <= i < s.collections.len() ==> #[trigger] s.collections[i].name != name);
        assert(count_named(s.collections, name) == 0);
        lemma_count_named_push(s.collections, empty_collection(name, dim, metric), name);
        assert(s1.collections == s.collections.push(empty_collection(name, dim, metric)));
    }
}

} // verus!
