//! The memory writer: turns one (prompt, reply) pair into two stored points
//! with consecutive identifiers, and decides when the identifier counter may
//! advance. The embedding service's answers arrive as values; both must have
//! succeeded before any write is attempted.

use vstd::prelude::*;

use crate::store::{
    lemma_get_after_upsert_other, lemma_get_after_upsert_same, lemma_upsert_one_distinct,
    lemma_upsert_store_points_of, upsert_one, upsert_seq, upsert_store_spec, Embedding,
    MemoryPoint, MemoryStore, PointView,
};

verus! {

/// Outcome of one embedding-service call, as observed by the caller.
pub enum EmbedOutcome {
    /// The service answered with a vector.
    Vector(Embedding),
    /// The call failed; no vector was produced.
    Failed,
}

/// Why a turn's memory write did not happen.
#[derive(Clone, Copy, PartialEq, Eq, Structural, Debug)]
pub enum WriteError {
    /// One of the two embedding calls failed; nothing was written.
    EmbeddingFailed,
    /// The store rejected the batched write; nothing was persisted.
    StoreRejected,
}

/// The point a turn's prompt text is stored under.
pub open spec fn prompt_point(prompt_text: Seq<char>, vector: Embedding, next_id: u64) -> PointView {
    PointView { id: next_id, embedding: vector, payload_text: prompt_text }
}

/// The point a turn's reply text is stored under.
pub open spec fn reply_point(reply_text: Seq<char>, vector: Embedding, next_id: u64) -> PointView
    recommends
        next_id < u64::MAX,
{
    PointView { id: (next_id + 1) as u64, embedding: vector, payload_text: reply_text }
}

/// Builds the one batched write of a turn: the prompt text under `next_id`,
/// the reply text under `next_id + 1`, each with its own vector and its
/// original text as payload.
pub fn build_points(
    prompt_text: &String,
    reply_text: &String,
    prompt_vector: Embedding,
    reply_vector: Embedding,
    next_id: u64,
) -> (points: Vec<MemoryPoint>)
    requires
        next_id < u64::MAX,
    ensures
        points@.map_values(|p: MemoryPoint| p@) == seq![
            prompt_point(prompt_text@, prompt_vector, next_id),
            reply_point(reply_text@, reply_vector, next_id),
        ],
{
    let mut points: Vec<MemoryPoint> = Vec::new();
    points.push(
        MemoryPoint { id: next_id, embedding: prompt_vector, payload_text: prompt_text.clone() },
    );
    points.push(
        MemoryPoint {
            id: next_id + 1,
            embedding: reply_vector,
            payload_text: reply_text.clone(),
        },
    );
    proof {
        assert(points@.map_values(|p: MemoryPoint| p@) =~= seq![
            prompt_point(prompt_text@, prompt_vector, next_id),
            reply_point(reply_text@, reply_vector, next_id),
        ]);
    }
    points
}

/// Memory writer for one turn. Both embedding outcomes must be vectors before
/// any write is attempted; the two points are then written in a single
/// batched request. On success the advanced counter `next_id + 2` is handed
/// back for the caller to persist; on any failure the store is untouched and
/// the caller must not advance its counter. The last two clauses are the
/// write/read round trip: both points read back exactly as written.
pub fn record_turn(
    store: &mut MemoryStore,
    collection_name: &String,
    prompt_text: &String,
    reply_text: &String,
    prompt_embedding: EmbedOutcome,
    reply_embedding: EmbedOutcome,
    next_id: u64,
) -> (r: Result<u64, WriteError>)
    requires
        old(store)@.wf(),
        next_id + 2 <= u64::MAX,
    ensures
        final(store)@.wf(),
        r is Ok <==> (prompt_embedding is Vector && reply_embedding is Vector && old(
            store,
        )@.has_collection(collection_name@)),
        (prompt_embedding is Failed || reply_embedding is Failed) ==> r == Err::<u64, WriteError>(
            WriteError::EmbeddingFailed,
        ) && final(store)@ == old(store)@,
        (prompt_embedding is Vector && reply_embedding is Vector && !old(store)@.has_collection(
            collection_name@,
        )) ==> r == Err::<u64, WriteError>(WriteError::StoreRejected) && final(store)@ == old(
            store,
        )@,
        prompt_embedding is Vector && reply_embedding is Vector && old(store)@.has_collection(
            collection_name@,
        ) ==> {
            &&& r == Ok::<u64, WriteError>((next_id + 2) as u64)
            &&& final(store)@ == upsert_store_spec(
                old(store)@,
                collection_name@,
                seq![
                    prompt_point(prompt_text@, prompt_embedding->Vector_0, next_id),
                    reply_point(reply_text@, reply_embedding->Vector_0, next_id),
                ],
            )
            &&& final(store)@.get(collection_name@, next_id) == Some(
                prompt_point(prompt_text@, prompt_embedding->Vector_0, next_id),
            )
            &&& final(store)@.get(collection_name@, (next_id + 1) as u64) == Some(
                reply_point(reply_text@, reply_embedding->Vector_0, next_id),
            )
        },
{
    let (pv, rv) = match (prompt_embedding, reply_embedding) {
        (EmbedOutcome::Vector(p), EmbedOutcome::Vector(q)) => (p, q),
        _ => {
            return Err(WriteError::EmbeddingFailed);
        },
    };
    let points = build_points(prompt_text, reply_text, pv, rv, next_id);
    let ghost incoming = points@.map_values(|p: MemoryPoint| p@);
    let ghost p0 = prompt_point(prompt_text@, pv, next_id);
    let ghost p1 = reply_point(reply_text@, rv, next_id);
    match store.upsert(collection_name, points) {
        Err(_) => Err(WriteError::StoreRejected),
        Ok(_) => {
            proof {
                let base = old(store)@.points_of(collection_name@);
                let c = choose|c: int|
                    0 <= c < old(store)@.collections.len() && old(store)@.collections[c].name
                        == collection_name@;
                assert(crate::store::distinct_ids(old(store)@.collections[c].points));
                assert(crate::store::distinct_ids(base));
                lemma_upsert_store_points_of(old(store)@, collection_name@, incoming);
                assert(incoming == seq![p0, p1]);
                assert(incoming[0] == p0);
                assert(incoming.drop_first() =~= seq![p1]);
                assert(upsert_seq(base, incoming) == upsert_seq(
                    upsert_one(base, p0),
                    incoming.drop_first(),
                ));
                assert(seq![p1][0] == p1);
                assert(seq![p1].drop_first() =~= Seq::<PointView>::empty());
                assert(upsert_seq(upsert_one(base, p0), seq![p1]) == upsert_seq(
                    upsert_one(upsert_one(base, p0), p1),
                    seq![p1].drop_first(),
                ));
                assert(upsert_seq(base, incoming) == upsert_one(upsert_one(base, p0), p1));
                lemma_upsert_one_distinct(base, p0);
                lemma_get_after_upsert_other(upsert_one(base, p0), p1, next_id);
                lemma_get_after_upsert_same(base, p0);
                lemma_get_after_upsert_same(upsert_one(base, p0), p1);
            }
            Ok(next_id + 2)
        },
    }
}

} // verus!
