//! Tests of the store model: collection lifecycle, batched writes, and
//! read-back by identifier.

use emunet::memory::{build_points, record_turn, EmbedOutcome, WriteError};
use emunet::store::{DistanceMetric, Embedding, MemoryPoint, MemoryStore, StoreError};
use emunet::EMBEDDING_DIM;

fn vector() -> Embedding {
    Embedding { dim: EMBEDDING_DIM }
}

#[test]
fn fresh_store_is_empty() {
    let store = MemoryStore::new();
    assert_eq!(store.list_collections().len(), 0);
    assert!(!store.has_collection(&"emunet".to_string()));
}

#[test]
fn ensure_collection_creates_once() {
    let mut store = MemoryStore::new();
    let name = "emunet".to_string();
    store.ensure_collection(&name, EMBEDDING_DIM, DistanceMetric::Cosine);
    assert!(store.has_collection(&name));
    assert_eq!(store.list_collections(), vec!["emunet".to_string()]);
}

#[test]
fn ensure_collection_is_idempotent() {
    let mut store = MemoryStore::new();
    let name = "emunet".to_string();
    store.ensure_collection(&name, EMBEDDING_DIM, DistanceMetric::Cosine);
    store.ensure_collection(&name, EMBEDDING_DIM, DistanceMetric::Cosine);
    assert_eq!(store.list_collections(), vec!["emunet".to_string()]);
}

#[test]
fn needs_creation_decides_from_listing() {
    let listed = vec!["alpha".to_string(), "emunet".to_string()];
    assert!(!emunet::store::needs_creation(&listed, &"emunet".to_string()));
    assert!(emunet::store::needs_creation(
        &vec!["alpha".to_string()],
        &"emunet".to_string()
    ));
    assert!(emunet::store::needs_creation(&Vec::new(), &"emunet".to_string()));
}

#[test]
fn create_collection_rejects_taken_name() {
    let mut store = MemoryStore::new();
    let name = "emunet".to_string();
    assert_eq!(
        store.create_collection(name.clone(), EMBEDDING_DIM, DistanceMetric::Cosine),
        Ok(())
    );
    assert_eq!(
        store.create_collection(name.clone(), EMBEDDING_DIM, DistanceMetric::Cosine),
        Err(StoreError::CollectionExists)
    );
    assert_eq!(store.list_collections(), vec!["emunet".to_string()]);
}

#[test]
fn upsert_rejects_missing_collection() {
    let mut store = MemoryStore::new();
    let point = MemoryPoint { id: 0, embedding: vector(), payload_text: "hi".to_string() };
    let r = store.upsert(&"emunet".to_string(), vec![point]);
    assert_eq!(r, Err(StoreError::CollectionMissing));
}

#[test]
fn upsert_then_read_back_by_id() {
    let mut store = MemoryStore::new();
    let name = "emunet".to_string();
    store.ensure_collection(&name, EMBEDDING_DIM, DistanceMetric::Cosine);
    let point = MemoryPoint { id: 7, embedding: vector(), payload_text: "remember me".to_string() };
    assert_eq!(store.upsert(&name, vec![point]), Ok(()));
    let back = store.get_point(&name, 7).expect("point was written");
    assert_eq!(back.id, 7);
    assert_eq!(back.payload_text, "remember me".to_string());
    assert!(store.get_point(&name, 8).is_none());
}

#[test]
fn upsert_replaces_point_with_same_id() {
    let mut store = MemoryStore::new();
    let name = "emunet".to_string();
    store.ensure_collection(&name, EMBEDDING_DIM, DistanceMetric::Cosine);
    let first = MemoryPoint { id: 3, embedding: vector(), payload_text: "old".to_string() };
    let second = MemoryPoint { id: 3, embedding: vector(), payload_text: "new".to_string() };
    assert_eq!(store.upsert(&name, vec![first]), Ok(()));
    assert_eq!(store.upsert(&name, vec![second]), Ok(()));
    let back = store.get_point(&name, 3).expect("point exists");
    assert_eq!(back.payload_text, "new".to_string());
}

#[test]
fn build_points_allocates_consecutive_ids() {
    let points = build_points(
        &"question".to_string(),
        &"answer".to_string(),
        vector(),
        vector(),
        10,
    );
    assert_eq!(points.len(), 2);
    assert_eq!(points[0].id, 10);
    assert_eq!(points[0].payload_text, "question".to_string());
    assert_eq!(points[1].id, 11);
    assert_eq!(points[1].payload_text, "answer".to_string());
}

#[test]
fn record_turn_writes_both_points_and_advances() {
    let mut store = MemoryStore::new();
    let name = "emunet".to_string();
    store.ensure_collection(&name, EMBEDDING_DIM, DistanceMetric::Cosine);
    let r = record_turn(
        &mut store,
        &name,
        &"Hello".to_string(),
        &"Hi there".to_string(),
        EmbedOutcome::Vector(vector()),
        EmbedOutcome::Vector(vector()),
        0,
    );
    assert_eq!(r, Ok(2));
    assert_eq!(
        store.get_point(&name, 0).expect("prompt point").payload_text,
        "Hello".to_string()
    );
    assert_eq!(
        store.get_point(&name, 1).expect("reply point").payload_text,
        "Hi there".to_string()
    );
}

#[test]
fn record_turn_rejects_failed_embedding() {
    let mut store = MemoryStore::new();
    let name = "emunet".to_string();
    store.ensure_collection(&name, EMBEDDING_DIM, DistanceMetric::Cosine);
    let r = record_turn(
        &mut store,
        &name,
        &"Hello".to_string(),
        &"Hi there".to_string(),
        EmbedOutcome::Vector(vector()),
        EmbedOutcome::Failed,
        0,
    );
    assert_eq!(r, Err(WriteError::EmbeddingFailed));
    assert!(store.get_point(&name, 0).is_none());
    assert!(store.get_point(&name, 1).is_none());
}

#[test]
fn record_turn_rejects_missing_collection() {
    let mut store = MemoryStore::new();
    let r = record_turn(
        &mut store,
        &"emunet".to_string(),
        &"Hello".to_string(),
        &"Hi there".to_string(),
        EmbedOutcome::Vector(vector()),
        EmbedOutcome::Vector(vector()),
        0,
    );
    assert_eq!(r, Err(WriteError::StoreRejected));
}
