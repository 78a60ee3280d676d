//! Tests of the session state machine and the full turn loop, including the
//! scenarios: a persisted turn, an abandoned turn, and a degraded turn.

use emunet::memory::{EmbedOutcome, WriteError};
use emunet::session::{Role, Session};
use emunet::store::{DistanceMetric, Embedding, MemoryStore};
use emunet::turn::{apply_completion, apply_write_outcome, run_turn, CompletionOutcome, TurnOutcome};
use emunet::{collection_name, completion_model, embedding_model, EMBEDDING_DIM, MAX_REPLY_TOKENS};

fn vector() -> Embedding {
    Embedding { dim: EMBEDDING_DIM }
}

fn ready_store() -> MemoryStore {
    let mut store = MemoryStore::new();
    store.ensure_collection(&collection_name(), EMBEDDING_DIM, DistanceMetric::Cosine);
    store
}

#[test]
fn fresh_session_is_empty() {
    let session = Session::new();
    assert_eq!(session.len(), 0);
    assert_eq!(session.next_id, 0);
}

#[test]
fn pushes_keep_conversational_order() {
    let mut session = Session::new();
    session.push_user("first".to_string());
    session.push_assistant("second".to_string());
    assert_eq!(session.len(), 2);
    assert_eq!(session.messages[0].role, Role::User);
    assert_eq!(session.messages[0].content, "first".to_string());
    assert_eq!(session.messages[1].role, Role::Assistant);
    assert_eq!(session.messages[1].content, "second".to_string());
    assert_eq!(session.next_id, 0);
}

#[test]
fn hello_turn_is_persisted() {
    let mut session = Session::new();
    let mut store = ready_store();
    let outcome = run_turn(
        &mut session,
        &mut store,
        &collection_name(),
        "Hello".to_string(),
        CompletionOutcome::Reply("Hi there".to_string()),
        EmbedOutcome::Vector(vector()),
        EmbedOutcome::Vector(vector()),
    );
    assert!(matches!(outcome, TurnOutcome::Remembered(ref r) if r == "Hi there"));
    assert_eq!(session.len(), 2);
    assert_eq!(session.messages[0].role, Role::User);
    assert_eq!(session.messages[0].content, "Hello".to_string());
    assert_eq!(session.messages[1].role, Role::Assistant);
    assert_eq!(session.messages[1].content, "Hi there".to_string());
    assert_eq!(session.next_id, 2);
    let name = collection_name();
    let prompt = store.get_point(&name, 0).expect("prompt point");
    assert_eq!(prompt.id, 0);
    assert_eq!(prompt.payload_text, "Hello".to_string());
    let reply = store.get_point(&name, 1).expect("reply point");
    assert_eq!(reply.id, 1);
    assert_eq!(reply.payload_text, "Hi there".to_string());
}

#[test]
fn no_content_abandons_turn() {
    let mut session = Session::new();
    let mut store = ready_store();
    let outcome = run_turn(
        &mut session,
        &mut store,
        &collection_name(),
        "Hello".to_string(),
        CompletionOutcome::NoContent,
        EmbedOutcome::Vector(vector()),
        EmbedOutcome::Vector(vector()),
    );
    assert!(matches!(outcome, TurnOutcome::NoReply));
    assert_eq!(session.len(), 1);
    assert_eq!(session.messages[0].role, Role::User);
    assert_eq!(session.messages[0].content, "Hello".to_string());
    assert_eq!(session.next_id, 0);
    assert!(store.get_point(&collection_name(), 0).is_none());
    assert_eq!(outcome.notice(), "AI: No response found, try again.".to_string());
}

#[test]
fn embedding_failure_keeps_reply_but_not_memory() {
    let mut session = Session::new();
    let mut store = ready_store();
    let outcome = run_turn(
        &mut session,
        &mut store,
        &collection_name(),
        "Hello".to_string(),
        CompletionOutcome::Reply("Hi there".to_string()),
        EmbedOutcome::Vector(vector()),
        EmbedOutcome::Failed,
    );
    assert!(matches!(
        outcome,
        TurnOutcome::NotRemembered(ref r, WriteError::EmbeddingFailed) if r == "Hi there"
    ));
    assert_eq!(session.len(), 2);
    assert_eq!(session.messages[1].role, Role::Assistant);
    assert_eq!(session.messages[1].content, "Hi there".to_string());
    assert_eq!(session.next_id, 0);
    assert!(store.get_point(&collection_name(), 0).is_none());
    assert_eq!(
        outcome.notice(),
        "AI: Hi there (warning: this turn could not be written to memory)".to_string()
    );
}

#[test]
fn missing_collection_degrades_turn() {
    let mut session = Session::new();
    let mut store = MemoryStore::new();
    let outcome = run_turn(
        &mut session,
        &mut store,
        &collection_name(),
        "Hello".to_string(),
        CompletionOutcome::Reply("Hi there".to_string()),
        EmbedOutcome::Vector(vector()),
        EmbedOutcome::Vector(vector()),
    );
    assert!(matches!(
        outcome,
        TurnOutcome::NotRemembered(_, WriteError::StoreRejected)
    ));
    assert_eq!(session.next_id, 0);
    assert_eq!(session.len(), 2);
}

#[test]
fn counter_counts_only_persisted_turns() {
    let mut session = Session::new();
    let mut store = ready_store();
    let name = collection_name();
    let turns = [
        (CompletionOutcome::Reply("a".to_string()), EmbedOutcome::Vector(vector()), true),
        (CompletionOutcome::NoContent, EmbedOutcome::Vector(vector()), false),
        (CompletionOutcome::Reply("b".to_string()), EmbedOutcome::Failed, false),
        (CompletionOutcome::Reply("c".to_string()), EmbedOutcome::Vector(vector()), true),
    ];
    let mut persisted: u64 = 0;
    for (completion, reply_embedding, succeeds) in turns {
        let outcome = run_turn(
            &mut session,
            &mut store,
            &name,
            "ask".to_string(),
            completion,
            EmbedOutcome::Vector(vector()),
            reply_embedding,
        );
        if succeeds {
            assert!(matches!(outcome, TurnOutcome::Remembered(_)));
            persisted += 1;
        }
        assert_eq!(session.next_id, 2 * persisted);
    }
    assert_eq!(session.next_id, 4);
}

#[test]
fn ids_issued_are_distinct_and_increasing() {
    let mut session = Session::new();
    let mut store = ready_store();
    let name = collection_name();
    for (ask, answer) in [("one", "uno"), ("two", "dos"), ("three", "tres")] {
        run_turn(
            &mut session,
            &mut store,
            &name,
            ask.to_string(),
            CompletionOutcome::Reply(answer.to_string()),
            EmbedOutcome::Vector(vector()),
            EmbedOutcome::Vector(vector()),
        );
    }
    assert_eq!(session.next_id, 6);
    let mut seen = Vec::new();
    for id in 0..6u64 {
        let p = store.get_point(&name, id).expect("every id was issued once");
        assert!(!seen.contains(&p.id));
        seen.push(p.id);
    }
    assert_eq!(store.get_point(&name, 2).expect("prompt of second turn").payload_text, "two".to_string());
    assert_eq!(store.get_point(&name, 3).expect("reply of second turn").payload_text, "dos".to_string());
}

#[test]
fn empty_input_is_a_literal_message() {
    let mut session = Session::new();
    let mut store = ready_store();
    let outcome = run_turn(
        &mut session,
        &mut store,
        &collection_name(),
        "".to_string(),
        CompletionOutcome::Reply("still here".to_string()),
        EmbedOutcome::Vector(vector()),
        EmbedOutcome::Vector(vector()),
    );
    assert!(matches!(outcome, TurnOutcome::Remembered(_)));
    assert_eq!(session.messages[0].content, "".to_string());
    assert_eq!(
        store.get_point(&collection_name(), 0).expect("empty prompt stored").payload_text,
        "".to_string()
    );
}

#[test]
fn completion_failure_reports_notice() {
    let mut session = Session::new();
    let mut store = ready_store();
    let outcome = run_turn(
        &mut session,
        &mut store,
        &collection_name(),
        "Hello".to_string(),
        CompletionOutcome::CallFailed,
        EmbedOutcome::Failed,
        EmbedOutcome::Failed,
    );
    assert!(matches!(outcome, TurnOutcome::CompletionFailed));
    assert_eq!(session.len(), 1);
    assert_eq!(session.next_id, 0);
    assert_eq!(
        outcome.notice(),
        "AI: The completion service failed, try again.".to_string()
    );
}

#[test]
fn remembered_notice_reports_reply() {
    let outcome = TurnOutcome::Remembered("Hi there".to_string());
    assert_eq!(outcome.notice(), "AI: Hi there".to_string());
}

#[test]
fn apply_completion_appends_only_on_content() {
    let mut session = Session::new();
    let reply = apply_completion(&mut session, &CompletionOutcome::Reply("yes".to_string()));
    assert_eq!(reply, Some("yes".to_string()));
    assert_eq!(session.len(), 1);
    assert_eq!(session.messages[0].role, Role::Assistant);
    let none = apply_completion(&mut session, &CompletionOutcome::NoContent);
    assert_eq!(none, None);
    assert_eq!(session.len(), 1);
}

#[test]
fn apply_write_outcome_moves_counter_only_on_success() {
    let mut session = Session::new();
    apply_write_outcome(&mut session, false);
    assert_eq!(session.next_id, 0);
    apply_write_outcome(&mut session, true);
    assert_eq!(session.next_id, 2);
    apply_write_outcome(&mut session, true);
    assert_eq!(session.next_id, 4);
}

#[test]
fn configuration_is_fixed() {
    assert_eq!(collection_name(), "emunet".to_string());
    assert_eq!(completion_model(), "gpt-4".to_string());
    assert_eq!(embedding_model(), "text-embedding-ada-002".to_string());
    assert_eq!(EMBEDDING_DIM, 1536);
    assert_eq!(MAX_REPLY_TOKENS, 512);
}
