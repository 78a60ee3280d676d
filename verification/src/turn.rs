//! The turn loop's decisions: one request/response cycle as a state machine
//! over the session. The collaborators' answers (completion outcome,
//! embedding outcomes) enter as values; every decision taken on them —
//! what is appended to the history, whether the memory writer runs, whether
//! the identifier counter advances, what the user is told — is verified.

use vstd::prelude::*;

use crate::memory::{prompt_point, record_turn, reply_point, EmbedOutcome, WriteError};
use crate::session::{MessageView, Role, Session};
use crate::store::{upsert_store_spec, MemoryStore};

verus! {

/// What the completion service answered for one turn.
pub enum CompletionOutcome {
    /// A usable reply.
    Reply(String),
    /// The call succeeded but carried no usable content.
    NoContent,
    /// The call itself failed.
    CallFailed,
}

/// What one turn came to, as reported to the user.
pub enum TurnOutcome {
    /// A reply was produced and the turn was persisted to memory.
    Remembered(String),
    /// A reply was produced but the memory write failed: the conversation
    /// keeps the reply, the identifier counter stays where it was.
    NotRemembered(String, WriteError),
    /// The completion service produced no content; the turn was abandoned
    /// and the memory writer never ran.
    NoReply,
    /// The completion service call failed; the turn was abandoned and the
    /// memory writer never ran.
    CompletionFailed,
}

/// Whether a turn with these collaborator answers persists to memory: the
/// completion produced a reply, both embedding calls produced vectors, and
/// the collection was there to receive the write.
pub open spec fn turn_persists(
    completion: CompletionOutcome,
    prompt_embedding: EmbedOutcome,
    reply_embedding: EmbedOutcome,
    has_collection: bool,
) -> bool {
    &&& completion is Reply
    &&& prompt_embedding is Vector
    &&& reply_embedding is Vector
    &&& has_collection
}

/// The completion step of one turn: exactly when the service returned
/// content, that content is appended to the history as an assistant message
/// and handed back; on no content or a failed call the session is untouched.
/// The identifier counter never moves here.
pub fn apply_completion(session: &mut Session, outcome: &CompletionOutcome) -> (reply: Option<
    String,
>)
    ensures
        final(session)@.next_id == old(session)@.next_id,
        *outcome matches CompletionOutcome::Reply(t) ==> reply == Some(t) && final(session)@.messages
            == old(session)@.messages.push(
            (MessageView { role: Role::Assistant, content: t@ }),
        ),
        !(*outcome is Reply) ==> reply == None::<String> && *final(session) == *old(session),
{
    match outcome {
        CompletionOutcome::Reply(t) => {
            let copy = t.clone();
            session.push_assistant(t.clone());
            Some(copy)
        },
        _ => None,
    }
}

/// The write step of one turn: the identifier counter advances by exactly
/// two when the store accepted the batched write, and not at all otherwise;
/// the history is untouched either way.
pub fn apply_write_outcome(session: &mut Session, accepted: bool)
    requires
        accepted ==> old(session)@.next_id + 2 <= u64::MAX,
    ensures
        final(session)@.messages == old(session)@.messages,
        accepted ==> final(session)@.next_id == old(session)@.next_id + 2,
        !accepted ==> final(session)@.next_id == old(session)@.next_id,
{
    if accepted {
        session.next_id = session.next_id + 2;
    }
}

/// One whole turn against the store: append the user message; on content,
/// append the reply and run the memory writer; advance the identifier
/// counter exactly when the write succeeded. The reply, when one was
/// produced, is reported whether or not it could be remembered; an abandoned
/// turn leaves everything but the user message untouched.
pub fn run_turn(
    session: &mut Session,
    store: &mut MemoryStore,
    collection_name: &String,
    user_text: String,
    completion: CompletionOutcome,
    prompt_embedding: EmbedOutcome,
    reply_embedding: EmbedOutcome,
) -> (outcome: TurnOutcome)
    requires
        old(store)@.wf(),
        old(session)@.next_id + 2 <= u64::MAX,
    ensures
        final(store)@.wf(),
        final(session)@.next_id as int == old(session)@.next_id as int + (if turn_persists(
            completion,
            prompt_embedding,
            reply_embedding,
            old(store)@.has_collection(collection_name@),
        ) {
            2int
        } else {
            0int
        }),
        !(completion is Reply) ==> final(session)@.messages == old(session)@.messages.push(
            (MessageView { role: Role::User, content: user_text@ }),
        ) && final(store)@ == old(store)@,
        completion is NoContent ==> outcome == TurnOutcome::NoReply,
        completion is CallFailed ==> outcome == TurnOutcome::CompletionFailed,
        completion is Reply ==> final(session)@.messages == old(
            session,
        )@.messages.push((MessageView { role: Role::User, content: user_text@ })).push(
            (MessageView { role: Role::Assistant, content: completion->Reply_0@ }),
        ),
        completion is Reply && (prompt_embedding is Failed || reply_embedding is Failed)
            ==> outcome == TurnOutcome::NotRemembered(
            completion->Reply_0,
            WriteError::EmbeddingFailed,
        ) && final(store)@ == old(store)@,
        completion is Reply && prompt_embedding is Vector && reply_embedding is Vector && !old(
            store,
        )@.has_collection(collection_name@) ==> outcome == TurnOutcome::NotRemembered(
            completion->Reply_0,
            WriteError::StoreRejected,
        ) && final(store)@ == old(store)@,
        completion is Reply && prompt_embedding is Vector && reply_embedding is Vector && old(
            store,
        )@.has_collection(collection_name@) ==> {
            &&& outcome == TurnOutcome::Remembered(completion->Reply_0)
            &&& final(store)@ == upsert_store_spec(
                old(store)@,
                collection_name@,
                seq![
                    prompt_point(user_text@, prompt_embedding->Vector_0, old(session)@.next_id),
                    reply_point(
                        completion->Reply_0@,
                        reply_embedding->Vector_0,
                        old(session)@.next_id,
                    ),
                ],
            )
            &&& final(store)@.get(collection_name@, old(session)@.next_id) == Some(
                prompt_point(user_text@, prompt_embedding->Vector_0, old(session)@.next_id),
            )
            &&& final(store)@.get(collection_name@, (old(session)@.next_id + 1) as u64) == Some(
                reply_point(
                    completion->Reply_0@,
                    reply_embedding->Vector_0,
                    old(session)@.next_id,
                ),
            )
        },
{
    session.push_user(user_text.clone());
    let reply = match completion {
        CompletionOutcome::NoContent => {
            return TurnOutcome::NoReply;
        },
        CompletionOutcome::CallFailed => {
            return TurnOutcome::CompletionFailed;
        },
        CompletionOutcome::Reply(t) => t,
    };
    session.push_assistant(reply.clone());
    match record_turn(
        store,
        collection_name,
        &user_text,
        &reply,
        prompt_embedding,
        reply_embedding,
        session.next_id,
    ) {
        Ok(advanced) => {
            session.next_id = advanced;
            TurnOutcome::Remembered(reply)
        },
        Err(e) => TurnOutcome::NotRemembered(reply, e),
    }
}

impl TurnOutcome {
    /// The line reported to the user: the reply when one was produced — with
    /// a warning when it could not be remembered — and otherwise a notice
    /// that no reply was produced.
    pub fn notice(&self) -> (r: String)
        ensures
            *self matches TurnOutcome::Remembered(t) ==> r@ == "AI: "@ + t@,
            *self matches TurnOutcome::NotRemembered(t, e) ==> r@ == "AI: "@ + t@
                + " (warning: this turn could not be written to memory)"@,
            *self is NoReply ==> r@ == "AI: No response found, try again."@,
            *self is CompletionFailed ==> r@ == "AI: The completion service failed, try again."@,
    {
        match self {
            TurnOutcome::Remembered(t) => String::from_str("AI: ").concat(t.as_str()),
            TurnOutcome::NotRemembered(t, _) => String::from_str("AI: ").concat(t.as_str()).concat(
                " (warning: this turn could not be written to memory)",
            ),
            TurnOutcome::NoReply => String::from_str("AI: No response found, try again."),
            TurnOutcome::CompletionFailed => String::from_str(
                "AI: The completion service failed, try again.",
            ),
        }
    }
}

} // verus!
