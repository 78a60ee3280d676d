//! A conversational memory store: ordered, session-scoped chat history,
//! idempotent lifecycle of a fixed-schema vector collection, allocation of
//! stable point identifiers, and the turn-by-turn rules that decide when a
//! turn's texts are written to the store and when the identifier counter may
//! advance.
//!
//! The network collaborators (the completion service, the embedding service,
//! the vector store itself) live outside this crate; their outcomes enter the
//! library as plain values, and every decision taken on those outcomes is
//! verified here.

use vstd::prelude::*;

pub mod laws;
pub mod memory;
pub mod session;
pub mod store;
pub mod turn;

verus! {

/// Dimensionality of every embedding vector and of the collection schema.
pub const EMBEDDING_DIM: usize = 1536;

/// Token budget for one completion reply.
pub const MAX_REPLY_TOKENS: u16 = 512;

/// Name of the fixed collection every session writes to.
pub fn collection_name() -> (r: String)
    ensures
        r@ == "emunet"@,
{
    String::from_str("emunet")
}

/// Model identifier handed to the completion service.
pub fn completion_model() -> (r: String)
    ensures
        r@ == "gpt-4"@,
{
    String::from_str("gpt-4")
}

/// Model identifier handed to the embedding service.
pub fn embedding_model() -> (r: String)
    ensures
        r@ == "text-embedding-ada-002"@,
{
    String::from_str("text-embedding-ada-002")
}

} // verus!
