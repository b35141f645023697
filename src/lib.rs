//! Core of a streaming chat client: the server-sent-events decoder, the
//! session and consumer state machines of one streamed exchange, and the
//! deduplicating content store.
pub mod decoder;
pub mod items;
pub mod panels;
pub mod request;
pub mod text;
pub mod session;
pub mod store;
pub mod consumer;
pub mod clock;
