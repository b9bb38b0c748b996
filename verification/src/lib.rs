//! In-memory chat-session gateway core: a session store, the message-exchange
//! orchestration around a remote completion service, and age-based retention.
pub mod model;
pub(crate) mod sys;
pub mod store;
pub mod orchestrator;
