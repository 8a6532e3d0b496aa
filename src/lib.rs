//! Model registry resolution and the decision logic of a streaming
//! text-generation engine.

pub mod conversation;
pub mod hub;
pub mod loader;
pub mod registry;
pub mod session;
pub mod text;
pub mod variants;
