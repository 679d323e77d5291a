//! Conversation memory and orchestration core for a local-model chat client.
//!
//! The crate keeps the durable log of prompt/response exchanges, the keyword
//! retrieval over that log, the derived analytics, the completed-work queue
//! that bridges background tasks to the interactive loop, and the state
//! machine that drives one chat request.  Presentation and transport stay in
//! the surrounding application.

pub mod analytics;
pub mod bus;
pub mod db;
pub mod file_handler;
pub mod models;
pub mod orchestrator;
pub mod plugins;
pub mod store;
pub mod textutil;
pub mod time;
