//! Durable conversations with a language model: the rules of their journals, their stores, their
//! sessions and their agent loops.
pub mod actor;
pub mod agent_loop;
pub mod api;
pub mod checkpoint;
pub mod checkpoint_laws;
pub mod context;
pub mod deep;
pub mod durable;
pub mod engine;
pub mod history;
pub mod identity;
pub mod journal;
pub mod journal_laws;
pub mod loop_laws;
pub mod loop_rules;
pub mod manager;
pub mod manager_laws;
pub mod mend_laws;
pub mod message;
pub mod partial;
pub mod printing;
pub mod protocol;
pub mod protocol_laws;
pub mod queue;
pub mod repair;
pub mod repair_laws;
pub mod run_laws;
pub mod session;
pub mod session_laws;
pub mod store;
pub mod store_laws;
pub mod stream_laws;
pub mod tail_laws;
pub mod text;
pub mod turn_laws;
pub mod work_laws;
