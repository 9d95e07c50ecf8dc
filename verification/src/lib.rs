//! An in-process supervisor for machine-learning model workers: a store of
//! model configurations and prompting tasks, one mailbox per worker, routing
//! of prompts, embeddings and transcription streams, and a log of every
//! status the workers publish. The supervisor is modeled as a state machine
//! whose outside work — building engines, running inference, reading audio —
//! enters through explicit outcomes, so that every decision it makes is
//! verified. A credential wallet and the runtime's small persisted lists
//! live alongside it.

pub mod ai_service;
pub mod db;
pub mod error;
pub mod ids;
pub mod kv;
pub mod laws;
pub mod llm;
pub mod runtime;
pub mod types;
pub mod wallet;
