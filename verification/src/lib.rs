//! Verified core of a multi-stream media-processing runtime.
//!
//! Decoded video frames flow through an ordered list of user-defined stages,
//! driven by a per-stream event loop and reconciled against a declarative
//! streams table. This crate holds the data model and the decision logic:
//! the streams table with its uniqueness invariants, the restart-policy state
//! machine, the frame-path executor, the per-stream manager's event handling,
//! the dispatcher's reconciliation planning, and the key-value store scoping
//! rules. Media ingest and egress, embedded hook languages and the HTTP
//! control surface are collaborators behind narrow interfaces.

pub mod dispatcher;
pub mod events;
pub mod exporters;
pub mod frame;
pub mod hash;
pub mod hook;
pub mod ids;
pub mod inference;
pub mod input;
pub mod json;
pub mod kvs;
pub mod language;
pub mod output;
pub mod parser;
pub mod path;
pub mod pipeline;
pub mod rest;
pub mod stage;
pub mod streams;
pub mod tags;
pub mod text;
pub mod video;
