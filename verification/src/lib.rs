//! A runtime core for a standardized instant-messaging bot protocol: a
//! dynamic value model with fallible typed extraction, declarative
//! narrowing and widening between typed envelopes and that model, a dual
//! text/binary wire codec, request/response correlation, and the
//! orchestrator owning the runtime lifecycle and the dispatch pipelines.

pub mod action;
pub mod bridge;
pub mod echo;
pub mod error;
pub mod event;
pub mod lifecycle;
pub mod outside;
pub mod resp;
pub mod segment;
pub mod util;
pub mod value;
