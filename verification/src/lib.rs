//! A policy decision engine for LLM operations.
//!
//! Given a request context (user, team, project, LLM call parameters, request
//! metadata), the engine evaluates a declarative, priority-ordered rule set and
//! returns one of four outcomes: allow, deny, warn, or modify (with field-level
//! patches). Policies are loaded from YAML or JSON documents, validated
//! structurally, and evaluated by a pure, fully specified evaluator. Decisions
//! can be cached in a fingerprint-keyed, TTL- and capacity-bounded store.

#![verifier::loop_isolation(false)]

pub mod action;
pub mod alist;
pub mod bench;
pub mod cache;
pub mod condition;
pub mod config;
pub mod context;
pub mod decision;
pub mod document;
pub mod engine;
pub mod error;
pub mod evaluator;
pub mod integration;
pub mod json;
pub mod outside;
pub mod policy;
pub mod rule;
pub mod strutil;
pub mod telemetry;
pub mod value;
