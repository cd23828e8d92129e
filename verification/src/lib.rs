//! A notification dispatcher: a rule engine that decides which incoming
//! events produce an outbound telegram, a set of rate-limited queues a
//! dispatcher drains in priority order, and the caches both rely on.
pub mod config;
pub mod dispatch;
pub mod engine;
pub mod event;
pub mod membership;
pub mod pattern;
pub mod queue;
pub mod rules;
pub mod strutil;
