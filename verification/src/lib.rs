//! Request-protection and response-freshness layer for a game-collection
//! catalog service.
//!
//! The library contains the logic that every catalog-reading request passes
//! through before and after the authoritative store is consulted:
//!
//! * admission control: a token-bucket rate limiter with an optional global
//!   scope and an optional per-client scope, plus a whitelist of exempt path
//!   prefixes ([`admission`], [`bucket`]);
//! * client identity extraction from proxy headers ([`identity`]);
//! * cache-aside decisions for the list, detail and platform endpoints:
//!   deterministic cache keys, per-endpoint time-to-live values, and the
//!   treatment of unavailable or undecodable cache entries as misses
//!   ([`cache`], [`product_list`], [`product_details`], [`platforms`]);
//! * the freshness split of the detail endpoint: the stable payload is cached
//!   with the complete bid lists, and the requesting user's own identity is
//!   removed from every bid list on every request ([`product_details`]);
//! * counters for admission and cache outcomes ([`metrics`]).
//!
//! All I/O (the relational store, the expiring key/value store, the HTTP
//! surface) stays outside: callers perform it and feed plain values in.

pub mod admission;
pub mod auth;
pub mod bucket;
pub mod cache;
pub mod identity;
pub mod metrics;
pub mod numfmt;
pub mod platforms;
pub mod product_details;
pub mod product_list;
pub mod sales;
pub mod text;
