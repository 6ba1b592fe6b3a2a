//! A hand-built cooperative scheduling core, and the small programs that
//! surround it.
//!
//! The core: suspendable computations (`future`) advanced until they are
//! ready (`runtime`), wake handles that let background work resume them
//! (`waker`, `timer`), a deterministic timer backend (`clock`), and the
//! combinators built on top (`yield_now`, `select`, `join`, `script`, `task`).
//!
//! Around it: a key-value store with its append-only-file format
//! (`kv_store`), the rules of a user service (`users`, `repository`,
//! `user_service`), HTTP helpers (`http`, `query_string`), and small examples
//! (`basics`, `person`, `connection`, `smart_pointer`, `demos`).

// The scheduling core.
pub mod poll;
pub mod waker;
pub mod future;
pub mod yield_now;
pub mod timer;
pub mod select;
pub mod join;
pub mod clock;
pub mod runtime;
pub mod script;
pub mod task;
pub mod demos;

// Services.
pub mod kv_store;
pub mod users;
pub mod repository;
pub mod user_service;
pub mod http;
pub mod query_string;

// Examples.
pub mod basics;
pub mod connection;
pub mod person;
pub mod smart_pointer;
