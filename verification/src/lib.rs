//! The sequential core of an in-process actor runtime.
//!
//! Actors live in a supervision tree and talk by messages only. Each has a
//! [mailbox](kernel::mailbox) with a user queue and a system queue, a
//! [cell](kernel::cell) that knows its parent and children, and a dock for
//! its instance. A [run-task](kernel::mailbox::run_mailbox) drains the
//! mailbox of one actor: system messages first, then user messages up to a
//! quota. The [provider](kernel::provider) spawns actors at unique paths,
//! and the [system](system) holds them all, submits run-tasks, carries out
//! what a run-task has decided, and sends lifecycle events and dead letters
//! to their subscribers.
//!
//! Everything here runs to completion on the caller's thread. What a
//! run-task does is written down as a mathematical function in
//! [`kernel::model`], and the executable code is proved against it; what
//! holds of every run-task and of every step of a system is proved in
//! [`kernel::laws`] and [`invariants`].

pub mod actor;
pub mod config;
pub mod invariants;
pub mod kernel;
pub mod system;
pub mod validate;
