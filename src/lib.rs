//! A lock manager for a small set of named, mutually exclusive resources,
//! the bounded-retry acquisition rule built on it, and the worker tasks that
//! use both to fill the resources without deadlocking.
pub mod resource;
pub mod table;
pub mod retry;
pub mod worker;
pub mod scenario;
