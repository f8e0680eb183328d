//! Golden-file testing: tests register named artifacts, the engine compares
//! each one with its accepted baseline and classifies the outcome.
//!
//! A test gets a [`Provider`] from [`difftest`], registers its artifacts and
//! fills their [`Writer`]s; each writer is committed to the storage when the
//! test is done with it. [`validate`] then compares what was written with
//! the baselines in the same storage, stores the sidecar files that explain
//! the differences, and returns one outcome for each artifact.
//!
//! Storage is a store and handles onto it. The store holds the files; a
//! handle is a root, made from another by `duplicate` or `subsystem`, and
//! every operation takes the handle and the store. What is written through
//! one handle is therefore seen through every other handle of that store.

pub mod path;
pub mod shared;
pub mod filesystem;
pub mod memory;
pub mod provider;
pub mod comparison;
pub mod config;
pub mod validation;
pub mod diff;
pub mod laws;
pub mod idempotence;
pub mod extensions;
pub mod html;
pub mod output;
pub mod event_loop;
pub mod summary;
pub mod transport;
pub mod disk;
pub mod harness;
pub mod promote;

pub use crate::harness::difftest;
pub use crate::provider::{Provider, WriteRequester, Writer};
pub use crate::validation::validate;
