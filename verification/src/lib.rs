//! Layered configuration management over a dynamically typed document tree.
//!
//! A base (default) configuration is progressively overridden by user-supplied
//! and runtime-supplied partial configurations. The crate provides:
//!
//! - [`Value`], a recursive tree value (null / bool / int / float / string /
//!   array / object) that models a parsed configuration document;
//! - [`Merge`], a recursive, type-guarded deep merge where the right-hand
//!   operand overrides the left;
//! - [`Pointer`], a slash-delimited, escape-aware structural path lookup;
//! - [`Config`], a container owning default / userset / runtime layers plus
//!   the derived merged settings, kept in sync after every mutation.
//!
//! Reading files and turning text into a [`Value`] (and a merged [`Value`]
//! into a caller-defined typed record) are left to the caller.

pub mod config;
pub mod error;
pub mod merge;
pub mod pointer;
pub mod value;

pub use config::Config;
pub use error::{EkkeCfgError, EkkeResult};
pub use merge::Merge;
pub use pointer::Pointer;
pub use value::{TreeV, Value};
