//! Checks that a package build runs on what it has built.
//!
//! The heart of the library is the check of shared libraries in
//! [`check_shlibs`]: for each library that a binary object requires it finds
//! the file that the dynamic linker would load, and holds against that file
//! what the packaging rules forbid. The check reads objects through the
//! `goblin` crate ([`object`]), composes paths through `std::path`
//! ([`paths`]) and matches forbidden paths through the `regex` crate
//! ([`pattern`]); whether a file exists and what the package database holds
//! it learns from its caller, and remembers in [`cache`].
//!
//! The other modules hold the rules of the smaller tools around it.

pub mod bytes;
pub mod cache;
pub mod check_portability;
pub mod check_shlibs;
pub mod checkshlibs;
pub mod checksum;
pub mod cli;
pub mod context;
pub mod ctfconvert;
pub mod diagnostic;
pub mod digest;
pub mod distinfo;
pub mod fetch;
pub mod jobs;
pub mod makesum;
pub mod object;
pub mod paths;
pub mod pattern;
pub mod settings;
pub mod symlinks;
pub mod text;
