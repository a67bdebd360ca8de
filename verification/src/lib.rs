//! The core of a package manager for the npm registry, as a library of
//! decisions.
//!
//! Installing is resolving the dependency graph, downloading each archive
//! into a store, mirroring the store into the project with hard links, and
//! linking every package to its dependencies. This library decides what is
//! done: which version a range stands for, which fetches to start, which
//! archives to download, where every file and link goes, and how the
//! manifest changes. It touches neither the network nor the file system;
//! its caller does, step by step, as the library's answers say.
//!
//! Every function states what it returns over a mathematical model of its
//! arguments, and Verus checks each against its body. What is taken on trust
//! is said where it stands: the insertion-ordered map in [`npm`] and the
//! semver parser and matcher in [`semver`].

use vstd::prelude::*;

pub mod dependency_resolver;
pub mod downloader;
pub mod http;
pub mod install_manifest;
pub mod install_package;
pub mod linker;
pub mod lookup;
pub mod npm;
pub mod outcome;
pub mod package_manifest;
pub mod paths;
pub mod resolution_laws;
pub mod resolve_version_range;
pub mod semver;
pub mod text;

verus! {

/// The name of the store folder: of the store itself, and of the folder
/// inside the dependency folder that mirrors it.
pub const STORE_FOLDER: &'static str = ".fpm";

/// The name of the dependency folder.
pub const DEPS_FOLDER: &'static str = "node_modules";

} // verus!
