//! A package manager core for Noir projects: dependency resolution into a
//! local cache, packaging of a project into a publishable archive, and the
//! registry protocol, each stated as verified contracts.
pub mod config;
pub mod path;
pub mod manifest;
pub mod registry;
pub mod package;
pub mod resolver;
pub mod ops;
