//! Packaging of JVM applications into self-extracting executables: the
//! archive classifier and shrink rules, the size analyzer, the class-version
//! probe, the launcher stub and payload layout, and the decisions of the
//! download, cache and build pipeline.
pub mod error;
pub mod text;
pub mod classify;
pub mod shrink;
pub mod validate;
pub mod config;
pub mod stub;
pub mod hash;
pub mod pack;
pub mod download;
pub mod cache;
pub mod analyze;
pub mod gradle;
pub mod detect;
pub mod pipeline;
pub mod deps;
pub mod diagnostic;
pub mod options;
pub mod parser;
pub mod pattern;
