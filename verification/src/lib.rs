//! Core of a remote build relay.
//!
//! A client packs a project directory into an archive and submits it to a
//! build server as one length-prefixed frame; the server stages the archive
//! in a private workspace, runs a build tool against it and answers with one
//! frame that carries the artifact.  This crate holds the parts of that
//! exchange that have rules to get right: the frame codec, the selection of
//! what goes into an archive, the per-connection lifecycle of the server, the
//! client session, and the discipline that releases every workspace exactly
//! once.  Everything here works on plain values; sockets, files and processes
//! belong to the caller.

pub mod archive;
pub mod client;
pub mod error;
pub mod executor;
pub mod frame;
pub mod history;
pub mod logger;
pub mod server;
pub mod workspace;
pub mod zip_writer;
