//! Mirrors a Debian-style package archive into a local directory.
//!
//! The library holds what the mirroring decides and computes: reading the
//! configuration, the manifest of a suite and its indices; the layout of a
//! repository and of its staging directory; the requests for files, their
//! checksums and their accounting; the steps of a run and how a run ends.
//! What touches the disk or the network stays with the program around it,
//! which hands plain values in and carries the decisions out.

pub mod canonical;
pub mod checksum;
pub mod cmd;
pub mod codec;
pub mod config;
pub mod diff_index;
pub mod digest;
pub mod download;
pub mod error;
pub mod filter;
pub mod hexcode;
pub mod index;
pub mod installer;
pub mod keystore;
pub mod lists;
pub mod manifest;
pub mod metadata_file;
pub mod mirror;
pub mod number;
pub mod path;
pub mod progress;
pub mod prune;
pub mod reader;
pub mod release;
pub mod repository;
pub mod roundtrip;
pub mod sources;
pub mod steps;
pub mod sum_file;
pub mod text;
pub mod textmap;
pub mod verify;
