//! Era1 archive handling: the e2store record codec, the compressed record
//! types that make up a block tuple, assembly and parsing of whole era1
//! files, and the decision logic of the verified archive downloader
//! (checksum manifests, mirror catalogs, streaming digest checks and
//! mirror fallback).

pub mod catalog;
pub mod checksums;
pub mod e2s;
pub mod era1;
pub mod execution_types;
pub mod fetch;
pub mod orchestrator;
pub mod sha256;
pub mod snappy;
pub mod u256;
