//! Verified core of an Android OTA payload dumper.
//!
//! A payload (`payload.bin`, possibly stored in a ZIP archive, possibly
//! remote) starts with a fixed header and a manifest; the manifest lists the
//! partitions and the install operations that rebuild each image from the
//! data that follows. This library parses the header and the archive
//! structure, finds the payload, decides and applies the operations, plans
//! ranged downloads, gathers metadata and formats what is shown to users.
//! Reading files, the network and the terminal is left to the caller.

pub mod args;
pub mod bytes;
pub mod codecs;
pub mod constants;
pub mod diff;
pub mod extractor;
pub mod fetch_cache;
pub mod header;
pub mod http;
pub mod listing;
pub mod metadata;
pub mod ota_metadata;
pub mod payload_dumper;
pub mod prefetch;
pub mod puf1;
pub mod scheduling;
pub mod remote_zip;
pub mod seek;
pub mod streaming;
pub mod structs;
pub mod text;
pub mod utils;
pub mod verification;
pub mod zip;
pub mod zip_decoder;
pub mod zip_io;
