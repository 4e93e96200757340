//! The metadata engine of a multi-distribution package repository.
//!
//! - `processor`: package types and classification of uploaded file names.
//! - `text`, `fields`: matching and splitting of text, and `key: value`
//!   fields.
//! - `ar`, `tar`, `rpm`: the containers that packages come in.
//! - `metadata`, `extract`: the metadata read from each package type, and
//!   the record built from a blob.
//! - `order`, `index`: the order an index lists packages in, and the text of
//!   each ecosystem's index entries.
//! - `release`, `rebuild`: the Debian `Release` file and the RPM
//!   `repomd.xml`, the publication of those indexes, and their rebuilding
//!   from the stored blobs.
//! - `repository`: upload and delete, each followed by a rebuild.
//! - `storage`: the key layout and a storage backend held in memory.
//! - `setup`: client setup scripts for each package manager.
//! - `laws`: properties that relate several of the above.

pub mod ar;
pub mod extract;
pub mod fields;
pub mod index;
pub mod laws;
pub mod metadata;
pub mod order;
pub mod processor;
pub mod rebuild;
pub mod release;
pub mod repository;
pub mod rpm;
pub mod setup;
pub mod storage;
pub mod tar;
pub mod text;
