//! A file-upload service core: a Service orchestrates a metadata
//! repository and a blob store, enforcing a byte-count ceiling while a
//! stream of chunks is written, deriving a MIME type from the uploaded
//! file's name, and resolving a record id back into the stored bytes for
//! download.
//!
//! The repository and store are capabilities ([`repository::Repository`],
//! [`store::Store`]) with contracts; [`mem_repository::MemRepository`] and
//! [`mem_store::MemStore`] are verified in-memory backends, and
//! [`local_fs::LocalFSStore`] holds the verified decisions of the
//! filesystem-backed store, whose file I/O lives with the caller.

pub mod clock;
pub mod entities;
pub mod error;
pub mod ids;
pub mod local_fs;
pub mod mem_repository;
pub mod mem_store;
pub mod mime;
pub mod repository;
pub mod service;
pub mod store;
