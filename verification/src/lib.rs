//! Host core of a recursive, sandboxed file-analysis engine.
//!
//! Input files are wrapped as read-only blobs and handed, one (plug-in, blob)
//! pair at a time, to analysis jobs that run inside a WebAssembly sandbox.
//! A job may emit tabular metadata, write output blobs, or carve byte ranges
//! out of its input; carves are re-submitted as new jobs. This crate holds
//! the verified core: blob windows and carves, the host side of the guest
//! ABI (reads, output buffers, metadata schemas and rows), the per-job
//! resource limiter, the compiled-module cache format, the mapped-byte
//! admission ledger, job planning, and the quiescence tracker that decides
//! when the worker pool shuts down.
//!
//! Only carves extend the recursive job graph: output blobs stay with the
//! job that wrote them and are not resubmitted to the plug-in pipeline.

pub mod bindings;
pub mod blob;
pub mod carve;
pub mod context;
pub mod driver;
pub mod environment;
pub mod guest;
pub mod job;
pub mod ledger;
pub mod load;
pub mod schema;
pub mod tracker;
pub mod types;
