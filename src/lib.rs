//! Decision logic of a small HTTP file-management service: resolving upload
//! targets under a storage root, allocating collision-free names, driving an
//! upload through its I/O steps, and dispatching deletes.
pub mod delete;
pub mod outcome;
pub mod resolve;
pub mod unique;
pub mod upload;
