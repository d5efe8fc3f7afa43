//! A read-only virtual filesystem over a remote media catalog.
//!
//! The catalog's items become inodes, directories and files. The network and
//! the kernel interface stay outside this crate: it decides what to fetch,
//! builds directory listings from what came back, and answers the filesystem
//! operations from those listings.
pub mod api;
pub mod attr;
pub mod crawl;
pub mod fs;
pub mod names;
