//! Metadata engine of a content-addressed file system.
//!
//! The tables of inodes, directory entries and object statistics, the rules by
//! which requests change them, the caches in front of them and the bookkeeping
//! of write buffers are all plain data here, and every rule is proved against a
//! mathematical description of those tables.  Storage, networking, clocks and
//! the object store stay outside: their answers come in as arguments.
#![allow(unused_imports)]

pub mod text;
pub mod table;
pub mod errors;
pub mod json;
pub mod records;
pub mod tables;
pub mod requests;
pub mod leases;
pub mod lease_laws;
pub mod stats;
pub mod tree;
pub mod load_laws;
pub mod outside;
pub mod ops;
pub mod writer;
pub mod moves;
pub mod entry_laws;
pub mod writer_laws;
pub mod ops_laws;
pub mod table_laws;
pub mod path_cache;
pub mod path_cache_edge_laws;
pub mod path_cache_laws;
pub mod paths;
pub mod path_text_laws;
pub mod resolve;
pub mod resolve_laws;
pub mod walk_laws;
pub mod coherence_laws;
pub mod paths_kept;
pub mod requests_fit;
pub mod cache_room;
pub mod names;
pub mod listing;
pub mod list_cache;
pub mod committed;
pub mod ensure;
pub mod ensure_laws;
pub mod dir_path_laws;
pub mod finalize;
pub mod finalize_laws;
pub mod plan_laws;
pub mod service;
pub mod handlers;
pub mod service_laws;
pub mod txn_laws;
pub mod call_laws;
pub mod client;
pub mod client_paths;
pub mod client_laws;
pub mod rpc;
pub mod request_laws;
pub mod rpc_laws;
pub mod cache_laws;
pub mod cache_laws_dirs;
pub mod columns;
pub mod buffer;
pub mod buffer_layout;
pub mod buffer_publish;
pub mod buffer_laws;
pub mod basic_laws;
pub mod publish_laws;
pub mod inode_table;
pub mod errno;
pub mod xattrs;
pub mod daemon;
pub mod daemon_ops;
pub mod daemon_config;
pub mod daemon_laws;
pub mod mount_laws;
