//! A sandboxed filesystem tool server: path containment against an
//! allow-list, tool descriptors, request routing and line framing.
pub mod dispatch;
pub mod filesystem;
pub mod filesystem_server;
pub mod framing;
pub mod paths;
pub mod search;
pub mod tools;
pub mod types;
