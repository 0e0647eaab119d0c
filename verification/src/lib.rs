//! Verified core of an image-generation workbench: provider settings,
//! generated-image history and the HTTP request decisions around them.
pub mod text;
pub mod storage;
pub mod mcp;
pub mod api;
pub mod workbench;
pub mod laws;
