//! Verified core of an offline image viewer: the binary codec-helper
//! protocol and both ends of its session, catalog and path policy, natural
//! ordering, window geometry clamping, the viewer state machine with its
//! one-time render tokens, and the navigation and command-line policies.
pub mod code;
pub mod error;
pub mod messages;
pub mod model;
pub mod snapshot;
pub mod text;
pub mod format;
pub mod natural;
pub mod catalog;
pub mod policy;
pub mod render_cache;
pub mod viewer;
pub mod protocol;
pub mod helper_client;
pub mod helper_service;
pub mod window;
pub mod navigation;
pub mod cli;
