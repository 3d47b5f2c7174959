//! Verified core of the tui-gpu terminal renderer: the shared-memory feed
//! protocols, key and layout handling, and the pure pieces of ANSI rendering.

pub mod ansi;
pub mod atlas;
pub mod bytes;
pub mod config;
pub mod feed;
pub mod fps;
pub mod gpu;
pub mod input;
pub mod keys;
pub mod layout;
pub mod mouse;
pub mod runtime;
pub mod screen;
pub mod template;
pub mod term_keys;
pub mod text;
pub mod youtube;
