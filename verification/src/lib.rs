//! Incremental layout-caching and viewport engine for a terminal chat
//! transcript.
//!
//! The crate keeps a continuously growing, streaming conversation scrollable
//! inside a fixed-size character grid: per-block render caches, per-message
//! height aggregation with a short-circuit invalidation scan, a cumulative
//! height index for scroll math, viewport culling, a smooth-scroll
//! controller, and a synchronizer that mirrors live subprocess output into
//! tool-call blocks with an append/replace protocol. Presentation (drawing
//! styled lines into a screen buffer) is left to the caller.

pub mod autocomplete;
pub mod block;
pub mod cache;
pub mod footer;
pub mod input;
pub mod input_view;
pub mod message;
pub mod rect;
pub mod scroll;
pub mod strutil;
pub mod terminal;
pub mod theme;
pub mod transcript;
pub mod version;

pub use cache::BlockCache;
