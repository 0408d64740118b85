//! A verified core for mirroring Glowfic boards: a paginated API client
//! modelled as state machines, an idempotent on-disk cache with a
//! fully specified envelope codec, an image interning engine, and the
//! assembly of boards, threads and replies into an ordered continuity.

pub mod api;
pub mod auth;
pub mod cached;
pub mod codec;
pub mod gen;
pub mod intern_images;
pub mod textfmt;
pub mod types;
pub mod utils;

pub use api::GlowficError;
pub use types::{Board, Post, Reply, Thread};
