//! Two-phase, hot-reload aware asset loading for `ggez` on top of
//! `assets_manager`: the decisions of the layer are verified here, the host
//! calls live in the companion application crate.

pub mod assets;
pub mod error;
pub mod layers;
pub mod source;
pub mod storage;
