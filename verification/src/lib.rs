//! Verified core of a media-library poster generator: configuration values,
//! media-server metadata handling, image selection, pixel-level layout helpers
//! and the decisions that drive a poster task.

pub mod card_layout;
pub mod decimal;
pub mod media;
pub mod media_server;
pub mod outside;
pub mod output;
pub mod poster_config;
pub mod resolution;
pub mod raster;
pub mod runner;
pub mod selection;
pub mod theme;
pub mod wrap;
pub mod text;
