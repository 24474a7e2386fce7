//! Picks a random creature record from one of two data backends, resolves
//! its sprite image to bytes, crops the transparent border, and computes the
//! terminal display size. The record selection, locator normalization,
//! bounding-box crop and aspect fit are verified; network and disk transport
//! stay outside the library.

pub mod archive;
pub mod error;
pub mod geometry;
pub mod pipeline;
pub mod record;
pub mod sprite;
