//! Rendering of Tetris playfield pages into an indexed-colour animation.
//!
//! A sequence of board pages is measured into one shared canvas, each page
//! is rasterised into a buffer of palette indices, and the buffers are
//! framed as an endlessly looping GIF:
//!
//! - `board` holds the pages and says how high each reaches and which cells
//!   its active piece occupies;
//! - `canvas` derives the one geometry that every frame shares;
//! - `raster` draws a page on that canvas, `render` frames the drawings;
//! - `encoder` is the boundary to the `gif` crate, `pattern` the one to the
//!   `regex` crate;
//! - `laws` states what holds of every rendering.
//!
//! Around the renderer stand the rules of the bot that uses it: `options`
//! reads the playback speed, `message` finds board data in a message,
//! `queue` and `analysis` prepare a page for a move search, `moderation`
//! flags unwanted messages, and `log` and `text` write the lines of the
//! message log.

pub mod analysis;
pub mod board;
pub mod canvas;
pub mod encoder;
pub mod laws;
pub mod log;
pub mod message;
pub mod moderation;
pub mod options;
pub mod pattern;
pub mod queue;
pub mod raster;
pub mod render;
pub mod text;
