//! Chess notation for puzzle studies: a position-string codec, a move
//! executor, an origin resolver, an encoder from coordinate moves to verbose
//! notation tokens, a decoder from standard movetext to a final position, and
//! the chapter text and staging rules built on them.

pub mod error;
pub mod position;
pub mod text;
pub mod executor;
pub mod resolver;
pub mod codec;
pub mod encoder;
pub mod decoder;
pub mod format;
pub mod puzzle;
pub mod staging;
pub mod study;
pub mod termcolors;
