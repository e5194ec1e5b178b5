//! Recovery of executable images from the memory of a running process,
//! written without any input or output of its own: every step that touches
//! the outside world is described by a [`protocol::Request`] and answered by
//! a [`protocol::Reply`].

pub mod codec;
pub mod dumper;
pub mod protocol;
pub mod text;
pub mod utils;
