//! A small binary data format: typed values framed by one-byte type tags,
//! encoded big-endian and terminated by an end-of-package tag, together with
//! the parser that turns such a package back into a tree of values.
pub mod data;
pub mod helper;
pub mod session;
pub mod signature;
pub mod text;
