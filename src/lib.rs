//! Host operating system detection: the version and bitness of the host are
//! read from the text that platform utilities print, and classified into
//! ordered, comparable values.
//!
//! `text` holds the character-level helpers, `semantic` reads dotted numeric
//! versions, `matcher` finds labelled values in command output, `model` holds
//! the values a probe produces and their order, and `macos` assembles them
//! from the output of `sw_vers` and `getconf`.
pub mod text;
pub mod semantic;
pub mod matcher;
pub mod model;
pub mod macos;

pub use model::{Bitness, Info, Type, Version};
