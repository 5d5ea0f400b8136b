//! A lightweight `printf`-family formatter: its instances, their outputs, and
//! the way that printed text takes.
//!
//! Initialization binds an instance ([`LwprintfObj`]) to one output
//! ([`CustomOutPut`]). Text is then printed through that output one character
//! at a time, or written into a sized buffer as a zero-terminated string.
//! Expanding a format string with its arguments is the work of the formatting
//! engine that this library stands beside: the printing functions here take
//! the expanded text.

pub mod object;
pub mod output;
pub mod print;

pub use object::{lwprintf_init, lwprintf_init_ex, out_fn, Lwprintf, LwprintfObj};
pub use output::CustomOutPut;
pub use print::{lwprintf_vprintf_ex_rust, lwprintf_vsnprintf_ex_rust, SIZE_MAX};
