//! A multi-call collection of small Unix utilities, built around a verified
//! line-tailing engine.
//!
//! The engine: `lines` models a source as bytes cut into lines; `window`
//! keeps the last lines; `forward` reads a stream front to back; `reverse`
//! scans a seekable source backward in chunks; `follow` turns change
//! notifications into reads of appended bytes; `tail` holds the
//! configuration, the choice of reader and the progress over several
//! sources; `theorems` states what the readers' output is. Reads, watches
//! and printing are the caller's: each reader says what to read next and
//! takes the bytes read.
use vstd::prelude::*;

pub mod bytes;
pub mod err;
pub mod lines;
pub mod pathname;
pub mod platform;
pub mod window;
pub mod follow;
pub mod forward;
pub mod reverse;
pub mod tail;
pub mod text;
pub mod theorems;
pub mod utils;

verus! {

} // verus!
