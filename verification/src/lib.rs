//! Verified core of the Jelly shell: logs, line editing, command lookup
//! and the small encoders and decoders around them.
#![allow(unused_imports)]

use vstd::prelude::*;

pub mod app;
pub mod cbor;
pub mod columns;
pub mod command;
pub mod datatypes;
pub mod headless;
pub mod network;
pub mod numfmt;
pub mod seqs;
pub mod text;
pub mod tui;
pub mod wire;

verus! {

} // verus!
