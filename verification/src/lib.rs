//! An incremental decoder for ANSI/VT terminal escape sequences.
//!
//! Text is scanned one grapheme cluster at a time by a small state machine
//! that emits plain-text runs and decoded control sequences. The machine is
//! defined once, as a transition function, and is driven either over a whole
//! snippet ([`escape`]) or across arbitrarily fragmented input
//! ([`AnsiEscaper`]).

pub mod command;
pub mod csi;
pub mod escaper;
pub mod grapheme;
pub mod laws;
pub mod machine;
pub mod number;
pub mod osc;
pub mod render;
pub mod sequence;
pub mod stream;
pub mod term;

pub use command::{AnsiType, CSIType, OSCType};
pub use escaper::{
    escape, escape_graphemes, read_until_escape_char, text_before_escape, AnsiEscaper, ToAnsi,
};
pub use term::{Term, TermInterface};
