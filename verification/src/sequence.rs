//! The kinds of escape sequence: which character introduces which, which
//! characters a sequence of each kind may hold, and what a finished sequence
//! amounts to.

use crate::command::{AnsiType, CSIType, Command, CsiOp, OSCType, OscOp};
use crate::csi::{decode_csi, decode_csi_grapheme};
use crate::grapheme::{char_text, cluster_char, single_char};
use crate::osc::decode_osc;
use std::ops::Range;
use vstd::prelude::*;
use vstd::std_specs::convert::FromSpecImpl;
use vstd::string::*;

verus! {

/// The diagnostic for a character that introduces no sequence.
pub open spec fn unknown_introducer_note(introducer: Seq<char>) -> Seq<char> {
    "Unknown ansi escape char: "@ + introducer
}

/// The kind of sequence that the grapheme after `ESC` introduces. A control
/// sequence and an operating-system command start out with no operation
/// decoded yet, which shows as an unknown one with an empty diagnostic.
pub open spec fn classify(introducer: Seq<char>) -> Command {
    match single_char(introducer) {
        Some('N') => Command::SS2,
        Some('O') => Command::SS3,
        Some('P') => Command::DCS,
        Some('[') => Command::CSI(CsiOp::Unknown(Seq::empty())),
        Some('\\') => Command::ST,
        Some(']') => Command::OSC(OscOp::Unknown(Seq::empty())),
        Some('X') => Command::SOS,
        Some('*') => Command::PM,
        Some('_') => Command::APC,
        Some('c') => Command::RIS,
        _ => Command::Unknown(unknown_introducer_note(introducer)),
    }
}

/// What a sequence of kind `kind` amounts to once its final grapheme `last`
/// and its parameter fields are known. Only control sequences and
/// operating-system commands carry a payload; every other kind of sequence
/// comes down to a string terminator. Text and unknown input stay as they are.
pub open spec fn finish(last: Seq<char>, kind: Command, fields: Seq<Seq<char>>) -> Command {
    match kind {
        Command::CSI(_) => Command::CSI(decode_csi(last, fields)),
        Command::OSC(_) => Command::OSC(decode_osc(fields)),
        Command::Unknown(note) => Command::Unknown(note),
        Command::Text(text) => Command::Text(text),
        _ => Command::ST,
    }
}

/// As [`finish`], for a final grapheme that need not be a single byte.
pub open spec fn finish_grapheme(last: Seq<char>, kind: Command, fields: Seq<Seq<char>>) -> Command {
    match kind {
        Command::CSI(_) => Command::CSI(decode_csi_grapheme(last, fields)),
        Command::OSC(_) => Command::OSC(decode_osc(fields)),
        Command::Unknown(note) => Command::Unknown(note),
        Command::Text(text) => Command::Text(text),
        _ => Command::ST,
    }
}

/// The characters that may stand inside a sequence of kind `kind`, as a
/// half-open range of code points: `0x20..0x40` for a control sequence,
/// `0x20..0x80` for an operating-system command, and none, written `1..0`,
/// for every other kind.
pub open spec fn parameter_bounds(kind: Command) -> (u32, u32) {
    match kind {
        Command::CSI(_) => (0x20, 0x40),
        Command::OSC(_) => (0x20, 0x80),
        _ => (1, 0),
    }
}

/// The characters that end a sequence of kind `kind`, as a half-open range of
/// code points: `0x40..0x80` for a control sequence, the bell character alone
/// for an operating-system command, and none, written `1..0`, for every other
/// kind.
pub open spec fn final_bounds(kind: Command) -> (u32, u32) {
    match kind {
        Command::CSI(_) => (0x40, 0x80),
        Command::OSC(_) => (0x07, 0x08),
        _ => (1, 0),
    }
}

/// Whether the code point of `c` lies in the half-open range `bounds`.
pub open spec fn within(c: char, bounds: (u32, u32)) -> bool {
    bounds.0 <= c as u32 && (c as u32) < bounds.1
}

fn unknown_introducer(introducer: &str) -> (kind: AnsiType)
    ensures
        kind@ == Command::Unknown(unknown_introducer_note(introducer@)),
{
    AnsiType::Unknown(String::from_str("Unknown ansi escape char: ").concat(introducer))
}

impl From<&str> for AnsiType {
    /// The kind of sequence that the grapheme after `ESC` introduces.
    fn from(gr: &str) -> (kind: Self)
        ensures
            kind@ == classify(gr@),
    {
        match cluster_char(gr) {
            Some('N') => AnsiType::SS2,
            Some('O') => AnsiType::SS3,
            Some('P') => AnsiType::DCS,
            Some('[') => AnsiType::CSI { kind: CSIType::Unknown(String::new()) },
            Some('\\') => AnsiType::ST,
            Some(']') => AnsiType::OSC { kind: OSCType::Unknown(String::new()) },
            Some('X') => AnsiType::SOS,
            Some('*') => AnsiType::PM,
            Some('_') => AnsiType::APC,
            Some('c') => AnsiType::RIS,
            _ => unknown_introducer(gr),
        }
    }
}

impl FromSpecImpl<&str> for AnsiType {
    open spec fn obeys_from_spec() -> bool {
        false
    }

    open spec fn from_spec(gr: &str) -> Self {
        AnsiType::Incomplete
    }
}

impl From<char> for AnsiType {
    /// The kind of sequence that the character after `ESC` introduces.
    fn from(ch: char) -> (kind: Self)
        ensures
            kind@ == classify(seq![ch]),
    {
        let introducer = char_text(ch);
        <AnsiType as From<&str>>::from(introducer.as_str())
    }
}

impl FromSpecImpl<char> for AnsiType {
    open spec fn obeys_from_spec() -> bool {
        false
    }

    open spec fn from_spec(ch: char) -> Self {
        AnsiType::Incomplete
    }
}

impl AnsiType {
    /// Completes a sequence of kind `t` with its final grapheme and its
    /// parameter fields.
    pub fn finish(gr: &str, t: AnsiType, args: Vec<String>) -> (done: AnsiType)
        ensures
            done@ == finish(gr@, t@, args.deep_view()),
    {
        match t {
            AnsiType::CSI { .. } => AnsiType::CSI { kind: CSIType::from(gr, args) },
            AnsiType::OSC { .. } => AnsiType::OSC { kind: OSCType::from(gr, args) },
            AnsiType::Unknown(note) => AnsiType::Unknown(note),
            AnsiType::Text(text) => AnsiType::Text(text),
            _ => AnsiType::ST,
        }
    }

    /// Completes a sequence of kind `t` whose final grapheme may be any
    /// grapheme.
    pub fn finish_grapheme(gr: &str, t: AnsiType, args: Vec<String>) -> (done: AnsiType)
        ensures
            done@ == finish_grapheme(gr@, t@, args.deep_view()),
    {
        match t {
            AnsiType::CSI { .. } => AnsiType::CSI { kind: CSIType::from_grapheme(gr, args) },
            AnsiType::OSC { .. } => AnsiType::OSC { kind: OSCType::from_grapheme(gr, args) },
            AnsiType::Unknown(note) => AnsiType::Unknown(note),
            AnsiType::Text(text) => AnsiType::Text(text),
            _ => AnsiType::ST,
        }
    }

    /// The characters that a sequence of kind `t` may hold, then those that
    /// end it, each as a half-open range of code points.
    pub fn valid_char_ranges(t: &AnsiType) -> (ranges: (Range<u32>, Range<u32>))
        ensures
            (ranges.0.start, ranges.0.end) == parameter_bounds(t@),
            (ranges.1.start, ranges.1.end) == final_bounds(t@),
    {
        match t {
            AnsiType::CSI { .. } => (0x20..0x40, 0x40..0x80),
            AnsiType::OSC { .. } => (0x20..0x80, 0x07..0x08),
            _ => (1..0, 1..0),
        }
    }
}

} // verus!
