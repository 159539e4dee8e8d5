//! The commands that decoding produces.
//!
//! Each executable type has a mathematical twin, reached with `@`, in which
//! strings are sequences of code points and numbers are naturals. Contracts
//! are stated over the twins.

use vstd::prelude::*;
use vstd::string::*;

verus! {

/// An operating-system command, as a mathematical value.
pub enum OscOp {
    WindowTitle(Seq<char>),
    Unknown(Seq<char>),
}

/// A control-sequence operation, as a mathematical value.
pub enum CsiOp {
    CUU(nat),
    CUD(nat),
    CUF(nat),
    CUB(nat),
    CNL(nat),
    CPL(nat),
    CHA(nat),
    CVA(nat),
    CUP(nat, nat),
    ED(nat),
    EL(nat),
    SU(nat),
    SD(nat),
    IL(nat),
    HVP(nat, nat),
    SGR(nat, Seq<nat>),
    DECTCEM(bool),
    DECSTBM(nat, nat),
    DECSLRM(nat, nat),
    Unknown(Seq<char>),
}

/// One decoded unit of input, as a mathematical value.
pub enum Command {
    Text(Seq<char>),
    SS2,
    SS3,
    DCS,
    CSI(CsiOp),
    ST,
    OSC(OscOp),
    RIS,
    SOS,
    PM,
    APC,
    Incomplete,
    Unknown(Seq<char>),
}

/// An operating-system command.
#[derive(Clone, Debug, PartialEq)]
pub enum OSCType {
    /// Set the title of the terminal window.
    WindowTitle(String),
    /// Any other command, with a diagnostic.
    Unknown(String),
}

/// A control-sequence operation.
#[derive(Clone, Debug, PartialEq)]
pub enum CSIType {
    /// Cursor up.
    CUU(usize),
    /// Cursor down.
    CUD(usize),
    /// Cursor forward.
    CUF(usize),
    /// Cursor back.
    CUB(usize),
    /// Cursor to the start of a following line.
    CNL(usize),
    /// Cursor to the start of a preceding line.
    CPL(usize),
    /// Cursor to a column.
    CHA(usize),
    /// Cursor to a row.
    CVA(usize),
    /// Cursor to a row and a column.
    CUP(usize, usize),
    /// Erase in display.
    ED(usize),
    /// Erase in line.
    EL(usize),
    /// Scroll up.
    SU(usize),
    /// Scroll down.
    SD(usize),
    /// Insert lines.
    IL(usize),
    /// Horizontal and vertical position.
    HVP(usize, usize),
    /// Select graphics rendition: the first code, then the codes after it.
    SGR(usize, Vec<usize>),
    /// Show or hide the cursor.
    DECTCEM(bool),
    /// Set the top and bottom margins.
    DECSTBM(usize, usize),
    /// Set the left and right margins.
    DECSLRM(usize, usize),
    /// Any other operation, with a diagnostic.
    Unknown(String),
}

/// One decoded unit of input.
#[derive(Clone, Debug, PartialEq)]
pub enum AnsiType {
    /// A run of plain text.
    Text(String),
    /// Single shift two.
    SS2,
    /// Single shift three.
    SS3,
    /// Device control string.
    DCS,
    /// Control sequence.
    CSI { kind: CSIType },
    /// String terminator.
    ST,
    /// Operating-system command.
    OSC { kind: OSCType },
    /// Reset to initial state.
    RIS,
    /// Start of string.
    SOS,
    /// Privacy message.
    PM,
    /// Application program command.
    APC,
    /// The input so far is a proper beginning of a sequence: more is needed.
    Incomplete,
    /// A sequence that was read to its end and not recognised, with a
    /// diagnostic.
    Unknown(String),
}

/// The naturals that a sequence of machine integers holds.
pub open spec fn naturals(values: Seq<usize>) -> Seq<nat> {
    Seq::new(values.len(), |i: int| values[i] as nat)
}

impl View for OSCType {
    type V = OscOp;

    open spec fn view(&self) -> OscOp {
        match self {
            OSCType::WindowTitle(title) => OscOp::WindowTitle(title@),
            OSCType::Unknown(note) => OscOp::Unknown(note@),
        }
    }
}

impl View for CSIType {
    type V = CsiOp;

    open spec fn view(&self) -> CsiOp {
        match self {
            CSIType::CUU(n) => CsiOp::CUU(*n as nat),
            CSIType::CUD(n) => CsiOp::CUD(*n as nat),
            CSIType::CUF(n) => CsiOp::CUF(*n as nat),
            CSIType::CUB(n) => CsiOp::CUB(*n as nat),
            CSIType::CNL(n) => CsiOp::CNL(*n as nat),
            CSIType::CPL(n) => CsiOp::CPL(*n as nat),
            CSIType::CHA(n) => CsiOp::CHA(*n as nat),
            CSIType::CVA(n) => CsiOp::CVA(*n as nat),
            CSIType::CUP(n, m) => CsiOp::CUP(*n as nat, *m as nat),
            CSIType::ED(n) => CsiOp::ED(*n as nat),
            CSIType::EL(n) => CsiOp::EL(*n as nat),
            CSIType::SU(n) => CsiOp::SU(*n as nat),
            CSIType::SD(n) => CsiOp::SD(*n as nat),
            CSIType::IL(n) => CsiOp::IL(*n as nat),
            CSIType::HVP(n, m) => CsiOp::HVP(*n as nat, *m as nat),
            CSIType::SGR(n, rest) => CsiOp::SGR(*n as nat, naturals(rest@)),
            CSIType::DECTCEM(show) => CsiOp::DECTCEM(*show),
            CSIType::DECSTBM(n, m) => CsiOp::DECSTBM(*n as nat, *m as nat),
            CSIType::DECSLRM(n, m) => CsiOp::DECSLRM(*n as nat, *m as nat),
            CSIType::Unknown(note) => CsiOp::Unknown(note@),
        }
    }
}

impl View for AnsiType {
    type V = Command;

    open spec fn view(&self) -> Command {
        match self {
            AnsiType::Text(text) => Command::Text(text@),
            AnsiType::SS2 => Command::SS2,
            AnsiType::SS3 => Command::SS3,
            AnsiType::DCS => Command::DCS,
            AnsiType::CSI { kind } => Command::CSI(kind@),
            AnsiType::ST => Command::ST,
            AnsiType::OSC { kind } => Command::OSC(kind@),
            AnsiType::RIS => Command::RIS,
            AnsiType::SOS => Command::SOS,
            AnsiType::PM => Command::PM,
            AnsiType::APC => Command::APC,
            AnsiType::Incomplete => Command::Incomplete,
            AnsiType::Unknown(note) => Command::Unknown(note@),
        }
    }
}

} // verus!
