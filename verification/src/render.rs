//! Commands written out as text, for logs and diagnostics.

use crate::command::{AnsiType, CSIType, Command, CsiOp, OSCType, OscOp, naturals};
use crate::number::{decimal_digits, decimal_text};
use vstd::prelude::*;
use vstd::string::*;

verus! {

/// A string as Rust's `Debug` writes it: between double quotes, with the
/// characters that do not print written as escapes.
pub uninterp spec fn quoted_text(text: Seq<char>) -> Seq<char>;

/// Writes `text` with `format!("{:?}", text)`, which is `Debug` for `str`.
///
/// Believed, not proved: the result is a function of the characters of
/// `text` alone.
#[verifier::external_body]
fn quoted(text: &str) -> (out: String)
    ensures
        out@ == quoted_text(text@),
{
    format!("{:?}", text)
}

/// The numbers in base ten, with `, ` between them.
pub open spec fn listed(numbers: Seq<nat>) -> Seq<char>
    decreases numbers.len(),
{
    if numbers.len() == 0 {
        Seq::empty()
    } else if numbers.len() == 1 {
        decimal_digits(numbers[0])
    } else {
        listed(numbers.drop_last()) + ", "@ + decimal_digits(numbers.last())
    }
}

/// A name, then ` { n: ` and a number.
pub open spec fn with_number(name: Seq<char>, n: nat) -> Seq<char> {
    name + " { n: "@ + decimal_digits(n)
}

/// A name, then ` { n: `, a number, `, m: ` and a second number.
pub open spec fn with_two_numbers(name: Seq<char>, n: nat, m: nat) -> Seq<char> {
    with_number(name, n) + ", m: "@ + decimal_digits(m)
}

/// A control-sequence operation as text, up to the closing brace.
pub open spec fn csi_text(op: CsiOp) -> Seq<char> {
    match op {
        CsiOp::CUU(n) => with_number("CUU"@, n),
        CsiOp::CUD(n) => with_number("CUD"@, n),
        CsiOp::CUF(n) => with_number("CUF"@, n),
        CsiOp::CUB(n) => with_number("CUB"@, n),
        CsiOp::CNL(n) => with_number("CNL"@, n),
        CsiOp::CPL(n) => with_number("CPL"@, n),
        CsiOp::CHA(n) => with_number("CHA"@, n),
        CsiOp::CVA(n) => with_number("CVA"@, n),
        CsiOp::CUP(n, m) => with_two_numbers("CUP"@, n, m),
        CsiOp::ED(n) => with_number("ED"@, n),
        CsiOp::EL(n) => with_number("EL"@, n),
        CsiOp::SU(n) => with_number("SU"@, n),
        CsiOp::SD(n) => with_number("SD"@, n),
        CsiOp::IL(n) => with_number("IL"@, n),
        CsiOp::HVP(n, m) => with_two_numbers("HVP"@, n, m),
        CsiOp::SGR(n, rest) => with_number("SGR"@, n) + ", m: ["@ + listed(rest) + "]"@,
        CsiOp::DECTCEM(show) => if show {
            "DECTCEM { h: true"@
        } else {
            "DECTCEM { h: false"@
        },
        CsiOp::DECSTBM(n, m) => with_two_numbers("DECSTBM"@, n, m),
        CsiOp::DECSLRM(n, m) => with_two_numbers("DECSLRM"@, n, m),
        CsiOp::Unknown(note) => "CSI { Unknown: "@ + quoted_text(note),
    }
}

/// An operating-system command as text, up to the closing brace.
pub open spec fn osc_text(op: OscOp) -> Seq<char> {
    match op {
        OscOp::WindowTitle(title) => "OSC { WindowTitle: "@ + quoted_text(title),
        OscOp::Unknown(note) => "OSC { Unknown: "@ + quoted_text(note),
    }
}

/// A command as text.
pub open spec fn command_text(command: Command) -> Seq<char> {
    match command {
        Command::Text(text) => "Text("@ + text + ")"@,
        Command::SS2 => "SS2"@,
        Command::SS3 => "SS3"@,
        Command::DCS => "DCS"@,
        Command::CSI(op) => csi_text(op) + " }"@,
        Command::ST => "ST"@,
        Command::OSC(op) => osc_text(op) + " }"@,
        Command::RIS => "RIS"@,
        Command::SOS => "SOS"@,
        Command::PM => "PM"@,
        Command::APC => "APC"@,
        Command::Incomplete => "Incomplete"@,
        Command::Unknown(note) => "Unknown: "@ + quoted_text(note),
    }
}

fn named_number(name: &str, n: usize) -> (out: String)
    ensures
        out@ == with_number(name@, n as nat),
{
    let digits = decimal_text(n);
    String::from_str(name).concat(" { n: ").concat(digits.as_str())
}

fn named_numbers(name: &str, n: usize, m: usize) -> (out: String)
    ensures
        out@ == with_two_numbers(name@, n as nat, m as nat),
{
    let digits = decimal_text(m);
    named_number(name, n).concat(", m: ").concat(digits.as_str())
}

fn list_text(numbers: &Vec<usize>) -> (out: String)
    ensures
        out@ == listed(naturals(numbers@)),
{
    let ghost all = naturals(numbers@);
    let mut out = String::new();
    let mut i: usize = 0;
    while i < numbers.len()
        invariant
            i <= numbers.len(),
            all == naturals(numbers@),
            out@ == listed(all.take(i as int)),
        decreases numbers.len() - i,
    {
        assert(all.take(i + 1).drop_last() =~= all.take(i as int));
        assert(all.take(i + 1).last() == numbers[i as int] as nat);
        if i > 0 {
            out.append(", ");
        }
        let digits = decimal_text(numbers[i]);
        out.append(digits.as_str());
        assert(out@ =~= listed(all.take(i + 1)));
        i = i + 1;
    }
    assert(all.take(i as int) =~= all);
    out
}

impl CSIType {
    /// The operation as text, up to the closing brace.
    fn text(&self) -> (out: String)
        ensures
            out@ == csi_text(self@),
    {
        match self {
            CSIType::CUU(n) => named_number("CUU", *n),
            CSIType::CUD(n) => named_number("CUD", *n),
            CSIType::CUF(n) => named_number("CUF", *n),
            CSIType::CUB(n) => named_number("CUB", *n),
            CSIType::CNL(n) => named_number("CNL", *n),
            CSIType::CPL(n) => named_number("CPL", *n),
            CSIType::CHA(n) => named_number("CHA", *n),
            CSIType::CVA(n) => named_number("CVA", *n),
            CSIType::CUP(n, m) => named_numbers("CUP", *n, *m),
            CSIType::ED(n) => named_number("ED", *n),
            CSIType::EL(n) => named_number("EL", *n),
            CSIType::SU(n) => named_number("SU", *n),
            CSIType::SD(n) => named_number("SD", *n),
            CSIType::IL(n) => named_number("IL", *n),
            CSIType::HVP(n, m) => named_numbers("HVP", *n, *m),
            CSIType::SGR(n, rest) => {
                let list = list_text(rest);
                named_number("SGR", *n).concat(", m: [").concat(list.as_str()).concat("]")
            },
            CSIType::DECTCEM(show) => {
                if *show {
                    String::from_str("DECTCEM { h: true")
                } else {
                    String::from_str("DECTCEM { h: false")
                }
            },
            CSIType::DECSTBM(n, m) => named_numbers("DECSTBM", *n, *m),
            CSIType::DECSLRM(n, m) => named_numbers("DECSLRM", *n, *m),
            CSIType::Unknown(note) => {
                let shown = quoted(note.as_str());
                String::from_str("CSI { Unknown: ").concat(shown.as_str())
            },
        }
    }
}

impl OSCType {
    /// The command as text, up to the closing brace.
    fn text(&self) -> (out: String)
        ensures
            out@ == osc_text(self@),
    {
        match self {
            OSCType::WindowTitle(title) => {
                let shown = quoted(title.as_str());
                String::from_str("OSC { WindowTitle: ").concat(shown.as_str())
            },
            OSCType::Unknown(note) => {
                let shown = quoted(note.as_str());
                String::from_str("OSC { Unknown: ").concat(shown.as_str())
            },
        }
    }
}

impl AnsiType {
    /// The command as text: its name, and what it carries between braces.
    /// Diagnostics and titles are written as `Debug` writes a string.
    pub fn to_string(&self) -> (out: String)
        ensures
            out@ == command_text(self@),
    {
        match self {
            AnsiType::Text(text) => String::from_str("Text(").concat(text.as_str()).concat(")"),
            AnsiType::SS2 => String::from_str("SS2"),
            AnsiType::SS3 => String::from_str("SS3"),
            AnsiType::DCS => String::from_str("DCS"),
            AnsiType::CSI { kind } => kind.text().concat(" }"),
            AnsiType::ST => String::from_str("ST"),
            AnsiType::OSC { kind } => kind.text().concat(" }"),
            AnsiType::RIS => String::from_str("RIS"),
            AnsiType::SOS => String::from_str("SOS"),
            AnsiType::PM => String::from_str("PM"),
            AnsiType::APC => String::from_str("APC"),
            AnsiType::Incomplete => String::from_str("Incomplete"),
            AnsiType::Unknown(note) => {
                let shown = quoted(note.as_str());
                String::from_str("Unknown: ").concat(shown.as_str())
            },
        }
    }
}

} // verus!
