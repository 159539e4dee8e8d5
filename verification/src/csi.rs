//! Decoding of control sequences: from the final character and the parameter
//! fields to an operation.

use crate::command::{CSIType, CsiOp, naturals};
use crate::grapheme::{cluster_char, is_single_byte, single_char};
use crate::number::{
    decimal_digits, decimal_text, number_or, parse_field, parse_number, parse_number_after,
};
use vstd::prelude::*;
use vstd::string::*;

verus! {

/// The number of the private mode that shows and hides the cursor.
pub const CURSOR_MODE: usize = 25;

/// Whether the fields belong to a private-mode sequence: the first one begins
/// with `?`.
pub open spec fn is_private(fields: Seq<Seq<char>>) -> bool {
    fields.len() > 0 && fields[0].len() > 0 && fields[0][0] == '?'
}

/// The first field, without the `?` of a private-mode sequence. Where there
/// is no field, the empty one.
pub open spec fn leading_field(fields: Seq<Seq<char>>) -> Seq<char> {
    if fields.len() == 0 {
        Seq::empty()
    } else if is_private(fields) {
        fields[0].skip(1)
    } else {
        fields[0]
    }
}

/// The second parameter: the number of the second field, and 1 where that
/// field is missing or denotes none.
pub open spec fn second_number(fields: Seq<Seq<char>>) -> nat {
    if fields.len() > 1 {
        number_or(fields[1], 1)
    } else {
        1
    }
}

/// The rendition codes after the first: one for each field after the first,
/// in order, 0 where a field denotes no number.
pub open spec fn trailing_codes(fields: Seq<Seq<char>>) -> Seq<nat> {
    Seq::new(
        if fields.len() > 0 {
            (fields.len() - 1) as nat
        } else {
            0
        },
        |i: int| number_or(fields[i + 1], 0),
    )
}

/// The diagnostic for a final character that selects no operation.
pub open spec fn unknown_csi_note(last: Seq<char>) -> Seq<char> {
    "Unknown CSI command: "@ + last
}

/// The diagnostic for a private mode other than the cursor's.
pub open spec fn unknown_mode_note(mode: nat) -> Seq<char> {
    "Unknown Private CSI command: "@ + decimal_digits(mode)
}

/// The diagnostic for a final character that the cursor's private mode does
/// not know.
pub open spec fn unknown_cursor_mode_note(last: Seq<char>) -> Seq<char> {
    "Unknown Private CSI command: 25"@ + last
}

/// The operation of an ordinary sequence.
///
/// The first parameter is the number of the first field, or `1` where that
/// denotes none; for erasing and for graphics rendition it is `0` then. The
/// final character `f` places the cursor as `H` does and gives the same
/// operation.
pub open spec fn decode_plain(last: Seq<char>, fields: Seq<Seq<char>>) -> CsiOp {
    let n = number_or(leading_field(fields), 1);
    let z = number_or(leading_field(fields), 0);
    let m = second_number(fields);
    match single_char(last) {
        Some('A') => CsiOp::CUU(n),
        Some('B') => CsiOp::CUD(n),
        Some('C') => CsiOp::CUF(n),
        Some('D') => CsiOp::CUB(n),
        Some('E') => CsiOp::CNL(n),
        Some('F') => CsiOp::CPL(n),
        Some('G') => CsiOp::CHA(n),
        Some('d') => CsiOp::CVA(n),
        Some('H') => CsiOp::CUP(n, m),
        Some('J') => CsiOp::ED(z),
        Some('K') => CsiOp::EL(z),
        Some('L') => CsiOp::IL(n),
        Some('S') => CsiOp::SU(n),
        Some('T') => CsiOp::SD(n),
        Some('f') => CsiOp::CUP(n, m),
        Some('m') => CsiOp::SGR(z, trailing_codes(fields)),
        Some('r') => CsiOp::DECSTBM(n, m),
        Some('s') => CsiOp::DECSLRM(n, m),
        _ => CsiOp::Unknown(unknown_csi_note(last)),
    }
}

/// The operation of a private-mode sequence: only mode 25 with `h` or `l` is
/// one.
pub open spec fn decode_private(last: Seq<char>, fields: Seq<Seq<char>>) -> CsiOp {
    let mode = number_or(leading_field(fields), 1);
    if mode == CURSOR_MODE {
        match single_char(last) {
            Some('h') => CsiOp::DECTCEM(true),
            Some('l') => CsiOp::DECTCEM(false),
            _ => CsiOp::Unknown(unknown_cursor_mode_note(last)),
        }
    } else {
        CsiOp::Unknown(unknown_mode_note(mode))
    }
}

/// The operation that a final character and the parameter fields select.
pub open spec fn decode_csi(last: Seq<char>, fields: Seq<Seq<char>>) -> CsiOp {
    if is_private(fields) {
        decode_private(last, fields)
    } else {
        decode_plain(last, fields)
    }
}

/// As [`decode_csi`], for a final grapheme that need not be one byte long:
/// one of any other length selects no operation.
pub open spec fn decode_csi_grapheme(last: Seq<char>, fields: Seq<Seq<char>>) -> CsiOp {
    if is_single_byte(last) {
        decode_csi(last, fields)
    } else {
        CsiOp::Unknown(unknown_csi_note(last))
    }
}

fn number_or_default(field: &str, fallback: usize) -> (n: usize)
    ensures
        n == number_or(field@, fallback as nat),
{
    match parse_field(field) {
        Some(n) => n,
        None => fallback,
    }
}

fn unknown_csi(last: &str) -> (op: CSIType)
    ensures
        op@ == CsiOp::Unknown(unknown_csi_note(last@)),
{
    CSIType::Unknown(String::from_str("Unknown CSI command: ").concat(last))
}

fn rendition_codes(args: &Vec<String>) -> (codes: Vec<usize>)
    ensures
        naturals(codes@) == trailing_codes(args.deep_view()),
{
    let mut codes: Vec<usize> = Vec::new();
    let mut i: usize = 1;
    while i < args.len()
        invariant
            1 <= i,
            args.len() > 0 ==> i <= args.len(),
            args.len() > 0 ==> codes.len() == i - 1,
            args.len() == 0 ==> codes.len() == 0,
            forall|k: int|
                0 <= k < codes.len() ==> codes[k] as nat == number_or(
                    #[trigger] args.deep_view()[k + 1],
                    0,
                ),
        decreases args.len() - i,
    {
        assert(args.deep_view()[i as int] == args[i as int]@);
        let code = number_or_default(args[i].as_str(), 0);
        codes.push(code);
        i = i + 1;
    }
    assert(naturals(codes@) =~= trailing_codes(args.deep_view()));
    codes
}

impl CSIType {
    /// Decodes a control sequence from its final grapheme and its parameter
    /// fields, which may be none.
    pub fn from(gr: &str, args: Vec<String>) -> (op: CSIType)
        ensures
            op@ == decode_csi(gr@, args.deep_view()),
    {
        let ghost fields = args.deep_view();
        let mut private = false;
        let mut leading: Option<usize> = None;
        if args.len() > 0 {
            assert(fields[0] == args[0]@);
            let first = args[0].as_str();
            if !first.is_empty() && first.get_char(0) == '?' {
                private = true;
                leading = parse_number_after(first, 1);
            } else {
                assert(first@.skip(0) =~= first@);
                leading = parse_number_after(first, 0);
            }
        } else {
            assert(parse_number(Seq::<char>::empty()) is None);
        }
        assert(private == is_private(fields));
        assert(leading matches Some(v) ==> parse_number(leading_field(fields)) == Some(v as nat));
        assert(leading is None ==> parse_number(leading_field(fields)) is None);
        let n: usize = match leading {
            Some(v) => v,
            None => 1,
        };
        let z: usize = match leading {
            Some(v) => v,
            None => 0,
        };
        let mut m: usize = 1;
        if args.len() > 1 {
            assert(fields[1] == args[1]@);
            m = number_or_default(args[1].as_str(), 1);
        }
        let last = cluster_char(gr);
        if private {
            if n == CURSOR_MODE {
                match last {
                    Some('h') => CSIType::DECTCEM(true),
                    Some('l') => CSIType::DECTCEM(false),
                    _ => CSIType::Unknown(
                        String::from_str("Unknown Private CSI command: 25").concat(gr),
                    ),
                }
            } else {
                let digits = decimal_text(n);
                CSIType::Unknown(
                    String::from_str("Unknown Private CSI command: ").concat(digits.as_str()),
                )
            }
        } else {
            match last {
                Some('A') => CSIType::CUU(n),
                Some('B') => CSIType::CUD(n),
                Some('C') => CSIType::CUF(n),
                Some('D') => CSIType::CUB(n),
                Some('E') => CSIType::CNL(n),
                Some('F') => CSIType::CPL(n),
                Some('G') => CSIType::CHA(n),
                Some('d') => CSIType::CVA(n),
                Some('H') => CSIType::CUP(n, m),
                Some('J') => CSIType::ED(z),
                Some('K') => CSIType::EL(z),
                Some('L') => CSIType::IL(n),
                Some('S') => CSIType::SU(n),
                Some('T') => CSIType::SD(n),
                Some('f') => CSIType::CUP(n, m),
                Some('m') => CSIType::SGR(z, rendition_codes(&args)),
                Some('r') => CSIType::DECSTBM(n, m),
                Some('s') => CSIType::DECSLRM(n, m),
                _ => unknown_csi(gr),
            }
        }
    }

    /// Decodes a control sequence whose final grapheme may be any grapheme:
    /// one that is not a single byte selects no operation.
    pub fn from_grapheme(gr: &str, args: Vec<String>) -> (op: CSIType)
        ensures
            op@ == decode_csi_grapheme(gr@, args.deep_view()),
    {
        match cluster_char(gr) {
            Some(c) if c <= '\u{7f}' => Self::from(gr, args),
            _ => unknown_csi(gr),
        }
    }
}

} // verus!
