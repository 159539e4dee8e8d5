//! Decoding of operating-system commands.

use crate::command::{OSCType, OscOp};
use crate::grapheme::{cluster_char, single_char};
use vstd::prelude::*;
use vstd::string::*;

verus! {

/// Whether a first field selects the window title: code `0` sets icon name
/// and title, code `2` the title alone.
pub open spec fn selects_title(field: Seq<char>) -> bool {
    single_char(field) == Some('0') || single_char(field) == Some('2')
}

/// The fields joined again by the `;` that separated them.
pub open spec fn join_fields(fields: Seq<Seq<char>>) -> Seq<char>
    decreases fields.len(),
{
    if fields.len() == 0 {
        Seq::empty()
    } else if fields.len() == 1 {
        fields[0]
    } else {
        join_fields(fields.drop_last()) + seq![';'] + fields.last()
    }
}

/// The diagnostic for a command that is not known: it carries the body of the
/// command as it was read.
pub open spec fn unknown_osc_note(fields: Seq<Seq<char>>) -> Seq<char> {
    "Unknown OSC command: "@ + join_fields(fields)
}

/// The command that the fields of an operating-system command select. The
/// title is the second field, empty where there is none.
pub open spec fn decode_osc(fields: Seq<Seq<char>>) -> OscOp {
    if fields.len() > 0 && selects_title(fields[0]) {
        OscOp::WindowTitle(
            if fields.len() > 1 {
                fields[1]
            } else {
                Seq::empty()
            },
        )
    } else {
        OscOp::Unknown(unknown_osc_note(fields))
    }
}

fn joined(args: &Vec<String>) -> (body: String)
    ensures
        body@ == join_fields(args.deep_view()),
{
    let ghost fields = args.deep_view();
    let mut body = String::new();
    let mut i: usize = 0;
    while i < args.len()
        invariant
            i <= args.len(),
            fields == args.deep_view(),
            body@ == join_fields(fields.take(i as int)),
        decreases args.len() - i,
    {
        assert(fields[i as int] == args[i as int]@);
        assert(fields.take(i + 1).drop_last() =~= fields.take(i as int));
        if i > 0 {
            body.append(";");
            proof {
                reveal_strlit(";");
            }
        }
        body.append(args[i].as_str());
        assert(body@ =~= join_fields(fields.take(i + 1)));
        i = i + 1;
    }
    assert(fields.take(i as int) =~= fields);
    body
}

impl OSCType {
    /// Decodes an operating-system command from its fields. The terminator
    /// `gr` does not bear on the result.
    pub fn from(gr: &str, args: Vec<String>) -> (op: OSCType)
        ensures
            op@ == decode_osc(args.deep_view()),
    {
        let ghost fields = args.deep_view();
        if args.len() > 0 {
            assert(fields[0] == args[0]@);
            let code = cluster_char(args[0].as_str());
            let title = match code {
                Some('0') => true,
                Some('2') => true,
                _ => false,
            };
            if title {
                if args.len() > 1 {
                    assert(fields[1] == args[1]@);
                    return OSCType::WindowTitle(args[1].clone());
                }
                return OSCType::WindowTitle(String::new());
            }
        }
        let body = joined(&args);
        OSCType::Unknown(String::from_str("Unknown OSC command: ").concat(body.as_str()))
    }

    /// As [`OSCType::from`]: a terminator of any length is accepted.
    pub fn from_grapheme(gr: &str, args: Vec<String>) -> (op: OSCType)
        ensures
            op@ == decode_osc(args.deep_view()),
    {
        Self::from(gr, args)
    }
}

} // verus!
