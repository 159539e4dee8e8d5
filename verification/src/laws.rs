//! What holds of decoding, proved from the definition of the scanner.

use crate::command::{Command, CsiOp, OscOp};
use crate::csi::{decode_csi, is_private, leading_field};
use crate::escaper::leading_text;
use crate::grapheme::{BEL, ESC, is_escape, single_char};
use crate::machine::{
    Gathered, Outcome, Phase, Transition, decode, has_parameters, illegal_note, keypad_note, run,
    step, step_escape, step_params, terminates,
};
use crate::number::{number_or, parse_number};
use crate::osc::decode_osc;
use crate::sequence::{
    classify, final_bounds, finish, parameter_bounds, unknown_introducer_note, within,
};
use vstd::prelude::*;

verus! {

/// The kind of a control sequence before any operation is decoded.
pub open spec fn control_kind() -> Command {
    Command::CSI(CsiOp::Unknown(Seq::empty()))
}

/// The kind of an operating-system command before it is decoded.
pub open spec fn system_kind() -> Command {
    Command::OSC(OscOp::Unknown(Seq::empty()))
}

/// The lone escape character, as a cluster.
pub open spec fn escape_cluster() -> Seq<char> {
    seq![ESC]
}

/// The cluster `[`, which introduces a control sequence.
pub open spec fn bracket_cluster() -> Seq<char> {
    seq!['[']
}

/// The cluster `]`, which introduces an operating-system command.
pub open spec fn closing_bracket_cluster() -> Seq<char> {
    seq![']']
}

/// The bell character, as a cluster.
pub open spec fn bell_cluster() -> Seq<char> {
    seq![BEL]
}

/// Whether a cluster may stand inside a sequence of kind `kind`: it is a
/// single code point in the range of that kind, `0x20` to `0x3F` for a control
/// sequence and `0x20` to `0x7F` for an operating-system command.
pub open spec fn is_parameter_cluster(kind: Command, cluster: Seq<char>) -> bool {
    single_char(cluster) matches Some(c) && within(c, parameter_bounds(kind))
}

/// Whether a cluster ends a sequence of kind `kind`: it is a single code
/// point from `0x40` to `0x7F` for a control sequence, and the bell character
/// for an operating-system command.
pub open spec fn is_final_cluster(kind: Command, cluster: Seq<char>) -> bool {
    single_char(cluster) matches Some(c) && within(c, final_bounds(kind))
}

/// The fields into which `;` divides the parameter characters `body`. There
/// is always at least one field, and an empty body has one empty field.
pub open spec fn split_fields(body: Seq<Seq<char>>) -> Seq<Seq<char>>
    decreases body.len(),
{
    if body.len() == 0 {
        seq![Seq::empty()]
    } else {
        let before = split_fields(body.drop_last());
        if single_char(body.last()) == Some(';') {
            before.push(Seq::empty())
        } else {
            before.drop_last().push(before.last() + body.last())
        }
    }
}

/// What the scanner has gathered after reading the parameter characters
/// `body` of a sequence of kind `kind`.
pub open spec fn gathered(kind: Command, body: Seq<Seq<char>>) -> Gathered {
    Gathered {
        kind,
        fields: split_fields(body).drop_last(),
        current: split_fields(body).last(),
    }
}

/// Whether `clusters` begin with `ESC`, the introducer of a sequence of kind
/// `kind`, and the parameter characters `body`.
pub open spec fn opens_with(clusters: Seq<Seq<char>>, kind: Command, body: Seq<Seq<char>>) -> bool {
    &&& has_parameters(kind)
    &&& clusters.len() >= body.len() + 2
    &&& is_escape(clusters[0])
    &&& classify(clusters[1]) == kind
    &&& clusters.subrange(2, body.len() as int + 2) == body
    &&& forall|i: int| 0 <= i < body.len() ==> is_parameter_cluster(kind, #[trigger] body[i])
}

proof fn lemma_split_fields_nonempty(body: Seq<Seq<char>>)
    ensures
        split_fields(body).len() > 0,
        gathered(Command::ST, body).fields.push(gathered(Command::ST, body).current)
            == split_fields(body),
    decreases body.len(),
{
    if body.len() > 0 {
        lemma_split_fields_nonempty(body.drop_last());
    }
    let all = split_fields(body);
    assert(all.drop_last().push(all.last()) =~= all);
}

proof fn lemma_run_parameters(
    clusters: Seq<Seq<char>>,
    kind: Command,
    body: Seq<Seq<char>>,
    k: int,
)
    requires
        0 <= k <= body.len(),
        opens_with(clusters, kind, body),
    ensures
        run(clusters, Phase::Params(gathered(kind, body.take(k))), 2 + k) == run(
            clusters,
            Phase::Params(gathered(kind, body)),
            body.len() as int + 2,
        ),
    decreases body.len() - k,
{
    let seen = gathered(kind, body.take(k));
    if k == body.len() {
        assert(body.take(k) =~= body);
    } else {
        let cluster = body[k];
        assert(clusters[2 + k] == cluster);
        assert(is_parameter_cluster(kind, cluster));
        assert(body.take(k + 1).drop_last() =~= body.take(k));
        assert(body.take(k + 1).last() == cluster);
        lemma_split_fields_nonempty(body.take(k));
        lemma_split_fields_nonempty(body.take(k + 1));
        let next = gathered(kind, body.take(k + 1));
        if single_char(cluster) == Some(';') {
            assert(next.fields =~= seen.fields.push(seen.current));
            assert(next.current =~= Seq::<char>::empty());
        } else {
            assert(next.fields =~= seen.fields);
            assert(next.current =~= seen.current + cluster);
        }
        assert(step_params(seen, cluster) == Transition::Continue(Phase::Params(next)));
        lemma_run_parameters(clusters, kind, body, k + 1);
    }
}

/// Scanning input that opens a sequence comes to reading what follows the
/// parameter characters, with the fields that they make gathered.
proof fn lemma_run_opening(clusters: Seq<Seq<char>>, kind: Command, body: Seq<Seq<char>>)
    requires
        opens_with(clusters, kind, body),
    ensures
        run(clusters, Phase::Start, 0) == run(
            clusters,
            Phase::Params(gathered(kind, body)),
            body.len() as int + 2,
        ),
        gathered(kind, body).fields.push(gathered(kind, body).current) == split_fields(body),
{
    assert(body.take(0) =~= Seq::<Seq<char>>::empty());
    assert(split_fields(body.take(0)) =~= seq![Seq::<char>::empty()]);
    assert(gathered(kind, body.take(0)).fields =~= Seq::<Seq<char>>::empty());
    assert(step(Phase::Start, clusters[0]) == Transition::Continue(Phase::Escape));
    assert(step_escape(clusters[1]) == Transition::Continue(
        Phase::Params(gathered(kind, body.take(0))),
    ));
    lemma_run_parameters(clusters, kind, body, 0);
    assert(run(clusters, Phase::Escape, 1) == run(
        clusters,
        Phase::Params(gathered(kind, body.take(0))),
        2,
    ));
    assert(run(clusters, Phase::Start, 0) == run(clusters, Phase::Escape, 1));
    lemma_split_fields_nonempty(body);
}

/// A complete control sequence decodes to a control-sequence command made of
/// exactly the clusters of the sequence, whatever follows it.
///
/// The sequence is `ESC`, `[`, any number of parameter characters and one
/// final character. The operation is the one that the final character and
/// the fields between the `;` select, and the count is that of the clusters
/// from `ESC` to the final character.
pub proof fn law_control_sequence(body: Seq<Seq<char>>, last: Seq<char>, rest: Seq<Seq<char>>)
    requires
        forall|i: int|
            0 <= i < body.len() ==> is_parameter_cluster(control_kind(), #[trigger] body[i]),
        is_final_cluster(control_kind(), last),
    ensures
        decode(seq![escape_cluster(), bracket_cluster()] + body + seq![last] + rest) == (
            Command::CSI(decode_csi(last, split_fields(body))),
            (body.len() + 3) as nat,
        ),
{
    let clusters = seq![escape_cluster(), bracket_cluster()] + body + seq![last] + rest;
    assert(clusters[0] == escape_cluster());
    assert(clusters[1] == bracket_cluster());
    assert(clusters.subrange(2, body.len() as int + 2) =~= body);
    assert(clusters[body.len() as int + 2] == last);
    lemma_run_opening(clusters, control_kind(), body);
}

/// A complete operating-system command that the bell character ends decodes
/// to the command that its fields select, made of exactly the clusters from
/// `ESC` to the bell, whatever follows it.
pub proof fn law_operating_system_command(body: Seq<Seq<char>>, rest: Seq<Seq<char>>)
    requires
        forall|i: int|
            0 <= i < body.len() ==> is_parameter_cluster(system_kind(), #[trigger] body[i]),
    ensures
        decode(
            seq![escape_cluster(), closing_bracket_cluster()] + body + seq![bell_cluster()] + rest,
        ) == (Command::OSC(decode_osc(split_fields(body))), (body.len() + 3) as nat),
{
    let clusters = seq![escape_cluster(), closing_bracket_cluster()] + body + seq![bell_cluster()]
        + rest;
    assert(clusters[0] == escape_cluster());
    assert(clusters[1] == closing_bracket_cluster());
    assert(clusters.subrange(2, body.len() as int + 2) =~= body);
    assert(clusters[body.len() as int + 2] == bell_cluster());
    lemma_run_opening(clusters, system_kind(), body);
}

/// A string terminator, `ESC` and `\`, ends a control sequence or an
/// operating-system command. The command is the one that the bell character
/// as final character and the fields select, and it is made of the clusters
/// up to the `\`. Any other introducer of a sequence that comes down to a
/// string terminator ends it in the same way.
pub proof fn law_string_terminator(
    kind: Command,
    introducer: Seq<char>,
    body: Seq<Seq<char>>,
    closing: Seq<char>,
    rest: Seq<Seq<char>>,
)
    requires
        has_parameters(kind),
        classify(introducer) == kind,
        forall|i: int| 0 <= i < body.len() ==> is_parameter_cluster(kind, #[trigger] body[i]),
        terminates(closing),
    ensures
        terminates(seq!['\\']),
        decode(
            seq![escape_cluster(), introducer] + body + seq![escape_cluster(), closing] + rest,
        ) == (finish(bell_cluster(), kind, split_fields(body)), (body.len() + 4) as nat),
{
    let clusters = seq![escape_cluster(), introducer] + body + seq![escape_cluster(), closing]
        + rest;
    assert(clusters[0] == escape_cluster());
    assert(clusters[1] == introducer);
    assert(clusters.subrange(2, body.len() as int + 2) =~= body);
    assert(clusters[body.len() as int + 2] == escape_cluster());
    assert(clusters[body.len() as int + 3] == closing);
    lemma_run_opening(clusters, kind, body);
    let seen = gathered(kind, body);
    assert(run(clusters, Phase::Params(seen), body.len() as int + 2) == run(
        clusters,
        Phase::Lookahead(seen),
        body.len() as int + 3,
    ));
}

/// Input that ends inside a control sequence or an operating-system command
/// is `Incomplete`, and so is input that ends with an `ESC` inside one.
pub proof fn law_unfinished_sequence(kind: Command, introducer: Seq<char>, body: Seq<Seq<char>>)
    requires
        has_parameters(kind),
        classify(introducer) == kind,
        forall|i: int| 0 <= i < body.len() ==> is_parameter_cluster(kind, #[trigger] body[i]),
    ensures
        decode(seq![escape_cluster(), introducer] + body) == (Command::Incomplete, 0nat),
        decode(seq![escape_cluster(), introducer] + body + seq![escape_cluster()]) == (
            Command::Incomplete,
            0nat,
        ),
{
    let clusters = seq![escape_cluster(), introducer] + body;
    assert(clusters[0] == escape_cluster());
    assert(clusters[1] == introducer);
    assert(clusters.subrange(2, body.len() as int + 2) =~= body);
    lemma_run_opening(clusters, kind, body);
    let longer = clusters + seq![escape_cluster()];
    assert(longer[0] == escape_cluster());
    assert(longer[1] == introducer);
    assert(longer.subrange(2, body.len() as int + 2) =~= body);
    assert(longer[body.len() as int + 2] == escape_cluster());
    lemma_run_opening(longer, kind, body);
    let seen = gathered(kind, body);
    assert(run(longer, Phase::Params(seen), body.len() as int + 2) == run(
        longer,
        Phase::Lookahead(seen),
        body.len() as int + 3,
    ));
}

/// A cluster that may neither stand inside a sequence nor end it, and that is
/// not `ESC`, ends the sequence as unknown. The command is made of the
/// clusters up to that one.
pub proof fn law_illegal_character(
    kind: Command,
    introducer: Seq<char>,
    body: Seq<Seq<char>>,
    wrong: Seq<char>,
    rest: Seq<Seq<char>>,
)
    requires
        has_parameters(kind),
        classify(introducer) == kind,
        forall|i: int| 0 <= i < body.len() ==> is_parameter_cluster(kind, #[trigger] body[i]),
        !is_escape(wrong),
        !is_parameter_cluster(kind, wrong),
        !is_final_cluster(kind, wrong),
    ensures
        decode(seq![escape_cluster(), introducer] + body + seq![wrong] + rest) == (
            Command::Unknown(illegal_note(wrong)),
            (body.len() + 3) as nat,
        ),
{
    let clusters = seq![escape_cluster(), introducer] + body + seq![wrong] + rest;
    assert(clusters[0] == escape_cluster());
    assert(clusters[1] == introducer);
    assert(clusters.subrange(2, body.len() as int + 2) =~= body);
    assert(clusters[body.len() as int + 2] == wrong);
    lemma_run_opening(clusters, kind, body);
}

/// An `ESC` inside a sequence that begins no string terminator breaks the
/// sequence off as unknown. The command is made of the clusters before that
/// `ESC`, which stays behind with what follows it.
pub proof fn law_broken_sequence(
    kind: Command,
    introducer: Seq<char>,
    body: Seq<Seq<char>>,
    next: Seq<char>,
    rest: Seq<Seq<char>>,
)
    requires
        has_parameters(kind),
        classify(introducer) == kind,
        forall|i: int| 0 <= i < body.len() ==> is_parameter_cluster(kind, #[trigger] body[i]),
        !terminates(next),
    ensures
        decode(seq![escape_cluster(), introducer] + body + seq![escape_cluster(), next] + rest)
            == (Command::Unknown(illegal_note(escape_cluster())), (body.len() + 2) as nat),
{
    let clusters = seq![escape_cluster(), introducer] + body + seq![escape_cluster(), next] + rest;
    assert(clusters[0] == escape_cluster());
    assert(clusters[1] == introducer);
    assert(clusters.subrange(2, body.len() as int + 2) =~= body);
    assert(clusters[body.len() as int + 2] == escape_cluster());
    assert(clusters[body.len() as int + 3] == next);
    lemma_run_opening(clusters, kind, body);
    let seen = gathered(kind, body);
    assert(run(clusters, Phase::Params(seen), body.len() as int + 2) == run(
        clusters,
        Phase::Lookahead(seen),
        body.len() as int + 3,
    ));
}

/// `ESC` and one more cluster are `Incomplete`, whatever the cluster is,
/// unless it is `>`.
pub proof fn law_two_clusters(introducer: Seq<char>)
    requires
        single_char(introducer) != Some('>'),
    ensures
        decode(seq![escape_cluster()]) == (Command::Incomplete, 0nat),
        decode(seq![escape_cluster(), introducer]) == (Command::Incomplete, 0nat),
{
    let one = seq![escape_cluster()];
    let two = seq![escape_cluster(), introducer];
    assert(run(one, Phase::Start, 0) == run(one, Phase::Escape, 1));
    assert(run(two, Phase::Start, 0) == run(two, Phase::Escape, 1));
    match step_escape(introducer) {
        Transition::Continue(next) => {
            assert(run(two, Phase::Escape, 1) == run(two, next, 2));
        },
        Transition::Done(_, _) => {},
    }
}

/// With a third cluster there, a sequence without parameters is made of two
/// clusters: it comes down to a string terminator where its introducer is
/// known, and is unknown where it is not.
pub proof fn law_settled_sequence(introducer: Seq<char>, next: Seq<char>, rest: Seq<Seq<char>>)
    requires
        !has_parameters(classify(introducer)),
    ensures
        decode(seq![escape_cluster(), introducer, next] + rest) == (
            if single_char(introducer) == Some('>') {
                Command::Unknown(keypad_note())
            } else if classify(introducer) is Unknown {
                Command::Unknown(unknown_introducer_note(introducer))
            } else {
                Command::ST
            },
            2nat,
        ),
{
    let clusters = seq![escape_cluster(), introducer, next] + rest;
    assert(clusters[0] == escape_cluster());
    assert(clusters[1] == introducer);
    assert(clusters[2] == next);
    assert(run(clusters, Phase::Start, 0) == run(clusters, Phase::Escape, 1));
    match step_escape(introducer) {
        Transition::Continue(settled) => {
            assert(run(clusters, Phase::Escape, 1) == run(clusters, settled, 2));
        },
        Transition::Done(_, _) => {},
    }
}

/// Where the first field denotes no number, the first parameter of a cursor
/// movement, a scroll, an insertion or a margin setting is 1, and that of an
/// erasure or a graphics rendition is 0.
pub proof fn law_default_parameter(last: Seq<char>, fields: Seq<Seq<char>>)
    requires
        !is_private(fields),
        parse_number(leading_field(fields)) is None,
    ensures
        match decode_csi(last, fields) {
            CsiOp::CUU(n)
            | CsiOp::CUD(n)
            | CsiOp::CUF(n)
            | CsiOp::CUB(n)
            | CsiOp::CNL(n)
            | CsiOp::CPL(n)
            | CsiOp::CHA(n)
            | CsiOp::CVA(n)
            | CsiOp::SU(n)
            | CsiOp::SD(n)
            | CsiOp::IL(n) => n == 1,
            CsiOp::CUP(n, _)
            | CsiOp::HVP(n, _)
            | CsiOp::DECSTBM(n, _)
            | CsiOp::DECSLRM(n, _) => n == 1,
            CsiOp::ED(n) | CsiOp::EL(n) => n == 0,
            CsiOp::SGR(n, _) => n == 0,
            CsiOp::DECTCEM(_) => false,
            CsiOp::Unknown(_) => true,
        },
{
}

/// Where the second field is missing or denotes no number, the second
/// parameter of a cursor position or a margin setting is 1.
pub proof fn law_default_second_parameter(last: Seq<char>, fields: Seq<Seq<char>>)
    requires
        !is_private(fields),
        fields.len() < 2 || parse_number(fields[1]) is None,
    ensures
        match decode_csi(last, fields) {
            CsiOp::CUP(_, m)
            | CsiOp::HVP(_, m)
            | CsiOp::DECSTBM(_, m)
            | CsiOp::DECSLRM(_, m) => m == 1,
            _ => true,
        },
{
}

/// A private-mode sequence shows the cursor for mode 25 with `h`, hides it
/// for mode 25 with `l`, and is unknown in every other case.
pub proof fn law_private_mode(last: Seq<char>, fields: Seq<Seq<char>>)
    requires
        is_private(fields),
    ensures
        ({
            let mode = number_or(leading_field(fields), 1);
            if mode == 25 && single_char(last) == Some('h') {
                decode_csi(last, fields) == CsiOp::DECTCEM(true)
            } else if mode == 25 && single_char(last) == Some('l') {
                decode_csi(last, fields) == CsiOp::DECTCEM(false)
            } else {
                decode_csi(last, fields) is Unknown
            }
        }),
{
}

proof fn lemma_run_text(clusters: Seq<Seq<char>>, k: int)
    requires
        1 <= k <= clusters.len(),
        forall|i: int| 0 <= i < clusters.len() ==> !is_escape(#[trigger] clusters[i]),
    ensures
        run(clusters, Phase::Text(clusters.take(k).flatten()), k) == Outcome::Suspended(
            Phase::Text(clusters.flatten()),
        ),
    decreases clusters.len() - k,
{
    broadcast use Seq::lemma_flatten_push;

    if k == clusters.len() {
        assert(clusters.take(k) =~= clusters);
    } else {
        assert(clusters.take(k + 1) =~= clusters.take(k).push(clusters[k]));
        lemma_run_text(clusters, k + 1);
    }
}

/// Input without a lone `ESC` decodes to one run of text that holds all of
/// it, unchanged.
pub proof fn law_text_passes_through(clusters: Seq<Seq<char>>)
    requires
        clusters.len() > 0,
        forall|i: int| 0 <= i < clusters.len() ==> !is_escape(#[trigger] clusters[i]),
    ensures
        decode(clusters) == (Command::Text(clusters.flatten()), clusters.len()),
        leading_text(clusters) == clusters.flatten(),
{
    clusters.take(1).lemma_flatten_one_element();
    assert(clusters.take(1).first() == clusters[0]);
    lemma_run_text(clusters, 1);
    lemma_leading_text_is_all(clusters);
}

proof fn lemma_leading_text_is_all(clusters: Seq<Seq<char>>)
    requires
        forall|i: int| 0 <= i < clusters.len() ==> !is_escape(#[trigger] clusters[i]),
    ensures
        leading_text(clusters) == clusters.flatten(),
    decreases clusters.len(),
{
    if clusters.len() > 0 {
        let rest = clusters.drop_first();
        assert forall|i: int| 0 <= i < rest.len() implies !is_escape(#[trigger] rest[i]) by {
            assert(rest[i] == clusters[i + 1]);
        }
        lemma_leading_text_is_all(rest);
    }
}

/// Text up to a lone `ESC` decodes to that text, made of the clusters before
/// the `ESC`, which stays behind.
pub proof fn law_text_before_escape(text: Seq<Seq<char>>, rest: Seq<Seq<char>>)
    requires
        text.len() > 0,
        forall|i: int| 0 <= i < text.len() ==> !is_escape(#[trigger] text[i]),
    ensures
        decode(text + seq![escape_cluster()] + rest) == (Command::Text(text.flatten()), text.len()),
{
    let clusters = text + seq![escape_cluster()] + rest;
    assert(clusters.take(text.len() as int) =~= text);
    assert(clusters[text.len() as int] == escape_cluster());
    lemma_run_text_prefix(clusters, text, 1);
    text.take(1).lemma_flatten_one_element();
    assert(text.take(1).first() == text[0]);
    assert(clusters[0] == text[0]);
}

proof fn lemma_run_text_prefix(clusters: Seq<Seq<char>>, text: Seq<Seq<char>>, k: int)
    requires
        1 <= k <= text.len(),
        clusters.len() > text.len(),
        clusters.take(text.len() as int) == text,
        is_escape(clusters[text.len() as int]),
        forall|i: int| 0 <= i < text.len() ==> !is_escape(#[trigger] text[i]),
    ensures
        run(clusters, Phase::Text(text.take(k).flatten()), k) == Outcome::Done(
            Command::Text(text.flatten()),
            text.len(),
        ),
    decreases text.len() - k,
{
    broadcast use Seq::lemma_flatten_push;

    if k == text.len() {
        assert(text.take(k) =~= text);
    } else {
        assert(clusters[k] == text[k]);
        assert(text.take(k + 1) =~= text.take(k).push(text[k]));
        lemma_run_text_prefix(clusters, text, k + 1);
    }
}

/// Clusters that hold a lone `ESC` hold the character `ESC` when joined.
pub proof fn lemma_joined_holds_escape(clusters: Seq<Seq<char>>, i: int)
    requires
        0 <= i < clusters.len(),
        is_escape(clusters[i]),
    ensures
        clusters.flatten().contains(ESC),
    decreases clusters.len(),
{
    let rest = clusters.drop_first();
    if i == 0 {
        assert(clusters.flatten()[0] == ESC);
    } else {
        assert(rest[i - 1] == clusters[i]);
        lemma_joined_holds_escape(rest, i - 1);
        let j = choose|j: int| 0 <= j < rest.flatten().len() && rest.flatten()[j] == ESC;
        assert(clusters.flatten()[clusters.first().len() + j] == ESC);
    }
}

/// Clusters that are not empty join to something that is not empty.
pub proof fn lemma_joined_is_not_empty(clusters: Seq<Seq<char>>)
    requires
        clusters.len() > 0,
        clusters[0].len() > 0,
    ensures
        clusters.flatten().len() > 0,
{
}

/// Nothing decodes to `Incomplete`, with nothing consumed.
pub proof fn law_empty_input()
    ensures
        decode(Seq::empty()) == (Command::Incomplete, 0nat),
{
}

} // verus!
