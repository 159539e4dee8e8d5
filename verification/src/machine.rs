//! The scanner: a state machine that reads one grapheme cluster at a time.
//!
//! A state says what has been read of the unit in progress. A step takes the
//! next cluster and either moves to another state or ends the unit with a
//! command, possibly handing back the last one or two clusters it looked at.
//! Nothing else in the crate decides what a piece of input means.

use crate::command::{AnsiType, Command};
use crate::grapheme::{BEL, ESC, cluster_char, cluster_is_escape, is_escape, single_char};
use crate::sequence::{classify, final_bounds, finish, parameter_bounds, within};
use vstd::prelude::*;
use vstd::string::*;

verus! {

/// A sequence whose parameters are being read, as a mathematical value.
pub struct Gathered {
    /// The kind of the sequence.
    pub kind: Command,
    /// The fields that a `;` has closed.
    pub fields: Seq<Seq<char>>,
    /// The field being read.
    pub current: Seq<char>,
}

/// A state of the scanner, as a mathematical value.
pub enum Phase {
    /// Nothing has been read.
    Start,
    /// A run of text has been read.
    Text(Seq<char>),
    /// `ESC` has been read.
    Escape,
    /// `ESC` and an introducer that makes a whole sequence have been read. The
    /// command is given out once a further cluster is there.
    Settled(Command),
    /// `ESC`, an introducer and some parameters have been read.
    Params(Gathered),
    /// As `Params`, and then an `ESC`, which may begin a string terminator.
    Lookahead(Gathered),
}

/// The result of a step, as a mathematical value.
pub enum Transition {
    /// The unit goes on, in this state.
    Continue(Phase),
    /// The unit is over: the command, and how many of the clusters read last
    /// do not belong to it.
    Done(Command, nat),
}

/// What scanning some clusters comes to, as a mathematical value.
pub enum Outcome {
    /// A unit ended: the command, and how many clusters it is made of.
    Done(Command, nat),
    /// The clusters ran out in this state.
    Suspended(Phase),
}

/// The diagnostic for `ESC >`.
pub open spec fn keypad_note() -> Seq<char> {
    "I do not know how to handle '>'"@
}

/// The diagnostic for a cluster that may not stand inside a sequence.
pub open spec fn illegal_note(cluster: Seq<char>) -> Seq<char> {
    "Illegal character "@ + cluster + " found in escape sequence"@
}

/// Whether the cluster after `ESC` introduces a sequence that has parameters.
pub open spec fn has_parameters(kind: Command) -> bool {
    kind is CSI || kind is OSC
}

/// Whether `ESC` and then `introducer`, met inside a sequence, end that
/// sequence: they do where they make a string terminator, or a sequence that
/// comes down to one.
pub open spec fn terminates(introducer: Seq<char>) -> bool {
    finish(Seq::empty(), classify(introducer), Seq::empty()) is ST
}

/// The step from `Escape`.
pub open spec fn step_escape(cluster: Seq<char>) -> Transition {
    if single_char(cluster) == Some('>') {
        Transition::Done(Command::Unknown(keypad_note()), 0)
    } else if has_parameters(classify(cluster)) {
        Transition::Continue(
            Phase::Params(
                Gathered { kind: classify(cluster), fields: Seq::empty(), current: Seq::empty() },
            ),
        )
    } else {
        Transition::Continue(Phase::Settled(finish(cluster, classify(cluster), Seq::empty())))
    }
}

/// The step from `Params`.
pub open spec fn step_params(seen: Gathered, cluster: Seq<char>) -> Transition {
    if is_escape(cluster) {
        Transition::Continue(Phase::Lookahead(seen))
    } else if single_char(cluster) == Some(';') {
        Transition::Continue(
            Phase::Params(
                Gathered {
                    kind: seen.kind,
                    fields: seen.fields.push(seen.current),
                    current: Seq::empty(),
                },
            ),
        )
    } else if single_char(cluster) matches Some(c) && within(c, parameter_bounds(seen.kind)) {
        Transition::Continue(
            Phase::Params(
                Gathered { kind: seen.kind, fields: seen.fields, current: seen.current + cluster },
            ),
        )
    } else if single_char(cluster) matches Some(c) && within(c, final_bounds(seen.kind)) {
        Transition::Done(finish(cluster, seen.kind, seen.fields.push(seen.current)), 0)
    } else {
        Transition::Done(Command::Unknown(illegal_note(cluster)), 0)
    }
}

/// The step from `Lookahead`. A terminator ends the sequence, and the bell
/// character stands for it as the final grapheme. Anything else breaks the
/// sequence off before the `ESC`, which is left to open the next unit.
pub open spec fn step_lookahead(seen: Gathered, cluster: Seq<char>) -> Transition {
    if terminates(cluster) {
        Transition::Done(finish(seq![BEL], seen.kind, seen.fields.push(seen.current)), 0)
    } else {
        Transition::Done(Command::Unknown(illegal_note(seq![ESC])), 2)
    }
}

/// The step of the scanner from `phase` on `cluster`.
pub open spec fn step(phase: Phase, cluster: Seq<char>) -> Transition {
    match phase {
        Phase::Start => if is_escape(cluster) {
            Transition::Continue(Phase::Escape)
        } else {
            Transition::Continue(Phase::Text(cluster))
        },
        Phase::Text(text) => if is_escape(cluster) {
            Transition::Done(Command::Text(text), 1)
        } else {
            Transition::Continue(Phase::Text(text + cluster))
        },
        Phase::Escape => step_escape(cluster),
        Phase::Settled(command) => Transition::Done(command, 1),
        Phase::Params(seen) => step_params(seen, cluster),
        Phase::Lookahead(seen) => step_lookahead(seen, cluster),
    }
}

/// The least number of clusters that have been read in a state.
pub open spec fn depth(phase: Phase) -> nat {
    match phase {
        Phase::Start => 0,
        Phase::Text(_) => 1,
        Phase::Escape => 1,
        Phase::Settled(_) => 2,
        Phase::Params(_) => 2,
        Phase::Lookahead(_) => 3,
    }
}

/// Scanning `clusters` from the one at index `at`, in state `phase`.
pub open spec fn run(clusters: Seq<Seq<char>>, phase: Phase, at: int) -> Outcome
    decreases clusters.len() - at,
{
    if at < 0 || at >= clusters.len() {
        Outcome::Suspended(phase)
    } else {
        match step(phase, clusters[at]) {
            Transition::Continue(next) => run(clusters, next, at + 1),
            Transition::Done(command, back) => Outcome::Done(
                command,
                if at + 1 >= back {
                    (at + 1 - back) as nat
                } else {
                    0
                },
            ),
        }
    }
}

/// What is given out when the scan of `len` clusters came to `outcome`: the
/// command of a unit that ended; a run of text that reached the end of the
/// input, whole; and otherwise `Incomplete`, with nothing consumed.
pub open spec fn conclude(outcome: Outcome, len: nat) -> (Command, nat) {
    match outcome {
        Outcome::Done(command, consumed) => (command, consumed),
        Outcome::Suspended(Phase::Text(text)) => (Command::Text(text), len),
        Outcome::Suspended(_) => (Command::Incomplete, 0),
    }
}

/// The first command that `clusters` hold, and the number of clusters it is
/// made of.
pub open spec fn decode(clusters: Seq<Seq<char>>) -> (Command, nat) {
    conclude(run(clusters, Phase::Start, 0), clusters.len())
}

/// The state in which the scanner is after it has read all of `clusters`
/// from `Start`, if no unit has ended on the way.
pub open spec fn trace(clusters: Seq<Seq<char>>) -> Option<Phase>
    decreases clusters.len(),
{
    if clusters.len() == 0 {
        Some(Phase::Start)
    } else {
        match trace(clusters.drop_last()) {
            Some(phase) => match step(phase, clusters.last()) {
                Transition::Continue(next) => Some(next),
                Transition::Done(_, _) => None,
            },
            None => None,
        }
    }
}

/// A sequence whose parameters are being read.
pub struct Partial {
    pub kind: AnsiType,
    pub args: Vec<String>,
    pub cur: String,
}

/// A state of the scanner.
pub enum ScanState {
    Start,
    Text(String),
    Escape,
    Settled(AnsiType),
    Params(Partial),
    Lookahead(Partial),
}

/// The result of a step.
pub enum Step {
    Continue(ScanState),
    Done(AnsiType, usize),
}

/// What scanning some clusters comes to.
pub enum Scan {
    Done(AnsiType, usize),
    Suspended(ScanState),
}

impl View for Partial {
    type V = Gathered;

    open spec fn view(&self) -> Gathered {
        Gathered { kind: self.kind@, fields: self.args.deep_view(), current: self.cur@ }
    }
}

impl View for ScanState {
    type V = Phase;

    open spec fn view(&self) -> Phase {
        match self {
            ScanState::Start => Phase::Start,
            ScanState::Text(text) => Phase::Text(text@),
            ScanState::Escape => Phase::Escape,
            ScanState::Settled(command) => Phase::Settled(command@),
            ScanState::Params(seen) => Phase::Params(seen@),
            ScanState::Lookahead(seen) => Phase::Lookahead(seen@),
        }
    }
}

impl View for Step {
    type V = Transition;

    open spec fn view(&self) -> Transition {
        match self {
            Step::Continue(state) => Transition::Continue(state@),
            Step::Done(command, back) => Transition::Done(command@, *back as nat),
        }
    }
}

impl View for Scan {
    type V = Outcome;

    open spec fn view(&self) -> Outcome {
        match self {
            Scan::Done(command, consumed) => Outcome::Done(command@, *consumed as nat),
            Scan::Suspended(state) => Outcome::Suspended(state@),
        }
    }
}

fn illegal(cluster: &str) -> (command: AnsiType)
    ensures
        command@ == Command::Unknown(illegal_note(cluster@)),
{
    AnsiType::Unknown(
        String::from_str("Illegal character ").concat(cluster).concat(" found in escape sequence"),
    )
}

fn closed(seen: Partial, last: &str) -> (command: AnsiType)
    ensures
        command@ == finish(last@, seen@.kind, seen@.fields.push(seen@.current)),
{
    let Partial { kind, args, cur } = seen;
    let mut args = args;
    let ghost before = args.deep_view();
    args.push(cur);
    assert(args.deep_view() =~= before.push(cur@));
    AnsiType::finish(last, kind, args)
}

fn step_escape_state(cluster: &str) -> (next: Step)
    ensures
        next@ == step_escape(cluster@),
{
    if let Some('>') = cluster_char(cluster) {
        return Step::Done(
            AnsiType::Unknown(String::from_str("I do not know how to handle '>'")),
            0,
        );
    }
    let kind = <AnsiType as From<&str>>::from(cluster);
    match kind {
        AnsiType::CSI { .. } | AnsiType::OSC { .. } => {
            let args: Vec<String> = Vec::new();
            assert(args.deep_view() =~= Seq::<Seq<char>>::empty());
            Step::Continue(ScanState::Params(Partial { kind, args, cur: String::new() }))
        },
        _ => {
            let args: Vec<String> = Vec::new();
            assert(args.deep_view() =~= Seq::<Seq<char>>::empty());
            Step::Continue(ScanState::Settled(AnsiType::finish(cluster, kind, args)))
        },
    }
}

fn step_params_state(seen: Partial, cluster: &str) -> (next: Step)
    ensures
        next@ == step_params(seen@, cluster@),
{
    let c = cluster_char(cluster);
    match c {
        Some(ch) => {
            if ch == ESC {
                return Step::Continue(ScanState::Lookahead(seen));
            }
            let Partial { kind, args, cur } = seen;
            if ch == ';' {
                let mut args = args;
                let ghost before = args.deep_view();
                args.push(cur);
                assert(args.deep_view() =~= before.push(cur@));
                return Step::Continue(
                    ScanState::Params(Partial { kind, args, cur: String::new() }),
                );
            }
            let ranges = AnsiType::valid_char_ranges(&kind);
            let code = ch as u32;
            if ranges.0.start <= code && code < ranges.0.end {
                let mut cur = cur;
                cur.append(cluster);
                Step::Continue(ScanState::Params(Partial { kind, args, cur }))
            } else if ranges.1.start <= code && code < ranges.1.end {
                Step::Done(closed(Partial { kind, args, cur }, cluster), 0)
            } else {
                Step::Done(illegal(cluster), 0)
            }
        },
        None => Step::Done(illegal(cluster), 0),
    }
}

fn step_lookahead_state(seen: Partial, cluster: &str) -> (next: Step)
    ensures
        next@ == step_lookahead(seen@, cluster@),
{
    let nested = <AnsiType as From<&str>>::from(cluster);
    let ends = match nested {
        AnsiType::CSI { .. } | AnsiType::OSC { .. } | AnsiType::Unknown(_) => false,
        _ => true,
    };
    proof {
        reveal_strlit("\x07");
        reveal_strlit("\x1b");
        assert("\x07"@ =~= seq![BEL]);
        assert("\x1b"@ =~= seq![ESC]);
    }
    if ends {
        Step::Done(closed(seen, "\x07"), 0)
    } else {
        Step::Done(illegal("\x1b"), 2)
    }
}

/// Takes one step of the scanner.
pub fn step_state(state: ScanState, cluster: &str) -> (next: Step)
    ensures
        next@ == step(state@, cluster@),
{
    match state {
        ScanState::Start => {
            if cluster_is_escape(cluster) {
                Step::Continue(ScanState::Escape)
            } else {
                Step::Continue(ScanState::Text(String::from_str(cluster)))
            }
        },
        ScanState::Text(text) => {
            if cluster_is_escape(cluster) {
                Step::Done(AnsiType::Text(text), 1)
            } else {
                let mut text = text;
                text.append(cluster);
                Step::Continue(ScanState::Text(text))
            }
        },
        ScanState::Escape => step_escape_state(cluster),
        ScanState::Settled(command) => Step::Done(command, 1),
        ScanState::Params(seen) => step_params_state(seen, cluster),
        ScanState::Lookahead(seen) => step_lookahead_state(seen, cluster),
    }
}

/// A step moves on by at most one cluster, and hands back no more clusters
/// than have been read.
pub proof fn lemma_step_depth(phase: Phase, cluster: Seq<char>)
    ensures
        step(phase, cluster) matches Transition::Continue(next) ==> depth(next) <= depth(phase) + 1,
        step(phase, cluster) matches Transition::Done(_, back) ==> back <= depth(phase),
{
}

/// Scanning can be taken up where it stopped: from the state reached after
/// the first `k` clusters, at the cluster of index `k`.
pub proof fn lemma_resume(clusters: Seq<Seq<char>>, k: int)
    requires
        0 <= k <= clusters.len(),
        trace(clusters.take(k)) is Some,
    ensures
        run(clusters, Phase::Start, 0) == run(clusters, trace(clusters.take(k))->0, k),
        depth(trace(clusters.take(k))->0) <= k,
    decreases k,
{
    if k > 0 {
        assert(clusters.take(k).drop_last() =~= clusters.take(k - 1));
        assert(clusters.take(k).last() == clusters[k - 1]);
        lemma_resume(clusters, k - 1);
        lemma_step_depth(trace(clusters.take(k - 1))->0, clusters[k - 1]);
    }
}

/// Where scanning from a state that was reached runs out of clusters, the
/// state it stops in is the one reached after all of them.
pub proof fn lemma_suspended(clusters: Seq<Seq<char>>, phase: Phase, k: int)
    requires
        0 <= k <= clusters.len(),
        trace(clusters.take(k)) == Some(phase),
        run(clusters, phase, k) is Suspended,
    ensures
        trace(clusters) == Some(run(clusters, phase, k)->Suspended_0),
    decreases clusters.len() - k,
{
    if k == clusters.len() {
        assert(clusters.take(k) =~= clusters);
    } else {
        assert(clusters.take(k + 1).drop_last() =~= clusters.take(k));
        assert(clusters.take(k + 1).last() == clusters[k]);
        match step(phase, clusters[k]) {
            Transition::Continue(next) => {
                lemma_suspended(clusters, next, k + 1);
            },
            Transition::Done(_, _) => {},
        }
    }
}

/// A unit that ends is made of at least one cluster and of no more clusters
/// than there are.
pub proof fn lemma_run_bounds(clusters: Seq<Seq<char>>, phase: Phase, k: int)
    requires
        0 <= k <= clusters.len(),
        depth(phase) <= k,
    ensures
        run(clusters, phase, k) matches Outcome::Done(_, consumed) ==> 0 < consumed
            <= clusters.len(),
    decreases clusters.len() - k,
{
    if k < clusters.len() {
        lemma_step_depth(phase, clusters[k]);
        match step(phase, clusters[k]) {
            Transition::Continue(next) => {
                lemma_run_bounds(clusters, next, k + 1);
            },
            Transition::Done(_, back) => {
                assert(depth(phase) - back < k + 1 - back);
            },
        }
    }
}

} // verus!
