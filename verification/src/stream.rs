//! Decoding input that arrives in pieces, against decoding it whole.
//!
//! A decoder is fed a piece and then asked for commands until it answers
//! `Incomplete`. The commands it gives over all the pieces are those of the
//! whole input, except that a run of text which a piece boundary cuts comes
//! out in parts.

use crate::command::Command;
use crate::grapheme::is_escape;
use crate::machine::{
    Outcome, Phase, Transition, decode, depth, lemma_run_bounds, lemma_step_depth, run, step,
};
use vstd::prelude::*;

verus! {

/// The commands that come out of `pending` when commands are taken until
/// `Incomplete` is the answer, and the clusters that stay behind.
pub open spec fn drain(pending: Seq<Seq<char>>) -> (Seq<Command>, Seq<Seq<char>>)
    decreases pending.len(),
{
    let found = decode(pending);
    if found.0 is Incomplete || found.1 == 0 || found.1 > pending.len() {
        (Seq::empty(), pending)
    } else {
        let rest = drain(pending.skip(found.1 as int));
        (seq![found.0] + rest.0, rest.1)
    }
}

/// The commands that come out when `pieces` are fed one after the other to a
/// decoder that holds `pending`, each followed by taking commands until
/// `Incomplete`, and the clusters that stay behind at the end.
pub open spec fn feed_from(pending: Seq<Seq<char>>, pieces: Seq<Seq<Seq<char>>>) -> (
    Seq<Command>,
    Seq<Seq<char>>,
)
    decreases pieces.len(),
{
    if pieces.len() == 0 {
        (Seq::empty(), pending)
    } else {
        let now = drain(pending + pieces.first());
        let later = feed_from(now.1, pieces.drop_first());
        (now.0 + later.0, later.1)
    }
}

/// As [`feed_from`], for a decoder that starts with nothing pending.
pub open spec fn feed_all(pieces: Seq<Seq<Seq<char>>>) -> (Seq<Command>, Seq<Seq<char>>) {
    feed_from(Seq::empty(), pieces)
}

/// The pieces of an input that is fed one cluster at a time.
pub open spec fn one_by_one(clusters: Seq<Seq<char>>) -> Seq<Seq<Seq<char>>> {
    Seq::new(clusters.len(), |i: int| seq![clusters[i]])
}

/// `command` put before `rest`: where both it and the first of `rest` are
/// text, the two make one run.
pub open spec fn join_first(command: Command, rest: Seq<Command>) -> Seq<Command> {
    if rest.len() > 0 && command is Text && rest.first() is Text {
        seq![Command::Text(command->Text_0 + rest.first()->Text_0)] + rest.drop_first()
    } else {
        seq![command] + rest
    }
}

/// The commands with every stretch of neighbouring text runs made one run.
pub open spec fn join_text(commands: Seq<Command>) -> Seq<Command>
    decreases commands.len(),
{
    if commands.len() == 0 {
        Seq::empty()
    } else {
        join_first(commands.first(), join_text(commands.drop_first()))
    }
}

/// Whether no two neighbours among the commands are both text.
pub open spec fn text_runs_whole(commands: Seq<Command>) -> bool {
    forall|i: int|
        0 <= i < commands.len() - 1 ==> !(#[trigger] commands[i] is Text && commands[i + 1] is Text)
}

/// Whether a state can be reached from `Start`: a settled command is a string
/// terminator or an unknown sequence, and parameters are gathered only for the
/// two kinds of sequence that have them.
pub open spec fn reachable(phase: Phase) -> bool {
    match phase {
        Phase::Settled(command) => command is ST || command is Unknown,
        Phase::Params(seen) => seen.kind is CSI || seen.kind is OSC,
        Phase::Lookahead(seen) => seen.kind is CSI || seen.kind is OSC,
        _ => true,
    }
}

proof fn lemma_step_reachable(phase: Phase, cluster: Seq<char>)
    requires
        reachable(phase),
    ensures
        step(phase, cluster) matches Transition::Continue(next) ==> reachable(next) && (next is Text
            ==> phase is Start || phase is Text),
        step(phase, cluster) matches Transition::Done(command, _) ==> !(command is Incomplete) && (
        command is Text ==> phase is Text),
{
}

proof fn lemma_run_reachable(clusters: Seq<Seq<char>>, phase: Phase, k: int)
    requires
        0 <= k <= clusters.len(),
        reachable(phase),
    ensures
        run(clusters, phase, k) matches Outcome::Done(command, _) ==> !(command is Incomplete),
        !(phase is Start || phase is Text) ==> (run(clusters, phase, k) matches Outcome::Done(
            command,
            _,
        ) ==> !(command is Text)),
        !(phase is Start || phase is Text) ==> (run(clusters, phase, k) matches Outcome::Suspended(
            last,
        ) ==> !(last is Text)),
    decreases clusters.len() - k,
{
    if k < clusters.len() {
        lemma_step_reachable(phase, clusters[k]);
        match step(phase, clusters[k]) {
            Transition::Continue(next) => {
                lemma_run_reachable(clusters, next, k + 1);
            },
            Transition::Done(_, _) => {},
        }
    }
}

/// Input that begins with `ESC` never decodes to text.
pub proof fn lemma_escape_is_not_text(clusters: Seq<Seq<char>>)
    requires
        clusters.len() > 0,
        is_escape(clusters[0]),
    ensures
        !(decode(clusters).0 is Text),
{
    lemma_run_reachable(clusters, Phase::Escape, 1);
}

/// Every command but `Incomplete` is made of at least one cluster and of no
/// more than there are, and `Incomplete` of none.
pub proof fn lemma_decode_bounds(clusters: Seq<Seq<char>>)
    ensures
        decode(clusters).0 is Incomplete ==> decode(clusters).1 == 0,
        !(decode(clusters).0 is Incomplete) ==> 0 < decode(clusters).1 <= clusters.len(),
{
    lemma_run_bounds(clusters, Phase::Start, 0);
    lemma_run_reachable(clusters, Phase::Start, 0);
}

/// More input does not change a unit that has ended, and scanning goes on
/// from the state in which the shorter input ran out.
proof fn lemma_run_extend(x: Seq<Seq<char>>, q: Seq<Seq<char>>, phase: Phase, k: int)
    requires
        0 <= k <= x.len(),
    ensures
        run(x, phase, k) is Done ==> run(x + q, phase, k) == run(x, phase, k),
        run(x, phase, k) matches Outcome::Suspended(last) ==> run(x + q, phase, k) == run(
            x + q,
            last,
            x.len() as int,
        ),
    decreases x.len() - k,
{
    if k < x.len() {
        assert((x + q)[k] == x[k]);
        match step(phase, x[k]) {
            Transition::Continue(next) => {
                lemma_run_extend(x, q, next, k + 1);
            },
            Transition::Done(_, _) => {},
        }
    }
}

/// A run of text goes on across a piece boundary: scanning `q` as text after
/// `s`, and scanning it behind `x` as text after `t + s`, end at the same
/// cluster of `q`, and the second text is the first with `t` before it.
proof fn lemma_text_shift(
    x: Seq<Seq<char>>,
    q: Seq<Seq<char>>,
    t: Seq<char>,
    s: Seq<char>,
    j: int,
)
    requires
        1 <= j <= q.len(),
    ensures
        run(q, Phase::Text(s), j) matches Outcome::Done(command, m) ==> command is Text && 0 < m
            <= q.len() && (m < q.len() ==> is_escape(q[m as int])) && run(
            x + q,
            Phase::Text(t + s),
            x.len() + j,
        ) == Outcome::Done(Command::Text(t + command->Text_0), x.len() + m),
        run(q, Phase::Text(s), j) matches Outcome::Suspended(last) ==> last is Text && run(
            x + q,
            Phase::Text(t + s),
            x.len() + j,
        ) == Outcome::Suspended(Phase::Text(t + last->Text_0)),
    decreases q.len() - j,
{
    if j < q.len() {
        assert((x + q)[x.len() + j] == q[j]);
        if !is_escape(q[j]) {
            assert((t + s) + q[j] =~= t + (s + q[j]));
            lemma_text_shift(x, q, t, s + q[j], j + 1);
        }
    }
}

proof fn lemma_join_text_after(a: Seq<Command>, b: Seq<Command>, c: Seq<Command>)
    requires
        join_text(b) == join_text(c),
    ensures
        join_text(a + b) == join_text(a + c),
    decreases a.len(),
{
    if a.len() == 0 {
        assert(a + b =~= b);
        assert(a + c =~= c);
    } else {
        assert((a + b).drop_first() =~= a.drop_first() + b);
        assert((a + c).drop_first() =~= a.drop_first() + c);
        lemma_join_text_after(a.drop_first(), b, c);
    }
}

proof fn lemma_join_two_texts(t: Seq<char>, s: Seq<char>, rest: Seq<Command>)
    ensures
        join_text(seq![Command::Text(t)] + (seq![Command::Text(s)] + rest)) == join_text(
            seq![Command::Text(t + s)] + rest,
        ),
{
    let inner = seq![Command::Text(s)] + rest;
    let left = seq![Command::Text(t)] + inner;
    let right = seq![Command::Text(t + s)] + rest;
    assert(left.drop_first() =~= inner);
    assert(inner.drop_first() =~= rest);
    assert(right.drop_first() =~= rest);
    let joined = join_text(rest);
    let mid = join_first(Command::Text(s), joined);
    assert(join_text(inner) == mid);
    assert(join_text(left) == join_first(Command::Text(t), mid));
    assert(join_text(right) == join_first(Command::Text(t + s), joined));
    if joined.len() > 0 && joined.first() is Text {
        let r = joined.first()->Text_0;
        assert(t + (s + r) =~= (t + s) + r);
        assert(mid.first() == Command::Text(s + r));
        assert(mid.drop_first() =~= joined.drop_first());
    } else {
        assert(mid.first() == Command::Text(s));
        assert(mid.drop_first() =~= joined);
    }
    assert(join_first(Command::Text(t), mid) =~= join_first(Command::Text(t + s), joined));
}

/// What stays behind when commands are taken until `Incomplete` holds no
/// further command.
pub proof fn lemma_drain_settles(pending: Seq<Seq<char>>)
    ensures
        drain(drain(pending).1) == (Seq::<Command>::empty(), drain(pending).1),
    decreases pending.len(),
{
    let found = decode(pending);
    if !(found.0 is Incomplete || found.1 == 0 || found.1 > pending.len()) {
        lemma_drain_settles(pending.skip(found.1 as int));
    }
}

/// Taking the commands out of `x`, and then out of what stays behind with `q`
/// after it, gives the commands of `x + q` up to the cutting of text runs, and
/// leaves the same behind.
proof fn lemma_drain_in_two(x: Seq<Seq<char>>, q: Seq<Seq<char>>)
    ensures
        join_text(drain(x).0 + drain(drain(x).1 + q).0) == join_text(drain(x + q).0),
        drain(drain(x).1 + q).1 == drain(x + q).1,
    decreases x.len(),
{
    let found = decode(x);
    lemma_decode_bounds(x);
    lemma_decode_bounds(x + q);
    lemma_run_extend(x, q, Phase::Start, 0);
    if found.0 is Incomplete {
        assert(drain(x).0 + drain(x + q).0 =~= drain(x + q).0);
    } else {
        let n = found.1 as int;
        match run(x, Phase::Start, 0) {
            Outcome::Done(command, _) => {
                assert(decode(x + q) == found);
                assert((x + q).skip(n) =~= x.skip(n) + q);
                lemma_drain_in_two(x.skip(n), q);
                let a = drain(x.skip(n)).0;
                let b = drain(drain(x.skip(n)).1 + q).0;
                let c = drain(x.skip(n) + q).0;
                assert(drain(x).0 + b =~= seq![command] + (a + b));
                assert((seq![command] + (a + b)).drop_first() =~= a + b);
                assert((seq![command] + c).drop_first() =~= c);
            },
            Outcome::Suspended(last) => {
                let t = last->Text_0;
                assert(n == x.len());
                assert(x.skip(n) =~= Seq::<Seq<char>>::empty());
                assert(drain(x.skip(n)) == (Seq::<Command>::empty(), Seq::<Seq<char>>::empty()));
                assert(drain(x).0 =~= seq![Command::Text(t)]);
                assert(drain(x).1 + q =~= q);
                if q.len() == 0 {
                    assert(x + q =~= x);
                    assert(drain(q).0 =~= Seq::<Command>::empty());
                    assert(drain(x).0 + drain(q).0 =~= drain(x).0);
                } else if is_escape(q[0]) {
                    assert((x + q)[n] == q[0]);
                    assert(run(x + q, last, n) == Outcome::Done(Command::Text(t), n as nat));
                    assert((x + q).skip(n) =~= q);
                    assert(drain(x + q).0 =~= seq![Command::Text(t)] + drain(q).0);
                } else {
                    assert((x + q)[n] == q[0]);
                    assert(t + q[0] =~= t + q[0]);
                    lemma_text_shift(x, q, t, q[0], 1);
                    lemma_decode_bounds(q);
                    assert(run(q, Phase::Start, 0) == run(q, Phase::Text(q[0]), 1));
                    assert(run(x + q, last, n) == run(x + q, Phase::Text(t + q[0]), n + 1));
                    let s = decode(q).0->Text_0;
                    let m = decode(q).1 as int;
                    assert(decode(q).0 == Command::Text(s));
                    assert(decode(x + q) == (Command::Text(t + s), (n + m) as nat));
                    assert((x + q).skip(n + m) =~= q.skip(m));
                    let rest = drain(q.skip(m)).0;
                    assert(drain(q).0 =~= seq![Command::Text(s)] + rest);
                    assert(drain(x + q).0 =~= seq![Command::Text(t + s)] + rest);
                    lemma_join_two_texts(t, s, rest);
                    assert(drain(x).0 + drain(q).0 =~= seq![Command::Text(t)] + (seq![
                        Command::Text(s),
                    ] + rest));
                }
            },
        }
    }
}

proof fn lemma_feed_from(pending: Seq<Seq<char>>, pieces: Seq<Seq<Seq<char>>>)
    requires
        drain(pending) == (Seq::<Command>::empty(), pending),
    ensures
        join_text(feed_from(pending, pieces).0) == join_text(drain(pending + pieces.flatten()).0),
        feed_from(pending, pieces).1 == drain(pending + pieces.flatten()).1,
    decreases pieces.len(),
{
    if pieces.len() == 0 {
        assert(pending + pieces.flatten() =~= pending);
    } else {
        let x = pending + pieces.first();
        let q = pieces.drop_first().flatten();
        let now = drain(x);
        lemma_drain_settles(x);
        lemma_feed_from(now.1, pieces.drop_first());
        lemma_drain_in_two(x, q);
        assert(x + q =~= pending + pieces.flatten());
        lemma_join_text_after(
            now.0,
            feed_from(now.1, pieces.drop_first()).0,
            drain(now.1 + q).0,
        );
    }
}

/// Decoding a whole input never gives two text runs one after the other.
pub proof fn lemma_drain_text_runs_whole(pending: Seq<Seq<char>>)
    ensures
        join_text(drain(pending).0) == drain(pending).0,
    decreases pending.len(),
{
    let found = decode(pending);
    lemma_decode_bounds(pending);
    if !(found.0 is Incomplete) {
        let n = found.1 as int;
        let rest = pending.skip(n);
        lemma_drain_text_runs_whole(rest);
        let later = drain(rest).0;
        assert((seq![found.0] + later).drop_first() =~= later);
        if found.0 is Text && later.len() > 0 {
            lemma_decode_bounds(rest);
            assert(rest.len() > 0);
            assert(later.first() == decode(rest).0);
            match run(pending, Phase::Start, 0) {
                Outcome::Done(_, _) => {
                    lemma_text_ends_at_escape(pending, Phase::Start, 0);
                    assert(rest[0] == pending[n]);
                    lemma_escape_is_not_text(rest);
                },
                Outcome::Suspended(_) => {},
            }
        }
    }
}

proof fn lemma_text_ends_at_escape(clusters: Seq<Seq<char>>, phase: Phase, k: int)
    requires
        0 <= k <= clusters.len(),
        reachable(phase),
        depth(phase) <= k,
    ensures
        run(clusters, phase, k) matches Outcome::Done(command, m) ==> (command is Text ==> m
            < clusters.len() && is_escape(clusters[m as int])),
    decreases clusters.len() - k,
{
    if k < clusters.len() {
        lemma_step_reachable(phase, clusters[k]);
        lemma_step_depth(phase, clusters[k]);
        match step(phase, clusters[k]) {
            Transition::Continue(next) => {
                lemma_text_ends_at_escape(clusters, next, k + 1);
            },
            Transition::Done(_, _) => {},
        }
    }
}

proof fn lemma_join_text_whole(commands: Seq<Command>)
    requires
        text_runs_whole(commands),
    ensures
        join_text(commands) == commands,
    decreases commands.len(),
{
    if commands.len() > 0 {
        let rest = commands.drop_first();
        assert forall|i: int| 0 <= i < rest.len() - 1 implies !(#[trigger] rest[i] is Text && rest[i
            + 1] is Text) by {
            assert(rest[i] == commands[i + 1]);
            assert(rest[i + 1] == commands[i + 2]);
        }
        lemma_join_text_whole(rest);
        if rest.len() > 0 {
            assert(rest.first() == commands[1]);
            assert(!(commands[0] is Text && commands[1] is Text));
        }
        assert(seq![commands.first()] + rest =~= commands);
    }
}

proof fn lemma_one_by_one_flatten(clusters: Seq<Seq<char>>)
    ensures
        one_by_one(clusters).flatten() == clusters,
    decreases clusters.len(),
{
    if clusters.len() == 0 {
        assert(one_by_one(clusters).flatten() =~= clusters);
    } else {
        assert(one_by_one(clusters).drop_first() =~= one_by_one(clusters.drop_first()));
        lemma_one_by_one_flatten(clusters.drop_first());
        assert(one_by_one(clusters).first() + clusters.drop_first() =~= clusters);
    }
}

/// Input fed in pieces gives the commands of the whole input, with the parts
/// of each cut text run joined again, and leaves the same clusters behind.
pub proof fn law_pieces(pieces: Seq<Seq<Seq<char>>>)
    ensures
        join_text(feed_all(pieces).0) == drain(pieces.flatten()).0,
        feed_all(pieces).1 == drain(pieces.flatten()).1,
{
    let nothing = Seq::<Seq<char>>::empty();
    assert(drain(nothing) == (Seq::<Command>::empty(), nothing));
    lemma_feed_from(nothing, pieces);
    assert(nothing + pieces.flatten() =~= pieces.flatten());
    lemma_drain_text_runs_whole(pieces.flatten());
}

/// Input fed one cluster at a time, with commands taken after each cluster,
/// gives the same commands in the same order as the input fed whole, provided
/// that the pieces cut no text run, which shows in no two text runs coming out
/// one after the other.
pub proof fn law_one_at_a_time(clusters: Seq<Seq<char>>)
    requires
        text_runs_whole(feed_all(one_by_one(clusters)).0),
    ensures
        feed_all(one_by_one(clusters)).0 == drain(clusters).0,
        feed_all(one_by_one(clusters)).1 == drain(clusters).1,
{
    lemma_one_by_one_flatten(clusters);
    law_pieces(one_by_one(clusters));
    lemma_join_text_whole(feed_all(one_by_one(clusters)).0);
}

} // verus!
