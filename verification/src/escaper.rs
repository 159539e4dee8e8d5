//! Decoding: of a whole snippet at once, and of input that arrives in pieces.

use crate::command::{AnsiType, Command};
use crate::grapheme::{ESC, cluster_is_escape, grapheme_clusters, is_escape, split_graphemes};
use crate::laws::{
    law_text_passes_through, lemma_joined_holds_escape, lemma_joined_is_not_empty,
};
use crate::machine::{
    Outcome, Scan, ScanState, Step, decode, depth, lemma_resume, lemma_run_bounds,
    lemma_step_depth, lemma_suspended, run, step_state, trace,
};
use crate::stream::lemma_decode_bounds;
use vstd::prelude::*;
use vstd::string::*;

verus! {

/// The text that stands before the first lone `ESC`: all the text where there
/// is none.
pub open spec fn leading_text(clusters: Seq<Seq<char>>) -> Seq<char>
    decreases clusters.len(),
{
    if clusters.len() == 0 || is_escape(clusters.first()) {
        Seq::empty()
    } else {
        clusters.first() + leading_text(clusters.drop_first())
    }
}

/// Scans the clusters that `clusters` holds from index `base` on, beginning
/// with the one at `at` among them, in state `from`.
fn scan(clusters: &Vec<String>, base: usize, from: ScanState, at: usize) -> (found: Scan)
    requires
        base <= clusters.len(),
        at <= clusters.len() - base,
        depth(from@) <= at,
    ensures
        found@ == run(clusters.deep_view().skip(base as int), from@, at as int),
        found matches Scan::Done(_, consumed) ==> 0 < consumed <= clusters.len() - base,
{
    let ghost pending = clusters.deep_view().skip(base as int);
    let ghost first = from@;
    let mut state = from;
    let mut i: usize = at;
    proof {
        lemma_run_bounds(pending, first, at as int);
    }
    while i < clusters.len() - base
        invariant
            base <= clusters.len(),
            at <= i <= clusters.len() - base,
            pending == clusters.deep_view().skip(base as int),
            first == from@,
            depth(state@) <= i,
            run(pending, state@, i as int) == run(pending, first, at as int),
            run(pending, first, at as int) matches Outcome::Done(_, consumed) ==> 0 < consumed
                <= pending.len(),
        decreases clusters.len() - base - i,
    {
        assert(pending[i as int] == clusters[base + i]@);
        proof {
            lemma_step_depth(state@, pending[i as int]);
        }
        match step_state(state, clusters[base + i].as_str()) {
            Step::Continue(next) => {
                state = next;
                i = i + 1;
            },
            Step::Done(command, back) => {
                return Scan::Done(command, i + 1 - back);
            },
        }
    }
    Scan::Suspended(state)
}

/// Decodes the first command that `graphemes` hold, and says how many of the
/// clusters it is made of.
///
/// `Incomplete` comes with a count of zero: the clusters are a proper
/// beginning of a sequence. Every other command is made of at least one
/// cluster.
pub fn escape_graphemes(graphemes: &Vec<String>) -> (found: (AnsiType, usize))
    ensures
        (found.0@, found.1 as nat) == decode(graphemes.deep_view()),
        found.0@ is Incomplete <==> found.1 == 0,
        found.1 <= graphemes.len(),
{
    assert(graphemes.deep_view().skip(0) =~= graphemes.deep_view());
    proof {
        lemma_decode_bounds(graphemes.deep_view());
    }
    match scan(graphemes, 0, ScanState::Start, 0) {
        Scan::Done(command, consumed) => (command, consumed),
        Scan::Suspended(ScanState::Text(text)) => (AnsiType::Text(text), graphemes.len()),
        Scan::Suspended(_) => (AnsiType::Incomplete, 0),
    }
}

/// Decodes the first command in `s`, and says how many grapheme clusters of
/// `s` it is made of.
///
/// An empty snippet is `Incomplete`. A snippet without the character `ESC`
/// is one run of text, which is the snippet itself.
pub fn escape(s: &str) -> (found: (AnsiType, usize))
    ensures
        (found.0@, found.1 as nat) == decode(grapheme_clusters(s@)),
        found.0@ is Incomplete <==> found.1 == 0,
        found.1 <= grapheme_clusters(s@).len(),
        s@.len() == 0 ==> found.0@ is Incomplete,
        s@.len() > 0 && !s@.contains(ESC) ==> found.0@ == Command::Text(s@),
{
    let graphemes = split_graphemes(s);
    proof {
        let clusters = graphemes.deep_view();
        if s@.len() == 0 {
            if clusters.len() > 0 {
                assert(clusters[0] == graphemes[0]@);
                lemma_joined_is_not_empty(clusters);
            }
        } else if !s@.contains(ESC) {
            assert forall|i: int| 0 <= i < clusters.len() implies !is_escape(
                #[trigger] clusters[i],
            ) by {
                if is_escape(clusters[i]) {
                    lemma_joined_holds_escape(clusters, i);
                }
            }
            law_text_passes_through(clusters);
        }
    }
    escape_graphemes(&graphemes)
}

/// Joins the clusters that stand before the first lone `ESC`.
pub fn text_before_escape(graphemes: &Vec<String>) -> (text: String)
    ensures
        text@ == leading_text(graphemes.deep_view()),
{
    let ghost clusters = graphemes.deep_view();
    let mut text = String::new();
    let mut i: usize = 0;
    assert(clusters.skip(0) =~= clusters);
    assert(text@ + leading_text(clusters) =~= leading_text(clusters));
    while i < graphemes.len()
        invariant
            i <= graphemes.len(),
            clusters == graphemes.deep_view(),
            text@ + leading_text(clusters.skip(i as int)) == leading_text(clusters),
        decreases graphemes.len() - i,
    {
        let ghost rest = clusters.skip(i as int);
        assert(rest.first() == graphemes[i as int]@);
        assert(rest.drop_first() =~= clusters.skip(i + 1));
        if cluster_is_escape(graphemes[i].as_str()) {
            assert(text@ + Seq::<char>::empty() =~= text@);
            return text;
        }
        let ghost before = text@;
        text.append(graphemes[i].as_str());
        assert(text@ + leading_text(clusters.skip(i + 1)) =~= before + leading_text(rest));
        i = i + 1;
    }
    assert(text@ + Seq::<char>::empty() =~= text@);
    text
}

/// The text of `s` that stands before its first lone `ESC`: all of `s` where
/// it does not hold the character `ESC`.
pub fn read_until_escape_char(s: &str) -> (text: String)
    ensures
        text@ == leading_text(grapheme_clusters(s@)),
        !s@.contains(ESC) ==> text@ == s@,
{
    let graphemes = split_graphemes(s);
    proof {
        let clusters = graphemes.deep_view();
        if !s@.contains(ESC) {
            assert forall|i: int| 0 <= i < clusters.len() implies !is_escape(
                #[trigger] clusters[i],
            ) by {
                if is_escape(clusters[i]) {
                    lemma_joined_holds_escape(clusters, i);
                }
            }
            if clusters.len() > 0 {
                law_text_passes_through(clusters);
            }
        }
    }
    text_before_escape(&graphemes)
}

/// A decoder for input that arrives in pieces.
///
/// It keeps the clusters that no command has consumed yet, and the state in
/// which the scanner stopped, so that a sequence split over several pieces is
/// put together again and no cluster is scanned twice.
pub struct AnsiEscaper {
    graphemes: Vec<String>,
    head: usize,
    scanned: usize,
    state: ScanState,
}

impl AnsiEscaper {
    /// The clusters that have been fed and that no command has consumed.
    pub closed spec fn pending(&self) -> Seq<Seq<char>> {
        self.graphemes.deep_view().skip(self.head as int)
    }

    /// The decoder is in order: its state is the one the scanner reaches on
    /// the pending clusters it has already read.
    pub closed spec fn wf(&self) -> bool {
        &&& self.head <= self.graphemes.len()
        &&& self.scanned <= self.graphemes.len() - self.head
        &&& trace(self.pending().take(self.scanned as int)) == Some(self.state@)
    }

    /// A decoder with nothing pending.
    pub fn new() -> (fresh: Self)
        ensures
            fresh.wf(),
            fresh.pending() == Seq::<Seq<char>>::empty(),
    {
        let fresh = AnsiEscaper {
            graphemes: Vec::new(),
            head: 0,
            scanned: 0,
            state: ScanState::Start,
        };
        assert(fresh.pending() =~= Seq::<Seq<char>>::empty());
        assert(fresh.pending().take(0) =~= Seq::<Seq<char>>::empty());
        fresh
    }

    /// Appends clusters to the pending ones.
    pub fn new_graphemes(&mut self, graphemes: Vec<String>)
        requires
            old(self).wf(),
        ensures
            final(self).wf(),
            final(self).pending() == old(self).pending() + graphemes.deep_view(),
    {
        let ghost before = self.pending();
        if self.head > 0 {
            let rest = self.graphemes.split_off(self.head);
            self.graphemes = rest;
            self.head = 0;
            assert(self.pending() =~= before);
        }
        let mut incoming = graphemes;
        let ghost added = incoming.deep_view();
        self.graphemes.append(&mut incoming);
        assert(self.pending() =~= before + added);
        assert(self.pending().take(self.scanned as int) =~= before.take(self.scanned as int));
    }

    /// Appends the grapheme clusters of `text` to the pending ones.
    pub fn new_text(&mut self, text: &str)
        requires
            old(self).wf(),
        ensures
            final(self).wf(),
            final(self).pending() == old(self).pending() + grapheme_clusters(text@),
    {
        let graphemes = split_graphemes(text);
        self.new_graphemes(graphemes);
    }

    /// Decodes the next command from the pending clusters and removes the
    /// clusters it is made of. `Incomplete` removes none: feed more and try
    /// again.
    pub fn parse_next(&mut self) -> (command: AnsiType)
        requires
            old(self).wf(),
        ensures
            final(self).wf(),
            command@ == decode(old(self).pending()).0,
            decode(old(self).pending()).1 <= old(self).pending().len(),
            final(self).pending() == old(self).pending().skip(
                decode(old(self).pending()).1 as int,
            ),
    {
        let ghost pending = self.pending();
        let mut state = ScanState::Start;
        std::mem::swap(&mut self.state, &mut state);
        proof {
            lemma_resume(pending, self.scanned as int);
        }
        let found = scan(&self.graphemes, self.head, state, self.scanned);
        proof {
            if found is Suspended {
                lemma_suspended(pending, state@, self.scanned as int);
            }
            assert(pending.take(0) =~= Seq::<Seq<char>>::empty());
        }
        match found {
            Scan::Done(command, consumed) => {
                self.head = self.head + consumed;
                self.scanned = 0;
                assert(self.pending() =~= pending.skip(consumed as int));
                assert(self.pending().take(0) =~= Seq::<Seq<char>>::empty());
                command
            },
            Scan::Suspended(ScanState::Text(text)) => {
                self.head = self.graphemes.len();
                self.scanned = 0;
                assert(self.pending() =~= pending.skip(pending.len() as int));
                assert(self.pending().take(0) =~= Seq::<Seq<char>>::empty());
                AnsiType::Text(text)
            },
            Scan::Suspended(rest) => {
                self.state = rest;
                self.scanned = self.graphemes.len() - self.head;
                assert(self.pending() =~= pending.skip(0));
                assert(pending.take(pending.len() as int) =~= pending);
                AnsiType::Incomplete
            },
        }
    }
}

/// Text from which a decoder can be made.
pub trait ToAnsi {
    /// The text, as a sequence of code points.
    spec fn ansi_text(&self) -> Seq<char>;

    /// A decoder whose pending clusters are those of the text.
    fn to_ansi(&self) -> (escaper: AnsiEscaper)
        ensures
            escaper.wf(),
            escaper.pending() == grapheme_clusters(self.ansi_text()),
    ;
}

impl ToAnsi for &str {
    open spec fn ansi_text(&self) -> Seq<char> {
        self@
    }

    fn to_ansi(&self) -> (escaper: AnsiEscaper) {
        let mut escaper = AnsiEscaper::new();
        escaper.new_text(self);
        assert(Seq::<Seq<char>>::empty() + grapheme_clusters(self@) =~= grapheme_clusters(self@));
        escaper
    }
}

} // verus!
