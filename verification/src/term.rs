//! A terminal that is driven by decoded commands.
//!
//! The terminal itself is whatever implements [`TermInterface`]: a screen, a
//! serial console, a recorder. [`Term`] owns one, decodes the text written to
//! it and calls the method that belongs to each command.
//!
//! What a terminal does with a call is its own business. What can be said
//! here is which calls reach it, and that is said over a record of the calls
//! received, which a terminal may keep for proofs ([`TermInterface::record`]).
//! A terminal that keeps none, as one written in plain Rust does, is called in
//! the same way, and nothing is claimed of it.

use crate::command::{AnsiType, CSIType, Command, CsiOp, OSCType, OscOp, naturals};
use crate::escaper::AnsiEscaper;
use crate::grapheme::grapheme_clusters;
use crate::machine::decode;
use crate::stream::{drain, lemma_decode_bounds, lemma_drain_settles};
use vstd::prelude::*;

verus! {

/// One call that a terminal has received, as a mathematical value.
pub enum TermCall {
    CompletedRender,
    Write(Seq<char>),
    GotoX(nat),
    GotoY(nat),
    MoveX(int),
    MoveY(int),
    EraseInDisplay(nat),
    EraseInLine(nat),
    ScrollUp(nat),
    ScrollDown(nat),
    InsertLine(nat),
    SelectGraphicsRendition(nat, Seq<nat>),
    SetTopBottomMargins(nat, nat),
    SetLeftRightMargins(nat, nat),
    SetCursorVisible(bool),
    UnknownCsi(Seq<char>),
    SetTitle(Seq<char>),
    UnknownOsc(Seq<char>),
    Unknown(Seq<char>),
}

/// Whether a terminal whose record was `before` has received exactly `calls`,
/// in order, when its record is `after`. Of a terminal that keeps no record
/// this holds whatever it has received.
pub open spec fn received(
    before: Option<Seq<TermCall>>,
    after: Option<Seq<TermCall>>,
    calls: Seq<TermCall>,
) -> bool {
    before matches Some(old_calls) ==> (after matches Some(new_calls) && new_calls =~= old_calls
        + calls)
}

/// A distance as a step in the positive direction: the distance itself, or
/// the largest step where it is larger.
pub open spec fn step_forward(n: nat) -> int {
    if n <= isize::MAX {
        n as int
    } else {
        isize::MAX as int
    }
}

/// The calls of a move by `x`, `y`.
pub open spec fn moved(x: int, y: int) -> Seq<TermCall> {
    seq![TermCall::MoveX(x), TermCall::MoveY(y)]
}

/// The calls of a move to `x`, `y`.
pub open spec fn placed(x: nat, y: nat) -> Seq<TermCall> {
    seq![TermCall::GotoX(x), TermCall::GotoY(y)]
}

/// The calls that a terminal receives for a control-sequence operation.
pub open spec fn csi_calls(op: CsiOp) -> Seq<TermCall> {
    match op {
        CsiOp::CUU(n) => moved(0, -step_forward(n)),
        CsiOp::CUD(n) => moved(0, step_forward(n)),
        CsiOp::CUF(n) => moved(step_forward(n), 0),
        CsiOp::CUB(n) => moved(-step_forward(n), 0),
        CsiOp::CNL(n) => seq![TermCall::GotoX(1), TermCall::MoveY(step_forward(n))],
        CsiOp::CPL(n) => seq![TermCall::GotoX(1), TermCall::MoveY(-step_forward(n))],
        CsiOp::CHA(n) => seq![TermCall::GotoY(n)],
        CsiOp::CVA(n) => seq![TermCall::GotoX(n)],
        CsiOp::CUP(n, m) => placed(n, m),
        CsiOp::ED(n) => seq![TermCall::EraseInDisplay(n)],
        CsiOp::EL(n) => seq![TermCall::EraseInLine(n)],
        CsiOp::SU(n) => seq![TermCall::ScrollUp(n)],
        CsiOp::SD(n) => seq![TermCall::ScrollDown(n)],
        CsiOp::IL(n) => seq![TermCall::InsertLine(n)],
        CsiOp::HVP(n, m) => placed(n, m),
        CsiOp::SGR(n, rest) => seq![TermCall::SelectGraphicsRendition(n, rest)],
        CsiOp::DECTCEM(show) => seq![TermCall::SetCursorVisible(show)],
        CsiOp::DECSTBM(top, bot) => seq![TermCall::SetTopBottomMargins(top, bot)],
        CsiOp::DECSLRM(left, right) => seq![TermCall::SetLeftRightMargins(left, right)],
        CsiOp::Unknown(note) => seq![TermCall::UnknownCsi(note)],
    }
}

/// The calls that a terminal receives for a command. The sequences that come
/// down to a string terminator ask nothing of it, and `Incomplete` is no
/// command.
pub open spec fn calls_of(command: Command) -> Seq<TermCall> {
    match command {
        Command::Text(text) => seq![TermCall::Write(text)],
        Command::CSI(op) => csi_calls(op),
        Command::OSC(OscOp::WindowTitle(title)) => seq![TermCall::SetTitle(title)],
        Command::OSC(OscOp::Unknown(note)) => seq![TermCall::UnknownOsc(note)],
        Command::Unknown(note) => seq![TermCall::Unknown(note)],
        _ => Seq::empty(),
    }
}

/// The calls that a terminal receives for some commands, one after the other.
pub open spec fn calls_of_all(commands: Seq<Command>) -> Seq<TermCall>
    decreases commands.len(),
{
    if commands.len() == 0 {
        Seq::empty()
    } else {
        calls_of_all(commands.drop_last()) + calls_of(commands.last())
    }
}

/// Calls received one after the other are received together.
pub proof fn lemma_received_then(
    before: Option<Seq<TermCall>>,
    between: Option<Seq<TermCall>>,
    after: Option<Seq<TermCall>>,
    first: Seq<TermCall>,
    second: Seq<TermCall>,
)
    requires
        received(before, between, first),
        received(between, after, second),
    ensures
        received(before, after, first + second),
{
}

/// A distance as a step in the positive direction.
fn forward(n: usize) -> (step: isize)
    ensures
        step == step_forward(n as nat),
{
    if n <= isize::MAX as usize {
        n as isize
    } else {
        isize::MAX
    }
}

/// A distance as a step in the negative direction.
fn backward(n: usize) -> (step: isize)
    ensures
        step == -step_forward(n as nat),
{
    -forward(n)
}

/// What a terminal can do. `T` is the type of its framebuffer.
///
/// Positions count from 1: the top left of the screen is 1, 1. The cursor
/// movements have bodies that are made of the four plain moves; a terminal
/// may replace them, and one that keeps a record then records the plain moves
/// that the body here makes.
pub trait TermInterface<T> {
    /// The calls that the terminal has received, oldest first, if it keeps
    /// such a record for proofs. A terminal need not keep one.
    open spec fn record(&self) -> Option<Seq<TermCall>> {
        None
    }

    /// The framebuffer of a terminal that keeps a record.
    open spec fn frame(&self) -> T {
        arbitrary()
    }

    /// The framebuffer of the terminal.
    fn framebuffer(&self) -> (buffer: &T)
        ensures
            self.record() is Some ==> *buffer == self.frame(),
    ;

    /// Called when the framebuffer has been rendered.
    fn completed_render(&mut self)
        ensures
            received(old(self).record(), final(self).record(), seq![TermCall::CompletedRender]),
    ;

    /// Writes plain text at the cursor.
    fn write(&mut self, s: String)
        ensures
            received(old(self).record(), final(self).record(), seq![TermCall::Write(s@)]),
    ;

    /// Moves the cursor to the position `x` along the first axis.
    fn goto_x(&mut self, x: usize)
        ensures
            received(old(self).record(), final(self).record(), seq![TermCall::GotoX(x as nat)]),
    ;

    /// Moves the cursor to the position `y` along the second axis.
    fn goto_y(&mut self, y: usize)
        ensures
            received(old(self).record(), final(self).record(), seq![TermCall::GotoY(y as nat)]),
    ;

    /// Moves the cursor by `x` along the first axis.
    fn move_x(&mut self, x: isize)
        ensures
            received(old(self).record(), final(self).record(), seq![TermCall::MoveX(x as int)]),
    ;

    /// Moves the cursor by `y` along the second axis.
    fn move_y(&mut self, y: isize)
        ensures
            received(old(self).record(), final(self).record(), seq![TermCall::MoveY(y as int)]),
    ;

    /// Asks a terminal that collects its changes to show them. A terminal that
    /// shows each change at once has nothing to do here.
    fn draw(&mut self) {
    }

    /// Moves the cursor to `x`, `y`.
    fn goto(&mut self, x: usize, y: usize)
        ensures
            received(old(self).record(), final(self).record(), placed(x as nat, y as nat)),
    {
        self.goto_x(x);
        self.goto_y(y);
    }

    /// Moves the cursor by `x`, `y`.
    fn goto_rel(&mut self, x: isize, y: isize)
        ensures
            received(old(self).record(), final(self).record(), moved(x as int, y as int)),
    {
        self.move_x(x);
        self.move_y(y);
    }

    /// Moves the cursor up `n` cells.
    fn cursor_up(&mut self, n: usize)
        ensures
            received(
                old(self).record(),
                final(self).record(),
                moved(0, -step_forward(n as nat)),
            ),
    {
        self.goto_rel(0, backward(n));
    }

    /// Moves the cursor down `n` cells.
    fn cursor_down(&mut self, n: usize)
        ensures
            received(old(self).record(), final(self).record(), moved(0, step_forward(n as nat))),
    {
        self.goto_rel(0, forward(n));
    }

    /// Moves the cursor forward `n` cells.
    fn cursor_forward(&mut self, n: usize)
        ensures
            received(old(self).record(), final(self).record(), moved(step_forward(n as nat), 0)),
    {
        self.goto_rel(forward(n), 0);
    }

    /// Moves the cursor back `n` cells.
    fn cursor_back(&mut self, n: usize)
        ensures
            received(
                old(self).record(),
                final(self).record(),
                moved(-step_forward(n as nat), 0),
            ),
    {
        self.goto_rel(backward(n), 0);
    }

    /// Moves the cursor to the beginning of the line `n` lines down.
    fn cursor_next_line(&mut self, n: usize)
        ensures
            received(
                old(self).record(),
                final(self).record(),
                seq![TermCall::GotoX(1), TermCall::MoveY(step_forward(n as nat))],
            ),
    {
        self.goto_x(1);
        self.move_y(forward(n));
    }

    /// Moves the cursor to the beginning of the line `n` lines up.
    fn cursor_prev_line(&mut self, n: usize)
        ensures
            received(
                old(self).record(),
                final(self).record(),
                seq![TermCall::GotoX(1), TermCall::MoveY(-step_forward(n as nat))],
            ),
    {
        self.goto_x(1);
        self.move_y(backward(n));
    }

    /// Moves the cursor to column `n`.
    fn cursor_horizontal_absolute(&mut self, n: usize)
        ensures
            received(old(self).record(), final(self).record(), seq![TermCall::GotoY(n as nat)]),
    {
        self.goto_y(n);
    }

    /// Moves the cursor to row `n`.
    fn cursor_vertical_absolute(&mut self, n: usize)
        ensures
            received(old(self).record(), final(self).record(), seq![TermCall::GotoX(n as nat)]),
    {
        self.goto_x(n);
    }

    /// Moves the cursor to row `n`, column `m`.
    fn cursor_position(&mut self, n: usize, m: usize)
        ensures
            received(old(self).record(), final(self).record(), placed(n as nat, m as nat)),
    {
        self.goto(n, m);
    }

    /// Clears part of the screen: from the cursor to the end for 0, from the
    /// cursor to the beginning for 1, all of it for 2, and the scrollback
    /// buffer too for 3. The cursor stays.
    fn erase_in_display(&mut self, n: usize)
        ensures
            received(
                old(self).record(),
                final(self).record(),
                seq![TermCall::EraseInDisplay(n as nat)],
            ),
    ;

    /// Clears part of the line: from the cursor to the end for 0, from the
    /// cursor to the beginning for 1, all of it for 2. The cursor stays.
    fn erase_in_line(&mut self, n: usize)
        ensures
            received(
                old(self).record(),
                final(self).record(),
                seq![TermCall::EraseInLine(n as nat)],
            ),
    ;

    /// Scrolls the page up by `n` lines.
    fn scroll_up(&mut self, n: usize)
        ensures
            received(old(self).record(), final(self).record(), seq![TermCall::ScrollUp(n as nat)]),
    ;

    /// Scrolls the page down by `n` lines.
    fn scroll_down(&mut self, n: usize)
        ensures
            received(
                old(self).record(),
                final(self).record(),
                seq![TermCall::ScrollDown(n as nat)],
            ),
    ;

    /// Inserts `n` blank lines at the cursor.
    fn insert_line(&mut self, n: usize)
        ensures
            received(
                old(self).record(),
                final(self).record(),
                seq![TermCall::InsertLine(n as nat)],
            ),
    ;

    /// Moves the cursor to row `n`, column `m`.
    fn horizontal_vertical_position(&mut self, n: usize, m: usize)
        ensures
            received(old(self).record(), final(self).record(), placed(n as nat, m as nat)),
    {
        self.goto(n, m);
    }

    /// Sets colours and style of the characters that follow: the first
    /// rendition code, then the codes after it.
    fn select_graphics_rendition(&mut self, intensity: usize, attrs: Vec<usize>)
        ensures
            received(
                old(self).record(),
                final(self).record(),
                seq![TermCall::SelectGraphicsRendition(intensity as nat, naturals(attrs@))],
            ),
    ;

    /// Sets the top and bottom margins.
    fn set_top_bottom_margins(&mut self, top: usize, bot: usize)
        ensures
            received(
                old(self).record(),
                final(self).record(),
                seq![TermCall::SetTopBottomMargins(top as nat, bot as nat)],
            ),
    ;

    /// Sets the left and right margins.
    fn set_left_right_margins(&mut self, left: usize, right: usize)
        ensures
            received(
                old(self).record(),
                final(self).record(),
                seq![TermCall::SetLeftRightMargins(left as nat, right as nat)],
            ),
    ;

    /// Shows or hides the cursor.
    fn set_cursor_visible(&mut self, show: bool)
        ensures
            received(
                old(self).record(),
                final(self).record(),
                seq![TermCall::SetCursorVisible(show)],
            ),
    ;

    /// The row and the column of the cursor.
    fn device_status_report(&mut self) -> (usize, usize);

    /// A control sequence that is not known.
    fn unknown_csi(&mut self, s: String)
        ensures
            received(old(self).record(), final(self).record(), seq![TermCall::UnknownCsi(s@)]),
    ;

    /// Sets the title of the terminal window.
    fn set_title(&mut self, title: String)
        ensures
            received(old(self).record(), final(self).record(), seq![TermCall::SetTitle(title@)]),
    ;

    /// An operating-system command that is not known.
    fn unknown_osc(&mut self, s: String)
        ensures
            received(old(self).record(), final(self).record(), seq![TermCall::UnknownOsc(s@)]),
    ;

    /// A sequence that is not known.
    fn unknown(&mut self, s: String)
        ensures
            received(old(self).record(), final(self).record(), seq![TermCall::Unknown(s@)]),
    ;
}

/// Whether a command asks anything of a terminal. The sequences that come
/// down to a string terminator ask nothing, and `Incomplete` is no command.
pub open spec fn concerns_terminal(command: Command) -> bool {
    command is Text || command is CSI || command is OSC || command is Unknown
}

/// Carries out one control-sequence operation on a terminal.
fn perform_csi<T>(ti: &mut Box<dyn TermInterface<T>>, kind: CSIType)
    ensures
        received(old(ti).record(), final(ti).record(), csi_calls(kind@)),
{
    match kind {
        CSIType::CUU(n) => ti.cursor_up(n),
        CSIType::CUD(n) => ti.cursor_down(n),
        CSIType::CUF(n) => ti.cursor_forward(n),
        CSIType::CUB(n) => ti.cursor_back(n),
        CSIType::CNL(n) => ti.cursor_next_line(n),
        CSIType::CPL(n) => ti.cursor_prev_line(n),
        CSIType::CHA(n) => ti.cursor_horizontal_absolute(n),
        CSIType::CVA(n) => ti.cursor_vertical_absolute(n),
        CSIType::CUP(n, m) => ti.cursor_position(n, m),
        CSIType::ED(n) => ti.erase_in_display(n),
        CSIType::EL(n) => ti.erase_in_line(n),
        CSIType::SU(n) => ti.scroll_up(n),
        CSIType::SD(n) => ti.scroll_down(n),
        CSIType::IL(n) => ti.insert_line(n),
        CSIType::HVP(n, m) => ti.horizontal_vertical_position(n, m),
        CSIType::SGR(n, rest) => ti.select_graphics_rendition(n, rest),
        CSIType::DECTCEM(show) => ti.set_cursor_visible(show),
        CSIType::DECSTBM(top, bot) => ti.set_top_bottom_margins(top, bot),
        CSIType::DECSLRM(left, right) => ti.set_left_right_margins(left, right),
        CSIType::Unknown(note) => ti.unknown_csi(note),
    }
}

/// Carries out one command on a terminal, and says whether it asked
/// anything of it.
fn perform<T>(ti: &mut Box<dyn TermInterface<T>>, command: AnsiType) -> (called: bool)
    ensures
        called == concerns_terminal(command@),
        received(old(ti).record(), final(ti).record(), calls_of(command@)),
{
    match command {
        AnsiType::Text(text) => {
            ti.write(text);
            true
        },
        AnsiType::CSI { kind } => {
            perform_csi(ti, kind);
            true
        },
        AnsiType::OSC { kind } => {
            match kind {
                OSCType::WindowTitle(title) => ti.set_title(title),
                OSCType::Unknown(note) => ti.unknown_osc(note),
            }
            true
        },
        AnsiType::Unknown(note) => {
            ti.unknown(note);
            true
        },
        _ => false,
    }
}

/// A value in a field of generic type. Verus knows nothing of a boxed trait
/// object once it is written into a field of its own type; written into a
/// field of generic type it stays the value that it was.
struct Held<S> {
    inner: S,
}

/// Puts a value into such a field.
fn hold<S>(inner: S) -> (held: Held<S>)
    ensures
        held.inner == inner,
{
    Held { inner }
}

/// A terminal together with the decoder of what is written to it.
#[verifier::reject_recursive_types(T)]
pub struct Term<T> {
    ti: Held<Box<dyn TermInterface<T>>>,
    escaper: AnsiEscaper,
}

impl<T> Term<T> {
    /// The clusters that have been written and that belong to a sequence
    /// which is not complete yet.
    pub closed spec fn pending(&self) -> Seq<Seq<char>> {
        self.escaper.pending()
    }

    /// The decoder of the terminal is in order.
    pub closed spec fn wf(&self) -> bool {
        self.escaper.wf()
    }

    /// The record of the terminal, if it keeps one.
    pub closed spec fn record(&self) -> Option<Seq<TermCall>> {
        self.ti.inner.record()
    }

    /// The framebuffer of a terminal that keeps a record.
    pub closed spec fn frame(&self) -> T {
        self.ti.inner.frame()
    }

    /// A terminal with nothing pending.
    pub fn new(ti: Box<dyn TermInterface<T>>) -> (term: Self)
        ensures
            term.wf(),
            term.pending() == Seq::<Seq<char>>::empty(),
            term.record() == ti.record(),
            term.frame() == ti.frame(),
    {
        let held = hold(ti);
        Term { ti: held, escaper: AnsiEscaper::new() }
    }

    /// The framebuffer of the terminal.
    pub fn framebuffer(&self) -> (buffer: &T)
        ensures
            self.record() is Some ==> *buffer == self.frame(),
    {
        self.ti.inner.framebuffer()
    }

    /// Tells the terminal that its framebuffer has been rendered.
    pub fn completed_render(&mut self)
        ensures
            final(self).wf() == old(self).wf(),
            final(self).pending() == old(self).pending(),
            received(old(self).record(), final(self).record(), seq![TermCall::CompletedRender]),
    {
        self.ti.inner.completed_render();
    }

    /// Writes text that may hold escape sequences: decodes it, behind what is
    /// pending, and carries out every command on the terminal, in order. What
    /// stays pending is the beginning of a sequence that is not complete.
    pub fn write(&mut self, s: &str)
        requires
            old(self).wf(),
        ensures
            final(self).wf(),
            final(self).pending() == drain(old(self).pending() + grapheme_clusters(s@)).1,
            decode(final(self).pending()) == (Command::Incomplete, 0nat),
            received(
                old(self).record(),
                final(self).record(),
                calls_of_all(drain(old(self).pending() + grapheme_clusters(s@)).0),
            ),
    {
        self.escaper.new_text(s);
        let ghost fed = self.escaper.pending();
        let ghost first = self.record();
        let ghost mut given = Seq::<Command>::empty();
        loop
            invariant
                self.escaper.wf(),
                drain(self.escaper.pending()).1 == drain(fed).1,
                given + drain(self.escaper.pending()).0 == drain(fed).0,
                received(first, self.record(), calls_of_all(given)),
            ensures
                self.escaper.wf(),
                self.escaper.pending() == drain(fed).1,
                given == drain(fed).0,
                received(first, self.record(), calls_of_all(given)),
            decreases self.escaper.pending().len(),
        {
            let ghost before = self.escaper.pending();
            let ghost so_far = self.record();
            proof {
                lemma_decode_bounds(before);
            }
            let command = self.escaper.parse_next();
            if let AnsiType::Incomplete = command {
                assert(before.skip(0) =~= before);
                assert(given + Seq::<Command>::empty() =~= given);
                break ;
            }
            perform(&mut self.ti.inner, command);
            proof {
                let rest = drain(self.escaper.pending()).0;
                assert(given.push(command@) + rest =~= given + (seq![command@] + rest));
                assert(given.push(command@).drop_last() =~= given);
                lemma_received_then(
                    first,
                    so_far,
                    self.record(),
                    calls_of_all(given),
                    calls_of(command@),
                );
                given = given.push(command@);
            }
        }
        proof {
            lemma_drain_settles(fed);
            lemma_decode_bounds(self.escaper.pending());
        }
    }
}

} // verus!
