use ansi_escaper::{AnsiEscaper, AnsiType, CSIType, OSCType, ToAnsi};
use unicode_segmentation::UnicodeSegmentation;

fn csi(kind: CSIType) -> AnsiType {
    AnsiType::CSI { kind }
}

fn text(run: &str) -> AnsiType {
    AnsiType::Text(String::from(run))
}

/// Takes commands until the decoder answers `Incomplete`.
fn take_all(escaper: &mut AnsiEscaper, out: &mut Vec<AnsiType>) {
    loop {
        let command = escaper.parse_next();
        if command == AnsiType::Incomplete {
            return;
        }
        out.push(command);
    }
}

fn whole(input: &str) -> Vec<AnsiType> {
    let mut escaper = AnsiEscaper::new();
    let mut out = Vec::new();
    escaper.new_text(input);
    take_all(&mut escaper, &mut out);
    out
}

fn in_pieces(pieces: &[&str]) -> Vec<AnsiType> {
    let mut escaper = AnsiEscaper::new();
    let mut out = Vec::new();
    for piece in pieces {
        escaper.new_text(piece);
        take_all(&mut escaper, &mut out);
    }
    out
}

fn one_at_a_time(input: &str) -> Vec<AnsiType> {
    let mut escaper = AnsiEscaper::new();
    let mut out = Vec::new();
    for cluster in input.graphemes(false) {
        escaper.new_graphemes(vec![String::from(cluster)]);
        take_all(&mut escaper, &mut out);
    }
    out
}

/// Makes one run of every stretch of neighbouring text runs.
fn joined(commands: Vec<AnsiType>) -> Vec<AnsiType> {
    let mut out: Vec<AnsiType> = Vec::new();
    for command in commands {
        let both_text = matches!((out.last(), &command), (Some(AnsiType::Text(_)), AnsiType::Text(_)));
        if both_text {
            if let (Some(AnsiType::Text(run)), AnsiType::Text(more)) = (out.last_mut(), &command) {
                run.push_str(more);
            }
        } else {
            out.push(command);
        }
    }
    out
}

#[test]
fn fresh_decoder_is_incomplete() {
    let mut escaper = AnsiEscaper::new();
    assert_eq!(escaper.parse_next(), AnsiType::Incomplete);
    assert_eq!(escaper.parse_next(), AnsiType::Incomplete);
    escaper.new_text("");
    assert_eq!(escaper.parse_next(), AnsiType::Incomplete);
}

#[test]
fn commands_come_out_in_order() {
    assert_eq!(
        whole("ab\x1B[2Jcd\x1B]0;t\x07\x1B[?25l\x1Bcz"),
        vec![
            text("ab"),
            csi(CSIType::ED(2)),
            text("cd"),
            AnsiType::OSC { kind: OSCType::WindowTitle(String::from("t")) },
            csi(CSIType::DECTCEM(false)),
            AnsiType::ST,
            text("z"),
        ]
    );
}

#[test]
fn text_and_the_escape_after_it() {
    let mut escaper = AnsiEscaper::new();
    escaper.new_text("hello\x1B[");
    assert_eq!(escaper.parse_next(), text("hello"));
    assert_eq!(escaper.parse_next(), AnsiType::Incomplete);
    escaper.new_text("2");
    assert_eq!(escaper.parse_next(), AnsiType::Incomplete);
    escaper.new_text("Jx");
    assert_eq!(escaper.parse_next(), csi(CSIType::ED(2)));
    assert_eq!(escaper.parse_next(), text("x"));
    assert_eq!(escaper.parse_next(), AnsiType::Incomplete);
}

#[test]
fn incomplete_loses_nothing() {
    let mut escaper = AnsiEscaper::new();
    escaper.new_text("\x1B]0;long ti");
    for _ in 0..3 {
        assert_eq!(escaper.parse_next(), AnsiType::Incomplete);
    }
    escaper.new_text("tle\x1B");
    assert_eq!(escaper.parse_next(), AnsiType::Incomplete);
    escaper.new_text("\\");
    assert_eq!(
        escaper.parse_next(),
        AnsiType::OSC { kind: OSCType::WindowTitle(String::from("long title")) }
    );
    assert_eq!(escaper.parse_next(), AnsiType::Incomplete);
}

#[test]
fn broken_sequence_leaves_the_escape_that_broke_it() {
    assert_eq!(
        whole("\x1B[1\x1B[2Jx"),
        vec![
            AnsiType::Unknown(String::from("Illegal character \x1B found in escape sequence")),
            csi(CSIType::ED(2)),
            text("x"),
        ]
    );
}

#[test]
fn settled_sequence_waits_for_one_more_cluster() {
    let mut escaper = AnsiEscaper::new();
    escaper.new_text("\x1Bm");
    assert_eq!(escaper.parse_next(), AnsiType::Incomplete);
    escaper.new_text("\x1B");
    assert_eq!(
        escaper.parse_next(),
        AnsiType::Unknown(String::from("Unknown ansi escape char: m"))
    );
    assert_eq!(escaper.parse_next(), AnsiType::Incomplete);
    escaper.new_text("c!");
    assert_eq!(escaper.parse_next(), AnsiType::ST);
    assert_eq!(escaper.parse_next(), text("!"));
}

#[test]
fn one_cluster_at_a_time_gives_the_same_commands() {
    let inputs = [
        "\x1B[1;1H\x1B]0;My Title\x07\x1B[?25h\x1B[2J",
        "a\x1B[3Ab\x1B[Kc\x1B]2;t\x1B\\d\x1B[1;31;42m",
        "\x1B[5z\x1B>\x1Bq\x1B[1\n\x1B[\x1B[A\x1Bc\x1B[",
        "\x1B[12;34",
        "",
    ];
    for input in inputs {
        assert_eq!(one_at_a_time(input), whole(input));
    }
}

#[test]
fn pieces_cut_text_runs_and_nothing_else() {
    let input = "hello\x1B[2Jwide world\x1B]0;a title\x07e\u{301}nd";
    assert_eq!(
        whole(input),
        vec![
            text("hello"),
            csi(CSIType::ED(2)),
            text("wide world"),
            AnsiType::OSC { kind: OSCType::WindowTitle(String::from("a title")) },
            text("e\u{301}nd"),
        ]
    );
    assert_eq!(
        in_pieces(&["hel", "lo\x1B[2", "Jwide", " world\x1B]0;a ti", "tle\x07e\u{301}", "nd"]),
        vec![
            text("hel"),
            text("lo"),
            csi(CSIType::ED(2)),
            text("wide"),
            text(" world"),
            AnsiType::OSC { kind: OSCType::WindowTitle(String::from("a title")) },
            text("e\u{301}"),
            text("nd"),
        ]
    );
    assert_eq!(joined(one_at_a_time(input)), whole(input));
    assert_eq!(
        joined(in_pieces(&["hel", "lo\x1B[2", "Jwide", " world\x1B]0;a ti", "tle\x07e\u{301}", "nd"])),
        whole(input)
    );
}

#[test]
fn clusters_can_be_fed_as_they_are() {
    let mut escaper = AnsiEscaper::new();
    escaper.new_graphemes(vec![String::from("\x1B"), String::from("[")]);
    escaper.new_graphemes(Vec::new());
    assert_eq!(escaper.parse_next(), AnsiType::Incomplete);
    escaper.new_graphemes(vec![String::from("4"), String::from("C"), String::from("ok")]);
    assert_eq!(escaper.parse_next(), csi(CSIType::CUF(4)));
    assert_eq!(escaper.parse_next(), text("ok"));
    assert_eq!(escaper.parse_next(), AnsiType::Incomplete);
}

#[test]
fn decoder_made_from_text() {
    let mut escaper = "\x1B[4;2Hhi".to_ansi();
    assert_eq!(escaper.parse_next(), csi(CSIType::CUP(4, 2)));
    assert_eq!(escaper.parse_next(), text("hi"));
    assert_eq!(escaper.parse_next(), AnsiType::Incomplete);
}

#[test]
fn long_input_in_many_pieces() {
    let mut escaper = AnsiEscaper::new();
    let mut out = Vec::new();
    for round in 0..200 {
        escaper.new_text("\x1B[");
        take_all(&mut escaper, &mut out);
        escaper.new_text(format!("{}", round).as_str());
        take_all(&mut escaper, &mut out);
        escaper.new_text("Cx");
        take_all(&mut escaper, &mut out);
    }
    assert_eq!(out.len(), 400);
    assert_eq!(out[0], csi(CSIType::CUF(0)));
    assert_eq!(out[1], text("x"));
    assert_eq!(out[398], csi(CSIType::CUF(199)));
    assert_eq!(out[399], text("x"));
}

/// A small generator of numbers that look random and are the same on every
/// run.
struct Dice(u64);

impl Dice {
    fn roll(&mut self, sides: usize) -> usize {
        self.0 = self.0.wrapping_mul(6364136223846793005).wrapping_add(1442695040888963407);
        ((self.0 >> 33) as usize) % sides
    }

    fn input(&mut self) -> String {
        let alphabet = [
            '\x1B', '\x1B', '\x1B', '[', '[', ']', ';', ';', '0', '1', '2', '5', '9', '?', 'A',
            'H', 'J', 'm', 'h', 'l', '\x07', '\\', 'c', 'N', '>', 'x', ' ', '\n', '\u{e9}',
        ];
        let len = self.roll(14);
        (0..len).map(|_| alphabet[self.roll(alphabet.len())]).collect()
    }
}

#[test]
fn feeding_in_pieces_agrees_with_feeding_whole_on_many_inputs() {
    let mut dice = Dice(2024);
    for _ in 0..3000 {
        let input = dice.input();
        let expected = whole(input.as_str());
        assert_eq!(joined(one_at_a_time(input.as_str())), expected, "input {:?}", input);

        let chars: Vec<char> = input.chars().collect();
        let mut pieces: Vec<String> = Vec::new();
        let mut at = 0;
        while at < chars.len() {
            let take = 1 + dice.roll(4);
            let end = usize::min(chars.len(), at + take);
            pieces.push(chars[at..end].iter().collect());
            at = end;
        }
        let borrowed: Vec<&str> = pieces.iter().map(|piece| piece.as_str()).collect();
        assert_eq!(joined(in_pieces(&borrowed)), expected, "input {:?}", input);

        let texts_whole = one_at_a_time(input.as_str())
            .windows(2)
            .all(|pair| !matches!(pair, [AnsiType::Text(_), AnsiType::Text(_)]));
        if texts_whole {
            assert_eq!(one_at_a_time(input.as_str()), expected, "input {:?}", input);
        }
    }
}

#[test]
fn first_command_of_a_decoder_is_that_of_the_snippet_on_many_inputs() {
    let mut dice = Dice(7);
    for _ in 0..3000 {
        let input = dice.input();
        let (command, consumed) = ansi_escaper::escape(input.as_str());
        let clusters = input.graphemes(false).count();
        assert_eq!(command == AnsiType::Incomplete, consumed == 0, "input {:?}", input);
        assert!(consumed <= clusters, "input {:?}", input);
        let mut escaper = AnsiEscaper::new();
        escaper.new_text(input.as_str());
        assert_eq!(escaper.parse_next(), command, "input {:?}", input);
        let rest: String = input.graphemes(false).skip(consumed).collect();
        let mut after = AnsiEscaper::new();
        after.new_text(rest.as_str());
        assert_eq!(escaper.parse_next(), after.parse_next(), "input {:?}", input);
    }
}
