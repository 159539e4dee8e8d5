use ansi_escaper::{Term, TermInterface};

struct Recorder {
    calls: Vec<String>,
    x: isize,
    y: isize,
}

impl Recorder {
    fn new() -> Self {
        Recorder { calls: Vec::new(), x: 1, y: 1 }
    }
}

impl TermInterface<Vec<String>> for Recorder {
    fn framebuffer(&self) -> &Vec<String> {
        &self.calls
    }

    fn completed_render(&mut self) {
        self.calls.push(String::from("completed_render"));
    }

    fn write(&mut self, s: String) {
        self.calls.push(format!("write {}", s));
    }

    fn goto_x(&mut self, x: usize) {
        self.x = x as isize;
        self.calls.push(format!("goto_x {}", x));
    }

    fn goto_y(&mut self, y: usize) {
        self.y = y as isize;
        self.calls.push(format!("goto_y {}", y));
    }

    fn move_x(&mut self, x: isize) {
        self.x += x;
        self.calls.push(format!("move_x {}", x));
    }

    fn move_y(&mut self, y: isize) {
        self.y += y;
        self.calls.push(format!("move_y {}", y));
    }

    fn erase_in_display(&mut self, n: usize) {
        self.calls.push(format!("erase_in_display {}", n));
    }

    fn erase_in_line(&mut self, n: usize) {
        self.calls.push(format!("erase_in_line {}", n));
    }

    fn scroll_up(&mut self, n: usize) {
        self.calls.push(format!("scroll_up {}", n));
    }

    fn scroll_down(&mut self, n: usize) {
        self.calls.push(format!("scroll_down {}", n));
    }

    fn insert_line(&mut self, n: usize) {
        self.calls.push(format!("insert_line {}", n));
    }

    fn select_graphics_rendition(&mut self, intensity: usize, attrs: Vec<usize>) {
        self.calls.push(format!("select_graphics_rendition {} {:?}", intensity, attrs));
    }

    fn set_top_bottom_margins(&mut self, top: usize, bot: usize) {
        self.calls.push(format!("set_top_bottom_margins {} {}", top, bot));
    }

    fn set_left_right_margins(&mut self, left: usize, right: usize) {
        self.calls.push(format!("set_left_right_margins {} {}", left, right));
    }

    fn set_cursor_visible(&mut self, show: bool) {
        self.calls.push(format!("set_cursor_visible {}", show));
    }

    fn device_status_report(&mut self) -> (usize, usize) {
        (self.x as usize, self.y as usize)
    }

    fn unknown_csi(&mut self, s: String) {
        self.calls.push(format!("unknown_csi {}", s));
    }

    fn set_title(&mut self, title: String) {
        self.calls.push(format!("set_title {}", title));
    }

    fn unknown_osc(&mut self, s: String) {
        self.calls.push(format!("unknown_osc {}", s));
    }

    fn unknown(&mut self, s: String) {
        self.calls.push(format!("unknown {}", s));
    }
}

fn written(pieces: &[&str]) -> Vec<String> {
    let mut term = Term::new(Box::new(Recorder::new()));
    for piece in pieces {
        term.write(piece);
    }
    term.framebuffer().clone()
}

#[test]
fn term_writes_text_and_moves_cursor() {
    assert_eq!(
        written(&["ab\x1B[3Acd\x1B[2J"]),
        vec!["write ab", "move_x 0", "move_y -3", "write cd", "erase_in_display 2"]
    );
}

#[test]
fn term_joins_a_sequence_split_over_two_writes() {
    assert_eq!(
        written(&["\x1B[1", ";7H", "\x1B]0;top\x07"]),
        vec!["goto_x 1", "goto_y 7", "set_title top"]
    );
}

#[test]
fn term_reports_what_it_does_not_know() {
    assert_eq!(
        written(&["\x1B[5z\x1B]9;x\x07\x1Bm "]),
        vec![
            "unknown_csi Unknown CSI command: z",
            "unknown_osc Unknown OSC command: 9;x",
            "unknown Unknown ansi escape char: m",
            "write  ",
        ]
    );
}

#[test]
fn term_passes_renditions_and_margins() {
    assert_eq!(
        written(&["\x1B[1;31;:m\x1B[2;9r\x1B[3;4s\x1B[?25l\x1B[?25h"]),
        vec![
            "select_graphics_rendition 1 [31, 0]",
            "set_top_bottom_margins 2 9",
            "set_left_right_margins 3 4",
            "set_cursor_visible false",
            "set_cursor_visible true",
        ]
    );
}

#[test]
fn term_completed_render_reaches_the_terminal() {
    let mut term = Term::new(Box::new(Recorder::new()));
    term.completed_render();
    assert_eq!(term.framebuffer().clone(), vec!["completed_render"]);
}

#[test]
fn term_clamps_distances_that_are_too_long_for_a_step() {
    let far = format!("\x1B[{}A\x1B[{}C\x1B[{}D", usize::MAX, usize::MAX, isize::MAX);
    assert_eq!(
        written(&[far.as_str()]),
        vec![
            String::from("move_x 0"),
            format!("move_y {}", -isize::MAX),
            format!("move_x {}", isize::MAX),
            String::from("move_y 0"),
            format!("move_x {}", -isize::MAX),
            String::from("move_y 0"),
        ]
    );
}

#[test]
fn term_carries_out_every_cursor_movement() {
    assert_eq!(
        written(&["\x1B[2B\x1B[3C\x1B[4D\x1B[5E\x1B[6F\x1B[7G\x1B[8d\x1B[9;10H\x1B[11;12f"]),
        vec![
            "move_x 0", "move_y 2", "move_x 3", "move_y 0", "move_x -4", "move_y 0", "goto_x 1",
            "move_y 5", "goto_x 1", "move_y -6", "goto_y 7", "goto_x 8", "goto_x 9", "goto_y 10",
            "goto_x 11", "goto_y 12",
        ]
    );
}

#[test]
fn term_carries_out_erasing_and_scrolling() {
    assert_eq!(
        written(&["\x1B[J\x1B[1K\x1B[2S\x1B[3T\x1B[4L"]),
        vec!["erase_in_display 0", "erase_in_line 1", "scroll_up 2", "scroll_down 3", "insert_line 4"]
    );
}

#[test]
fn term_asks_nothing_for_string_terminators() {
    assert_eq!(written(&["\x1Bc\x1BN\x1B\\a"]), vec!["write a"]);
}

#[test]
fn term_keeps_an_unfinished_sequence_for_the_next_write() {
    let mut term = Term::new(Box::new(Recorder::new()));
    term.write("ab\x1B[1;");
    assert_eq!(term.framebuffer().clone(), vec!["write ab"]);
    term.write("");
    assert_eq!(term.framebuffer().len(), 1);
    term.write("2");
    assert_eq!(term.framebuffer().len(), 1);
    term.write("Hcd");
    assert_eq!(term.framebuffer().clone(), vec!["write ab", "goto_x 1", "goto_y 2", "write cd"]);
}
