use ansi_escaper::{AnsiType, CSIType, OSCType};

fn fields(items: &[&str]) -> Vec<String> {
    items.iter().map(|item| String::from(*item)).collect()
}

#[test]
fn control_sequence_from_fields() {
    assert_eq!(CSIType::from("H", fields(&["12", "34"])), CSIType::CUP(12, 34));
    assert_eq!(CSIType::from("H", fields(&["12"])), CSIType::CUP(12, 1));
    assert_eq!(CSIType::from("H", fields(&[])), CSIType::CUP(1, 1));
    assert_eq!(CSIType::from("J", fields(&[])), CSIType::ED(0));
    assert_eq!(CSIType::from("J", fields(&[""])), CSIType::ED(0));
    assert_eq!(CSIType::from("m", fields(&[])), CSIType::SGR(0, vec![]));
    assert_eq!(CSIType::from("m", fields(&["1", "x", "22"])), CSIType::SGR(1, vec![0, 22]));
    assert_eq!(CSIType::from("A", fields(&["\u{663}"])), CSIType::CUU(1));
    assert_eq!(CSIType::from("A", fields(&["3\u{e9}"])), CSIType::CUU(1));
    assert_eq!(CSIType::from("f", fields(&["2", "3", "4"])), CSIType::CUP(2, 3));
}

#[test]
fn control_sequence_with_private_fields() {
    assert_eq!(CSIType::from("h", fields(&["?25"])), CSIType::DECTCEM(true));
    assert_eq!(CSIType::from("l", fields(&["?25", "1"])), CSIType::DECTCEM(false));
    assert_eq!(
        CSIType::from("h", fields(&["?"])),
        CSIType::Unknown(String::from("Unknown Private CSI command: 1"))
    );
    assert_eq!(
        CSIType::from("h", fields(&["?2\u{e9}"])),
        CSIType::Unknown(String::from("Unknown Private CSI command: 1"))
    );
    assert_eq!(
        CSIType::from("hh", fields(&["?25"])),
        CSIType::Unknown(String::from("Unknown Private CSI command: 25hh"))
    );
    assert_eq!(
        CSIType::from("h", fields(&["?18446744073709551616"])),
        CSIType::Unknown(String::from("Unknown Private CSI command: 1"))
    );
    assert_eq!(
        CSIType::from("h", fields(&["?1234567890"])),
        CSIType::Unknown(String::from("Unknown Private CSI command: 1234567890"))
    );
}

#[test]
fn control_sequence_with_unknown_final() {
    assert_eq!(
        CSIType::from("z", fields(&["1"])),
        CSIType::Unknown(String::from("Unknown CSI command: z"))
    );
    assert_eq!(
        CSIType::from("AB", fields(&["1"])),
        CSIType::Unknown(String::from("Unknown CSI command: AB"))
    );
    assert_eq!(
        CSIType::from("", fields(&["1"])),
        CSIType::Unknown(String::from("Unknown CSI command: "))
    );
}

#[test]
fn control_sequence_from_any_grapheme() {
    assert_eq!(CSIType::from_grapheme("A", fields(&["4"])), CSIType::CUU(4));
    assert_eq!(CSIType::from_grapheme("h", fields(&["?25"])), CSIType::DECTCEM(true));
    assert_eq!(
        CSIType::from_grapheme("\u{e9}", fields(&["4"])),
        CSIType::Unknown(String::from("Unknown CSI command: \u{e9}"))
    );
    // With a final grapheme of several bytes the private mode is not looked at.
    assert_eq!(
        CSIType::from_grapheme("\r\n", fields(&["?7"])),
        CSIType::Unknown(String::from("Unknown CSI command: \r\n"))
    );
    assert_eq!(
        CSIType::from("\r\n", fields(&["?7"])),
        CSIType::Unknown(String::from("Unknown Private CSI command: 7"))
    );
}

#[test]
fn operating_system_command_from_fields() {
    assert_eq!(
        OSCType::from("\x07", fields(&["0", "title"])),
        OSCType::WindowTitle(String::from("title"))
    );
    assert_eq!(
        OSCType::from("\x07", fields(&["2", "title", "more"])),
        OSCType::WindowTitle(String::from("title"))
    );
    assert_eq!(OSCType::from("\x07", fields(&["0"])), OSCType::WindowTitle(String::new()));
    assert_eq!(
        OSCType::from("\x07", fields(&[])),
        OSCType::Unknown(String::from("Unknown OSC command: "))
    );
    assert_eq!(
        OSCType::from("\x07", fields(&["4", "1", "red"])),
        OSCType::Unknown(String::from("Unknown OSC command: 4;1;red"))
    );
    assert_eq!(
        OSCType::from_grapheme("\u{e9}", fields(&["0", "title"])),
        OSCType::WindowTitle(String::from("title"))
    );
    assert_eq!(
        OSCType::from_grapheme("x", fields(&["7", ""])),
        OSCType::Unknown(String::from("Unknown OSC command: 7;"))
    );
}

#[test]
fn introducers() {
    assert_eq!(AnsiType::from("N"), AnsiType::SS2);
    assert_eq!(AnsiType::from("O"), AnsiType::SS3);
    assert_eq!(AnsiType::from("P"), AnsiType::DCS);
    assert_eq!(AnsiType::from("["), AnsiType::CSI { kind: CSIType::Unknown(String::new()) });
    assert_eq!(AnsiType::from("\\"), AnsiType::ST);
    assert_eq!(AnsiType::from("]"), AnsiType::OSC { kind: OSCType::Unknown(String::new()) });
    assert_eq!(AnsiType::from("X"), AnsiType::SOS);
    assert_eq!(AnsiType::from("*"), AnsiType::PM);
    assert_eq!(AnsiType::from("_"), AnsiType::APC);
    assert_eq!(AnsiType::from("c"), AnsiType::RIS);
    assert_eq!(
        AnsiType::from("q"),
        AnsiType::Unknown(String::from("Unknown ansi escape char: q"))
    );
    assert_eq!(
        AnsiType::from("NN"),
        AnsiType::Unknown(String::from("Unknown ansi escape char: NN"))
    );
    assert_eq!(AnsiType::from(""), AnsiType::Unknown(String::from("Unknown ansi escape char: ")));
}

#[test]
fn introducers_given_as_characters() {
    assert_eq!(AnsiType::from('N'), AnsiType::SS2);
    assert_eq!(AnsiType::from('['), AnsiType::CSI { kind: CSIType::Unknown(String::new()) });
    assert_eq!(AnsiType::from('\\'), AnsiType::ST);
    assert_eq!(AnsiType::from('c'), AnsiType::RIS);
    assert_eq!(
        AnsiType::from('\u{e9}'),
        AnsiType::Unknown(String::from("Unknown ansi escape char: \u{e9}"))
    );
}

#[test]
fn finishing_a_sequence() {
    let csi = AnsiType::CSI { kind: CSIType::Unknown(String::new()) };
    let osc = AnsiType::OSC { kind: OSCType::Unknown(String::new()) };
    assert_eq!(
        AnsiType::finish("B", csi.clone(), fields(&["9"])),
        AnsiType::CSI { kind: CSIType::CUD(9) }
    );
    assert_eq!(
        AnsiType::finish("\x07", osc.clone(), fields(&["0", "t"])),
        AnsiType::OSC { kind: OSCType::WindowTitle(String::from("t")) }
    );
    assert_eq!(AnsiType::finish("x", AnsiType::SS2, fields(&[])), AnsiType::ST);
    assert_eq!(AnsiType::finish("x", AnsiType::SS3, fields(&[])), AnsiType::ST);
    assert_eq!(AnsiType::finish("x", AnsiType::DCS, fields(&[])), AnsiType::ST);
    assert_eq!(AnsiType::finish("x", AnsiType::ST, fields(&[])), AnsiType::ST);
    assert_eq!(AnsiType::finish("x", AnsiType::RIS, fields(&[])), AnsiType::ST);
    assert_eq!(AnsiType::finish("x", AnsiType::SOS, fields(&[])), AnsiType::ST);
    assert_eq!(AnsiType::finish("x", AnsiType::PM, fields(&[])), AnsiType::ST);
    assert_eq!(AnsiType::finish("x", AnsiType::APC, fields(&[])), AnsiType::ST);
    assert_eq!(AnsiType::finish("x", AnsiType::Incomplete, fields(&[])), AnsiType::ST);
    assert_eq!(
        AnsiType::finish("x", AnsiType::Unknown(String::from("why")), fields(&["1"])),
        AnsiType::Unknown(String::from("why"))
    );
    assert_eq!(
        AnsiType::finish("x", AnsiType::Text(String::from("abc")), fields(&["1"])),
        AnsiType::Text(String::from("abc"))
    );
    assert_eq!(
        AnsiType::finish_grapheme("\u{e9}", csi, fields(&["9"])),
        AnsiType::CSI { kind: CSIType::Unknown(String::from("Unknown CSI command: \u{e9}")) }
    );
    assert_eq!(
        AnsiType::finish_grapheme("\u{e9}", osc, fields(&["2", "t"])),
        AnsiType::OSC { kind: OSCType::WindowTitle(String::from("t")) }
    );
    assert_eq!(AnsiType::finish_grapheme("x", AnsiType::PM, fields(&[])), AnsiType::ST);
}

#[test]
fn ranges_of_valid_characters() {
    let csi = AnsiType::CSI { kind: CSIType::Unknown(String::new()) };
    let osc = AnsiType::OSC { kind: OSCType::Unknown(String::new()) };
    assert_eq!(AnsiType::valid_char_ranges(&csi), (0x20..0x40, 0x40..0x80));
    assert_eq!(AnsiType::valid_char_ranges(&osc), (0x20..0x80, 0x07..0x08));
    let none = AnsiType::valid_char_ranges(&AnsiType::RIS);
    assert!(none.0.is_empty());
    assert!(none.1.is_empty());
    let text = AnsiType::valid_char_ranges(&AnsiType::Text(String::from("a")));
    assert!(text.0.is_empty());
    assert!(text.1.is_empty());
}

#[test]
fn commands_as_text() {
    let csi = |kind| AnsiType::CSI { kind };
    assert_eq!(AnsiType::Text(String::from("a b")).to_string(), "Text(a b)");
    assert_eq!(AnsiType::SS2.to_string(), "SS2");
    assert_eq!(AnsiType::SS3.to_string(), "SS3");
    assert_eq!(AnsiType::DCS.to_string(), "DCS");
    assert_eq!(AnsiType::ST.to_string(), "ST");
    assert_eq!(AnsiType::RIS.to_string(), "RIS");
    assert_eq!(AnsiType::SOS.to_string(), "SOS");
    assert_eq!(AnsiType::PM.to_string(), "PM");
    assert_eq!(AnsiType::APC.to_string(), "APC");
    assert_eq!(AnsiType::Incomplete.to_string(), "Incomplete");
    assert_eq!(AnsiType::Unknown(String::from("a\"b\n")).to_string(), "Unknown: \"a\\\"b\\n\"");
    assert_eq!(csi(CSIType::CUU(5)).to_string(), "CUU { n: 5 }");
    assert_eq!(csi(CSIType::CUD(0)).to_string(), "CUD { n: 0 }");
    assert_eq!(csi(CSIType::CUF(10)).to_string(), "CUF { n: 10 }");
    assert_eq!(csi(CSIType::CUB(109)).to_string(), "CUB { n: 109 }");
    assert_eq!(csi(CSIType::CNL(1)).to_string(), "CNL { n: 1 }");
    assert_eq!(csi(CSIType::CPL(2)).to_string(), "CPL { n: 2 }");
    assert_eq!(csi(CSIType::CHA(3)).to_string(), "CHA { n: 3 }");
    assert_eq!(csi(CSIType::CVA(4)).to_string(), "CVA { n: 4 }");
    assert_eq!(csi(CSIType::CUP(12, 34)).to_string(), "CUP { n: 12, m: 34 }");
    assert_eq!(csi(CSIType::ED(2)).to_string(), "ED { n: 2 }");
    assert_eq!(csi(CSIType::EL(1)).to_string(), "EL { n: 1 }");
    assert_eq!(csi(CSIType::SU(6)).to_string(), "SU { n: 6 }");
    assert_eq!(csi(CSIType::SD(7)).to_string(), "SD { n: 7 }");
    assert_eq!(csi(CSIType::IL(8)).to_string(), "IL { n: 8 }");
    assert_eq!(csi(CSIType::HVP(9, 10)).to_string(), "HVP { n: 9, m: 10 }");
    assert_eq!(csi(CSIType::SGR(1, vec![])).to_string(), "SGR { n: 1, m: [] }");
    assert_eq!(csi(CSIType::SGR(1, vec![31])).to_string(), "SGR { n: 1, m: [31] }");
    assert_eq!(csi(CSIType::SGR(0, vec![38, 5, 200])).to_string(), "SGR { n: 0, m: [38, 5, 200] }");
    assert_eq!(csi(CSIType::DECTCEM(true)).to_string(), "DECTCEM { h: true }");
    assert_eq!(csi(CSIType::DECTCEM(false)).to_string(), "DECTCEM { h: false }");
    assert_eq!(csi(CSIType::DECSTBM(2, 20)).to_string(), "DECSTBM { n: 2, m: 20 }");
    assert_eq!(csi(CSIType::DECSLRM(3, 30)).to_string(), "DECSLRM { n: 3, m: 30 }");
    assert_eq!(
        csi(CSIType::Unknown(String::from("what"))).to_string(),
        "CSI { Unknown: \"what\" }"
    );
    assert_eq!(
        AnsiType::OSC { kind: OSCType::WindowTitle(String::from("my \\ title")) }.to_string(),
        "OSC { WindowTitle: \"my \\\\ title\" }"
    );
    assert_eq!(
        AnsiType::OSC { kind: OSCType::Unknown(String::from("9")) }.to_string(),
        "OSC { Unknown: \"9\" }"
    );
    assert_eq!(csi(CSIType::CUU(usize::MAX)).to_string(), format!("CUU {{ n: {} }}", usize::MAX));
}
