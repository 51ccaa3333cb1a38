use funpedals::menu::{is_white_space, parse_command, parse_decimal, preset_slot, trim, MenuCommand};

#[test]
fn trim_matches_std() {
    let cases = [
        "", "   ", "P", "  P \n", "\tS  my preset \r\n", "\u{3000}R\u{00a0}", "a b", " \u{2003}x\u{2029}",
        "\u{200b}x", "12\n",
    ];
    for c in cases {
        assert_eq!(trim(c), c.trim(), "case {:?}", c);
    }
}

#[test]
fn white_space_matches_std() {
    for u in 0u32..0x3100 {
        if let Some(c) = char::from_u32(u) {
            assert_eq!(is_white_space(c), c.is_whitespace(), "char {:x}", u);
        }
    }
}

#[test]
fn decimal_matches_std_parse() {
    let cases = [
        "0", "7", "+5", "+", "", "-1", "-0", "007", "12a", " 3", "18446744073709551615",
        "18446744073709551616", "99999999999999999999999", "١", "+12",
    ];
    for c in cases {
        assert_eq!(parse_decimal(c), c.parse::<usize>().ok(), "case {:?}", c);
    }
}

#[test]
fn commands_of_the_menu() {
    assert!(matches!(parse_command("P\n"), MenuCommand::ShowParams));
    assert!(matches!(parse_command("  R "), MenuCommand::Reload));
    match parse_command("S   Crunch 2  \n") {
        MenuCommand::Save(n) => assert_eq!(n, "Crunch 2"),
        _ => panic!("expected a save"),
    }
    assert!(matches!(parse_command("3\n"), MenuCommand::Select(3)));
    assert!(matches!(parse_command("+12"), MenuCommand::Select(12)));
    assert!(matches!(parse_command("S"), MenuCommand::Invalid));
    assert!(matches!(parse_command("p"), MenuCommand::Invalid));
    assert!(matches!(parse_command("PP"), MenuCommand::Invalid));
    assert!(matches!(parse_command(""), MenuCommand::Invalid));
    match parse_command("S  ") {
        MenuCommand::Invalid => {},
        _ => panic!("a trimmed \"S\" alone is no save"),
    }
}

#[test]
fn one_based_selection() {
    assert_eq!(preset_slot(0, 5), None);
    assert_eq!(preset_slot(1, 5), Some(0));
    assert_eq!(preset_slot(5, 5), Some(4));
    assert_eq!(preset_slot(6, 5), None);
    assert_eq!(preset_slot(1, 0), None);
    assert_eq!(preset_slot(usize::MAX, usize::MAX), Some(usize::MAX - 1));
}
