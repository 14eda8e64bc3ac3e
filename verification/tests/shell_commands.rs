use usbd::shell::{Command, parse_command};

#[test]
fn plain_commands() {
    assert_eq!(parse_command("help"), Command::Help);
    assert_eq!(parse_command("  help  "), Command::Help);
    assert_eq!(parse_command("quit"), Command::Quit);
    assert_eq!(parse_command("\tquit\r\n"), Command::Quit);
}

#[test]
fn blank_lines_and_comments_do_nothing() {
    assert_eq!(parse_command(""), Command::Empty);
    assert_eq!(parse_command("    "), Command::Empty);
    assert_eq!(parse_command("# just a comment"), Command::Empty);
    assert_eq!(parse_command("   # indented comment"), Command::Empty);
}

#[test]
fn unknown_commands() {
    assert_eq!(parse_command("hel"), Command::Unknown);
    assert_eq!(parse_command("helped"), Command::Unknown);
    assert_eq!(parse_command("exit"), Command::Unknown);
    assert_eq!(parse_command("show"), Command::Unknown);
    // the comment cut happens after trimming, so the trailing space stays
    assert_eq!(parse_command("help # x"), Command::Unknown);
}

#[test]
fn show_with_single_count() {
    assert_eq!(
        parse_command("show 0 16"),
        Command::Show { addr: 0, start: 0, end: 16 }
    );
    assert_eq!(
        parse_command("show 32 -4"),
        Command::Show { addr: 32, start: -4, end: 1 }
    );
}

#[test]
fn show_with_hex_address_and_separators() {
    assert_eq!(
        parse_command("show 0x2000_0000 -2 2"),
        Command::Show { addr: 0x2000_0000, start: -2, end: 3 }
    );
    assert_eq!(
        parse_command("show 0xffff 1"),
        Command::Show { addr: 0xffff, start: 0, end: 1 }
    );
}

#[test]
fn show_with_explicit_range() {
    assert_eq!(
        parse_command("show 1024 -2 8"),
        Command::Show { addr: 1024, start: -2, end: 9 }
    );
    // the first bound must be negative and the second must not be
    assert_eq!(parse_command("show 1024 2 8"), Command::Invalid);
    assert_eq!(parse_command("show 1024 -2 -8"), Command::Invalid);
}

#[test]
fn show_syntax_errors() {
    // trimming happens first, so a bare "show " loses its space
    assert_eq!(parse_command("show "), Command::Unknown);
    assert_eq!(parse_command("show zzz 16"), Command::Invalid);
    assert_eq!(parse_command("show 0x 16"), Command::Invalid);
    assert_eq!(parse_command("show 16"), Command::Invalid);
    // a fourth field makes the third token unparsable
    assert_eq!(parse_command("show 0 -2 2 9"), Command::Invalid);
    // address out of range
    assert_eq!(parse_command("show 4294967296 1"), Command::Invalid);
    assert_eq!(parse_command("show 4294967295 1"), Command::Show { addr: u32::MAX, start: 0, end: 1 });
}

#[test]
fn show_strips_comments() {
    assert_eq!(
        parse_command("show 0 4 # first words"),
        Command::Show { addr: 0, start: 0, end: 4 }
    );
}
