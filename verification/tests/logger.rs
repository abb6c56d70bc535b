use maika::logger::{command, command_dm, command_line, direct_message_place, error, info};

fn plain_or_painted(r: &str, text: &str, code: &str) -> bool {
    r == text || r == format!("\u{1b}[1;{}m{}\u{1b}[0m", code, text)
}

#[test]
fn lays_out_command_lines() {
    assert_eq!(command_line("g".to_string(), "u".to_string(), "m".to_string()), "g >> u > m");
}

#[test]
fn command_lines_are_painted_or_plain() {
    let r = command("Guild", "user", "n:ping");
    assert!(
        r == "Guild >> user > n:ping"
            || r == "\u{1b}[1;32mGuild\u{1b}[0m >> \u{1b}[1;35muser\u{1b}[0m > \u{1b}[1;36mn:ping\u{1b}[0m",
        "{:?}",
        r
    );
    let d = command_dm(&direct_message_place(), "user", "n:roll");
    assert!(d.ends_with("n:roll") || d.ends_with("n:roll\u{1b}[0m"));
}

#[test]
fn notices() {
    assert!(plain_or_painted(&error("bad"), "bad", "31"));
    assert!(plain_or_painted(&info("good"), "good", "32"));
    assert_eq!(direct_message_place(), "DM");
}
