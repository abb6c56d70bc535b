use maika::logger::{command, error, info};

// The only test in this file: it sets colored's process-wide override.
#[test]
fn forced_colours() {
    colored::control::set_override(true);
    assert_eq!(error("boom"), "\u{1b}[1;31mboom\u{1b}[0m");
    assert_eq!(info("ready"), "\u{1b}[1;32mready\u{1b}[0m");
    assert_eq!(
        error("a\u{1b}[0mb\u{1b}[0m"),
        "\u{1b}[1;31ma\u{1b}[0m\u{1b}[1;31mb\u{1b}[0m\u{1b}[1;31m\u{1b}[0m"
    );
    assert_eq!(
        command("G", "u", "m"),
        "\u{1b}[1;32mG\u{1b}[0m >> \u{1b}[1;35mu\u{1b}[0m > \u{1b}[1;36mm\u{1b}[0m"
    );
    colored::control::set_override(false);
    assert_eq!(error("boom"), "boom");
    assert_eq!(error("a\u{1b}[0mb"), "a\u{1b}[0mb");
    colored::control::unset_override();
}
