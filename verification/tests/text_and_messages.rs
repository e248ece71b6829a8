use latex_bot::login::{homeserver_url, MatrixLogin};
use latex_bot::messages::{parse_message, split_command, ParsedMessage};
use latex_bot::text::{chars_of, exec_char_width, exec_is_white_space, trim_end};

fn parsed(m: &str) -> (String, Option<(String, String)>) {
    match parse_message(m) {
        ParsedMessage::Reply(q, a) => ("reply".to_string(), Some((q.to_string(), a.to_string()))),
        ParsedMessage::Message(t) => ("message".to_string(), Some((t.to_string(), String::new()))),
        ParsedMessage::Undefined => ("undefined".to_string(), None),
    }
}

#[test]
fn parse_message_reply() {
    assert_eq!(
        parsed("> quoted\n> more\n\nanswer\n\nlater"),
        ("reply".to_string(), Some(("> quoted\n> more".to_string(), "answer\n\nlater".to_string())))
    );
    assert_eq!(parsed(">\n\n"), ("reply".to_string(), Some((">".to_string(), "".to_string()))));
}

#[test]
fn parse_message_undefined_and_plain() {
    assert_eq!(parsed("> no blank line\nhere"), ("undefined".to_string(), None));
    assert_eq!(parsed(">"), ("undefined".to_string(), None));
    assert_eq!(
        parsed("plain\n\ntext"),
        ("message".to_string(), Some(("plain\n\ntext".to_string(), String::new())))
    );
    assert_eq!(parsed(""), ("message".to_string(), Some((String::new(), String::new()))));
    assert_eq!(
        parsed(" > not a quote"),
        ("message".to_string(), Some((" > not a quote".to_string(), String::new())))
    );
}

#[test]
fn split_command_cases() {
    assert_eq!(split_command("!tex a b", "!", 4), Some(("tex", " a b")));
    assert_eq!(split_command("tex a", "!", 4), None);
    assert_eq!(split_command("!", "!", 4), Some(("", "")));
    assert_eq!(split_command("!mathematics", "!", 4), Some(("math", "ematics")));
    assert_eq!(split_command("!a b", "!", 0), Some(("", "a b")));
    assert_eq!(split_command("bot: ping", "bot: ", 4), Some(("ping", "")));
    // "é" takes two bytes: the cut after four bytes falls after "éé".
    assert_eq!(split_command("!ééé", "!", 4), Some(("éé", "é")));
    // A space before the limit ends the name.
    assert_eq!(split_command("!é é", "!", 4), Some(("é", " é")));
}

#[test]
fn char_widths() {
    assert_eq!(exec_char_width('a'), 1);
    assert_eq!(exec_char_width('é'), 2);
    assert_eq!(exec_char_width('€'), 3);
    assert_eq!(exec_char_width('🏓'), 4);
    for c in ['a', 'é', '€', '🏓', '\u{7f}', '\u{80}', '\u{7ff}', '\u{800}', '\u{ffff}', '\u{10000}'] {
        assert_eq!(exec_char_width(c), c.len_utf8());
    }
}

#[test]
fn white_space_matches_std() {
    for u in 0u32..0x3100 {
        if let Some(c) = char::from_u32(u) {
            assert_eq!(exec_is_white_space(c), c.is_whitespace(), "at {:x}", u);
        }
    }
}

#[test]
fn trimming() {
    assert_eq!(trim_end("https://matrix.org\n"), "https://matrix.org");
    assert_eq!(trim_end("  user \t\r\n"), "  user");
    assert_eq!(trim_end("   "), "");
    assert_eq!(trim_end(""), "");
    assert_eq!(trim_end("a\u{3000}"), "a");
    assert_eq!(trim_end("x y"), "x y");
    assert_eq!(chars_of("añ🏓"), vec!['a', 'ñ', '🏓']);
}

#[test]
fn login_from_prompt_lines() {
    let l = MatrixLogin::from_prompt("https://matrix.org\n", "bot\n", "secret \n".to_string());
    assert_eq!(l.homeserver_url, "https://matrix.org");
    assert_eq!(l.user_name, "bot");
    assert_eq!(l.password, "secret \n");
}

#[test]
fn homeserver_url_is_parsed() {
    assert_eq!(homeserver_url("https://matrix.org"), Some("https://matrix.org/".to_string()));
    assert_eq!(homeserver_url("HTTPS://Example.COM:443/a/../b"), Some("https://example.com/b".to_string()));
    assert_eq!(homeserver_url("matrix.org"), None);
    assert_eq!(homeserver_url(""), None);
}
