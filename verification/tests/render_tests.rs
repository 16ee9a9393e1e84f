//! What is shown in a terminal.

use git_forge::render::sanitize_terminal;

/// Terminal control sequences are neutralized to their `\xNN` literal while
/// visible text (including non-ASCII letters) survives.
#[test]
fn sanitize_terminal_neutralizes_control_sequences() {
    // OSC-8 hyperlink / ESC cursor sequence must not survive verbatim.
    let malicious = "\u{001b}]8;;http://evil.example\u{0007}click\u{001b}]8;;\u{0007}";
    let out = sanitize_terminal(malicious);
    assert!(!out.contains('\u{001b}'), "ESC must be escaped: {out:?}");
    assert!(!out.contains('\u{0007}'), "BEL must be escaped: {out:?}");
    assert!(out.contains("\\x1b"), "ESC rendered as \\x1b: {out:?}");
    assert!(out.contains("click"), "visible text preserved: {out:?}");
    // Structural whitespace (newline/tab/carriage-return) is escaped so a
    // stored title cannot forge an extra list row or field.
    assert_eq!(sanitize_terminal("a\rb"), "a\\x0db");
    assert_eq!(
        sanitize_terminal("line1\nline2\tend"),
        "line1\\x0aline2\\x09end"
    );
    // DEL and C1 controls (U+0080-U+009F; U+009B is CSI) are escaped.
    assert_eq!(sanitize_terminal("caf\u{7f}"), "caf\\x7f");
    assert_eq!(sanitize_terminal("x\u{009b}2J"), "x\\x9b2J");
    // Plain printable and non-ASCII visible text survive.
    assert_eq!(sanitize_terminal("plain text"), "plain text");
    assert_eq!(sanitize_terminal("café 中文 🚀"), "café 中文 🚀");
}
