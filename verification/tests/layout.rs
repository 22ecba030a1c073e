use sidecheck::render::wrap;
use sidecheck::style::{
    badge, err_mark, field, ok_mark, panel, rule, table, title, visible_width, warn_mark, Badge,
};

/// Removes ANSI escape sequences, whatever the terminal decided to emit.
fn strip(s: &str) -> String {
    let mut out = String::new();
    let mut in_escape = false;
    for c in s.chars() {
        if in_escape {
            if c == 'm' {
                in_escape = false;
            }
        } else if c == '\u{1b}' {
            in_escape = true;
        } else {
            out.push(c);
        }
    }
    out
}

#[test]
fn visible_width_counts_plain_characters() {
    assert_eq!(visible_width("hello"), 5);
    assert_eq!(visible_width(""), 0);
    assert_eq!(visible_width("μs ✓"), 4);
}

#[test]
fn visible_width_skips_escape_sequences() {
    assert_eq!(visible_width("\u{1b}[1mbold\u{1b}[0m"), 4);
    assert_eq!(visible_width("a\u{1b}[38;5;84mb\u{1b}[0mc"), 3);
    // an unterminated sequence hides the rest of the text
    assert_eq!(visible_width("ab\u{1b}[1cd"), 2);
}

#[test]
fn panel_lines_all_have_the_panel_width() {
    assert_eq!(panel::WIDTH, 56);
    assert_eq!(panel::CONTENT_WIDTH, 52);
    assert_eq!(visible_width(&panel::top("sidecheck timing report")), 56);
    assert_eq!(visible_width(&panel::bottom()), 56);
    assert_eq!(visible_width(&panel::divider()), 56);
    assert_eq!(visible_width(&panel::blank()), 56);
    assert_eq!(visible_width(&panel::line("samples/class    12480")), 56);
    let styled = format!("{}{}", field("target", 17), "\u{1b}[36mhttps://x\u{1b}[0m");
    assert_eq!(visible_width(&panel::line(&styled)), 56);
}

#[test]
fn panel_text_layout() {
    assert_eq!(
        strip(&panel::top("abc")),
        format!("╭─ abc {}╮", "─".repeat(48))
    );
    assert_eq!(strip(&panel::bottom()), format!("╰{}╯", "─".repeat(54)));
    assert_eq!(strip(&panel::divider()), format!("├{}┤", "─".repeat(54)));
    assert_eq!(strip(&panel::line("x")), format!("│ x{} │", " ".repeat(51)));
    assert_eq!(strip(&panel::blank()), format!("│ {} │", " ".repeat(52)));
}

#[test]
fn panel_content_wider_than_the_panel_is_not_padded() {
    let long = "y".repeat(60);
    assert_eq!(strip(&panel::line(&long)), format!("│ {} │", long));
    assert_eq!(visible_width(&panel::line(&long)), 64);
}

#[test]
fn table_lines_all_have_the_same_width() {
    let (c1, c2) = (20, 30);
    assert_eq!(visible_width(&table::top(c1, c2)), c1 + c2 + 7);
    assert_eq!(visible_width(&table::bottom(c1, c2)), c1 + c2 + 7);
    assert_eq!(visible_width(&table::row("median RTT", c1, "0.4 ms", c2)), c1 + c2 + 7);
    let chip = badge("GOOD", Badge::Success);
    assert_eq!(visible_width(&table::row("environment quality", c1, &chip, c2)), c1 + c2 + 7);
}

#[test]
fn table_text_layout() {
    assert_eq!(strip(&table::top(1, 2)), "╭───┬────╮");
    assert_eq!(strip(&table::bottom(1, 2)), "╰───┴────╯");
    assert_eq!(strip(&table::row("a", 3, "bc", 2)), "│ a   │ bc │");
}

#[test]
fn marks_rules_titles_and_fields() {
    assert_eq!(strip(&ok_mark()), "✓");
    assert_eq!(strip(&warn_mark()), "⚠");
    assert_eq!(strip(&err_mark()), "✗");
    assert_eq!(strip(&rule(4)), "────");
    assert_eq!(strip(&rule(0)), "");
    assert_eq!(strip(&title("stability summary")), "stability summary");
    assert_eq!(strip(&field("target", 10)), "target    ");
    assert_eq!(strip(&field("a long label", 4)), "a long label");
    assert_eq!(strip(&badge("FAIR", Badge::Warn)), " FAIR ");
    assert_eq!(strip(&badge("POOR", Badge::Failure)), " POOR ");
}

#[test]
fn wrap_is_greedy_on_column_width() {
    assert_eq!(wrap("aa bb cc dd", 5), vec!["aa bb", "cc dd"]);
    assert_eq!(wrap("aa bb cc", 4), vec!["aa", "bb", "cc"]);
    assert_eq!(wrap("  one   two\tthree\n", 100), vec!["one two three"]);
    assert_eq!(wrap("", 10), Vec::<String>::new());
    assert_eq!(wrap("   ", 10), Vec::<String>::new());
    // a word longer than the width gets a line of its own
    assert_eq!(wrap("a verylongword b", 4), vec!["a", "verylongword", "b"]);
    // width counts characters: "μs μs" is five columns wide
    assert_eq!(wrap("μs ab", 5), vec!["μs ab"]);
    assert_eq!(wrap("μs μs", 5), vec!["μs μs"]);
    assert_eq!(wrap("μs μs", 4), vec!["μs", "μs"]);
}

#[test]
fn wrap_keeps_every_word_in_order() {
    let text = "this endpoint responds measurably differently depending on input \
                correctness. an attacker can exploit this to recover secrets \
                character-by-character instead of brute-forcing them.";
    let lines = wrap(text, panel::CONTENT_WIDTH);
    assert_eq!(lines.join(" "), text.split_whitespace().collect::<Vec<_>>().join(" "));
    for l in &lines {
        assert!(!l.is_empty());
        assert!(l.len() <= panel::CONTENT_WIDTH || !l.contains(' '));
    }
}
