use txt2epub::sanitize::{sanitize, sanitize_text_portion, SanitizedOutcome};

fn is_empty(r: &SanitizedOutcome) -> bool {
    matches!(r, SanitizedOutcome::Empty)
}

fn is_separator(r: &SanitizedOutcome) -> bool {
    matches!(r, SanitizedOutcome::SeparatorRule)
}

fn paragraph_text(r: &SanitizedOutcome) -> Option<&str> {
    match r {
        SanitizedOutcome::Paragraph(p) => Some(p.as_str()),
        _ => None,
    }
}

#[test]
fn separator_lines_detected() {
    assert!(is_separator(&sanitize("====")));
    assert!(is_separator(&sanitize("----")));
    assert!(is_separator(&sanitize("——")));
    assert!(is_separator(&sanitize("****")));
    assert!(is_separator(&sanitize("=")));
}

#[test]
fn mixed_decoration_is_not_a_separator() {
    assert_eq!(paragraph_text(&sanitize("=-=")), Some("=-="));
    assert_eq!(paragraph_text(&sanitize("==--")), Some("==--"));
    assert_eq!(paragraph_text(&sanitize("*=*")), Some("*=*"));
}

#[test]
fn blank_lines_are_empty() {
    assert!(is_empty(&sanitize("")));
    assert!(is_empty(&sanitize("   ")));
    assert!(is_empty(&sanitize("\t")));
    assert!(is_empty(&sanitize(" \u{3000} ")));
}

#[test]
fn control_characters_are_stripped() {
    assert_eq!(paragraph_text(&sanitize("a\u{1}b\u{7f}c")), Some("abc"));
    assert_eq!(sanitize_text_portion("a\u{1}b\u{7f}c"), "abc");
    // a line that is nothing but stripped controls comes out empty
    assert!(is_empty(&sanitize("\u{0}\u{1f}\u{7f}")));
}

#[test]
fn tab_newline_carriage_return_survive_stripping() {
    // they are kept by the control filter, then trimmed away at the ends
    assert_eq!(sanitize_text_portion("\t abc \r\n"), "abc");
    // interior ones stay
    assert_eq!(sanitize_text_portion("a\tb"), "a\tb");
}

#[test]
fn surrounding_whitespace_is_trimmed() {
    assert_eq!(paragraph_text(&sanitize("  正文  ")), Some("正文"));
    assert_eq!(sanitize_text_portion("  正文  "), "正文");
}

#[test]
fn sanitization_is_idempotent() {
    let samples = [
        "  hello \u{1} world  ",
        "====",
        "\t\r\n",
        "a\u{0}b",
        "  第一章  ",
        "=-=",
        "",
    ];
    for x in samples {
        let once = sanitize_text_portion(x);
        let twice = sanitize_text_portion(&once);
        assert_eq!(once, twice);
        let direct = sanitize(x);
        let again = sanitize(&once);
        match (&direct, &again) {
            (SanitizedOutcome::Empty, SanitizedOutcome::Empty) => {}
            (SanitizedOutcome::SeparatorRule, SanitizedOutcome::SeparatorRule) => {}
            (SanitizedOutcome::Paragraph(a), SanitizedOutcome::Paragraph(b)) => {
                assert_eq!(a, b)
            }
            _ => panic!("sanitize outcome changed on re-sanitized input"),
        }
    }
}
