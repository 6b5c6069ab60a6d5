use racoes_bot::tg::{escape, render, render_escaped, TgResponse};

#[test]
fn escape_leaves_plain_text_alone() {
    assert_eq!(escape(""), "");
    assert_eq!(escape("Europe/London"), "Europe/London");
    assert_eq!(escape("hello world"), "hello world");
}

#[test]
fn escape_prefixes_each_reserved_character() {
    assert_eq!(escape("a.b"), "a\\.b");
    assert_eq!(escape("!"), "\\!");
    assert_eq!(escape("_*[]"), "\\_\\*\\[\\]");
    assert_eq!(escape("(a-b)"), "\\(a\\-b\\)");
    assert_eq!(escape("x=y|z"), "x\\=y\\|z");
    assert_eq!(escape("{~}`>#+"), "\\{\\~\\}\\`\\>\\#\\+");
}

#[test]
fn escape_escapes_the_backslash_itself() {
    assert_eq!(escape("\\"), "\\\\");
    assert_eq!(escape("a\\.b"), "a\\\\\\.b");
}

#[test]
fn render_gives_each_kind_its_text() {
    assert_eq!(render(&TgResponse::IncorrectRequest), "Incorrect request");
    assert_eq!(
        render(&TgResponse::ChosenTimezone("Europe/London".to_string())),
        "Selected timezone: Europe/London!"
    );
    assert_eq!(
        render(&TgResponse::FailedSetTimezone("Europe/London".to_string())),
        "Failed to set timezone Europe/London"
    );
    assert!(render(&TgResponse::Hello).contains("send me your location"));
}

#[test]
fn render_escaped_protects_reserved_characters() {
    assert_eq!(
        render_escaped(&TgResponse::ChosenTimezone("Europe/London".to_string())),
        "Selected timezone: Europe/London\\!"
    );
    assert_eq!(
        render_escaped(&TgResponse::FailedSetTimezone("America/New_York".to_string())),
        "Failed to set timezone America/New\\_York"
    );
    assert_eq!(render_escaped(&TgResponse::IncorrectRequest), "Incorrect request");
}
