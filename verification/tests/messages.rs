use caster::telegram::{crates_message, feed_message};

#[test]
fn feed_message_without_content_is_exact() {
    let msg = feed_message(
        &Some("Title".to_owned()),
        &Some("http://example.com/e1".to_owned()),
        &None,
        100,
    )
    .expect("no renderer involved");
    assert_eq!(
        msg,
        "<b>[ <a href=\"http://example.com/e1\">Feed</a> ]  Title</b>\n\n"
    );
}

#[test]
fn feed_message_without_link_or_title() {
    let msg = feed_message(&None, &None, &None, 100).expect("no renderer involved");
    assert_eq!(msg, "<b>[ Feed ]  </b>\n\n");
}

#[test]
fn feed_message_renders_html_content() {
    let msg = feed_message(
        &None,
        &None,
        &Some("<p>hello world</p>".to_owned()),
        100,
    )
    .expect("renderer should accept simple html");
    // The content block is rendered to plain text, not passed through.
    assert!(!msg.contains("<p>"));
    assert!(msg.contains("hello world"));
}

#[test]
fn feed_message_escapes_rendered_content() {
    let msg = feed_message(&None, &None, &Some("a &amp; b".to_owned()), 100)
        .expect("renderer should accept simple text");
    // html2text decodes the entity; the escape pass re-encodes the bare
    // ampersand for the outgoing HTML message.
    assert!(msg.contains("a &amp; b"));
    assert!(!msg.contains("a & b"));
}

#[test]
fn feed_message_truncates_long_content() {
    let long = "x".repeat(300);
    let msg = feed_message(&None, &None, &Some(long), 10).expect("renderer should accept text");
    // Only the first nine characters survive, followed by the ellipsis
    // marker, so the 300-character run is gone.
    assert!(!msg.contains("xxxxxxxxxxxx"));
    assert!(msg.contains("..."));
}

#[test]
fn crates_message_is_exact() {
    let msg = crates_message(
        &"foo".to_owned(),
        &"1.0.1".to_owned(),
        &Some("http://example.com".to_owned()),
        true,
    );
    assert_eq!(
        msg,
        "[ <a href=\"https://crates.io/crates/foo\">Crates.io</a> ] New update: <b>foo</b> \n Version: 1.0.1\n                         \nYanked: true\n                         \nLinks: http://example.com"
    );
}

#[test]
fn crates_message_without_extras() {
    let msg = crates_message(&"foo".to_owned(), &"1.0.0".to_owned(), &None, false);
    assert_eq!(
        msg,
        "[ <a href=\"https://crates.io/crates/foo\">Crates.io</a> ] New update: <b>foo</b> \n Version: 1.0.0\n                         \n                         "
    );
}
