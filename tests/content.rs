use telegrand_markup::{
    render_message_content, summarize_message_content, EntityKind, FormattedText,
    MessageContent, TextEntity,
};

fn formatted(text: &str, entities: Vec<TextEntity>) -> FormattedText {
    FormattedText { text: text.to_string(), entities }
}

fn bold_all(text: &str) -> FormattedText {
    let n = text.encode_utf16().count() as i32;
    formatted(text, vec![TextEntity { offset: 0, length: n, kind: EntityKind::Bold }])
}

#[test]
fn text_content_is_rendered() {
    let content = MessageContent::MessageText(bold_all("a<b"));
    assert_eq!(render_message_content(content, "unused"), "<b>a&lt;b</b>");
}

#[test]
fn other_content_gives_italic_notice() {
    assert_eq!(render_message_content(MessageContent::Other, "Not here"), "<i>Not here</i>");
}

#[test]
fn notice_does_not_depend_on_payload() {
    let photo = MessageContent::MessagePhoto(bold_all("caption"));
    let other_photo = MessageContent::MessagePhoto(formatted("", vec![]));
    let a = render_message_content(photo, "N");
    let b = render_message_content(other_photo, "N");
    let c = render_message_content(MessageContent::Other, "N");
    assert_eq!(a, "<i>N</i>");
    assert_eq!(a, b);
    assert_eq!(b, c);
}

#[test]
fn summary_is_escaped_plain_text() {
    let content = MessageContent::MessageText(bold_all("1 < 2 & 'x'"));
    assert_eq!(summarize_message_content(&content, "N"), "1 &lt; 2 &amp; &#x27;x&#x27;");
}

#[test]
fn summary_of_other_content_is_the_notice() {
    assert_eq!(summarize_message_content(&MessageContent::Other, "N"), "<i>N</i>");
    let photo = MessageContent::MessagePhoto(bold_all("c"));
    assert_eq!(summarize_message_content(&photo, "N"), "<i>N</i>");
}
