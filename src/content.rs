use vstd::prelude::*;
use vstd::string::StringExecFns;

use crate::entity::FormattedText;
use crate::escape::{escape, escape_text};
use crate::render::{parse_formatted_text, render_spec};

verus! {

/// The content of a message, as far as its text display is concerned.
pub enum MessageContent {
    /// A text message.
    MessageText(FormattedText),
    /// A photo, with its caption.
    MessagePhoto(FormattedText),
    /// Any other kind of message.
    Other,
}

/// `s` in italic markup.
pub open spec fn italic(s: Seq<char>) -> Seq<char> {
    "<i>"@ + s + "</i>"@
}

/// The markup of a message in the message list, given the notice shown for
/// content without a text display.
pub open spec fn content_markup(content: MessageContent, placeholder: Seq<char>) -> Seq<char> {
    match content {
        MessageContent::MessageText(ft) => render_spec(ft.text@, ft.entities@),
        _ => italic(placeholder),
    }
}

/// The one-line summary of a message in the chat list: its plain text,
/// escaped, or the notice in italics.
pub open spec fn content_summary(content: MessageContent, placeholder: Seq<char>) -> Seq<char> {
    match content {
        MessageContent::MessageText(ft) => escape_text(ft.text@),
        _ => italic(placeholder),
    }
}

fn italic_of(s: &str) -> (r: String)
    ensures
        r@ == italic(s@),
{
    let mut r = String::from_str("<i>");
    r.append(s);
    r.append("</i>");
    r
}

/// The markup of a message's content, with `placeholder` as the notice for
/// content that has no text display.
pub fn render_message_content(content: MessageContent, placeholder: &str) -> (r: String)
    ensures
        r@ == content_markup(content, placeholder@),
{
    match content {
        MessageContent::MessageText(ft) => parse_formatted_text(ft),
        _ => italic_of(placeholder),
    }
}

/// The chat-list summary of a message's content, with `placeholder` as the
/// notice for content that has no text display.
pub fn summarize_message_content(content: &MessageContent, placeholder: &str) -> (r: String)
    ensures
        r@ == content_summary(*content, placeholder@),
{
    match content {
        MessageContent::MessageText(ft) => escape(ft.text.as_str()),
        _ => italic_of(placeholder),
    }
}

/// Content without a text display is shown as the same italic notice,
/// whatever it carries: two such contents give equal markup.
pub proof fn lemma_unsupported_content_is_uniform(
    a: MessageContent,
    b: MessageContent,
    placeholder: Seq<char>,
)
    requires
        !(a is MessageText),
        !(b is MessageText),
    ensures
        content_markup(a, placeholder) == content_markup(b, placeholder),
        content_markup(a, placeholder) == italic(placeholder),
        content_summary(a, placeholder) == content_summary(b, placeholder),
{
}

} // verus!
