//! Rendering of Telegram formatted text (text plus UTF-16 entity spans) into
//! escaped Pango-style markup.
mod content;
mod entity;
mod escape;
mod markup;
mod render;

pub use content::{
    content_markup, content_summary, italic, lemma_unsupported_content_is_uniform,
    render_message_content, summarize_message_content, MessageContent,
};
pub use entity::{EntityKind, FormattedText, TextEntity};
pub use escape::{escape_char, escape_text};
pub use markup::{
    anchor, convert_to_markup, has_prefix, linkify, linkify_spec, markup_of, tagged,
};
pub use render::{
    char_utf16_len, fold_nested, lemma_render_deterministic, lemma_single_entity_wraps_its_span,
    lemma_walk_counts_code_units,
    parse_formatted_text, render_spec, utf16_len, utf16_len_of, walk, walk_close, walk_enter,
    walk_start, walk_step, Walk,
};
