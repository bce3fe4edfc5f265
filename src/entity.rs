use vstd::prelude::*;

verus! {

/// What an entity does to the text it spans.
pub enum EntityKind {
    Url,
    Email,
    Phone,
    Bold,
    Italic,
    Underline,
    Strikethrough,
    Code,
    Pre,
    /// A preformatted block; the language is kept but not rendered.
    PreWithLanguage(String),
    /// A link whose target is given explicitly rather than by the text.
    TextUrl(String),
    /// Any kind that has no markup of its own.
    Unsupported,
}

/// A formatting span over the text, measured in UTF-16 code units.
pub struct TextEntity {
    pub offset: i32,
    pub length: i32,
    pub kind: EntityKind,
}

impl TextEntity {
    /// The code-unit offset at which the entity ends.
    pub open spec fn end(self) -> int {
        self.offset + self.length
    }
}

/// Text together with its entities, expected in ascending order of offset.
pub struct FormattedText {
    pub text: String,
    pub entities: Vec<TextEntity>,
}

} // verus!
