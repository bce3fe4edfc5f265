use vstd::prelude::*;

verus! {

/// The markup-safe form of one character.
pub open spec fn escape_char(c: char) -> Seq<char> {
    if c == '<' {
        seq!['&', 'l', 't', ';']
    } else if c == '>' {
        seq!['&', 'g', 't', ';']
    } else if c == '&' {
        seq!['&', 'a', 'm', 'p', ';']
    } else if c == '"' {
        seq!['&', 'q', 'u', 'o', 't', ';']
    } else if c == '\'' {
        seq!['&', '#', 'x', '2', '7', ';']
    } else {
        seq![c]
    }
}

/// The markup-safe form of a text: each character replaced by its escape.
pub open spec fn escape_text(s: Seq<char>) -> Seq<char>
    decreases s.len(),
{
    if s.len() == 0 {
        Seq::empty()
    } else {
        escape_text(s.drop_last()) + escape_char(s.last())
    }
}

/// Relies on askama_escape::escape with the Html escaper: it writes the text
/// with `<`, `>`, `&`, `"` and `'` replaced by `&lt;`, `&gt;`, `&amp;`,
/// `&quot;` and `&#x27;`, and every other character unchanged.
#[verifier::external_body]
pub(crate) fn escape(s: &str) -> (r: String)
    ensures
        r@ == escape_text(s@),
{
    askama_escape::escape(s, askama_escape::Html).to_string()
}

} // verus!
