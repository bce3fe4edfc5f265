use vstd::prelude::*;
use vstd::string::{StrSliceExecFns, StringExecFns};

use crate::entity::EntityKind;
use crate::escape::{escape, escape_text};

verus! {

/// Whether `s` begins with `p`.
pub open spec fn has_prefix(s: Seq<char>, p: Seq<char>) -> bool {
    p.len() <= s.len() && s.subrange(0, p.len() as int) == p
}

/// A link target for a bare address: kept as it is when it already names the
/// http or https scheme, else given the http scheme.
pub open spec fn linkify_spec(s: Seq<char>) -> Seq<char> {
    if has_prefix(s, "http://"@) || has_prefix(s, "https://"@) {
        s
    } else {
        "http://"@ + s
    }
}

/// `inner` between an opening and a closing tag.
pub open spec fn tagged(open: Seq<char>, inner: Seq<char>, close: Seq<char>) -> Seq<char> {
    open + inner + close
}

/// A link to `href` whose displayed content is `inner`.
pub open spec fn anchor(href: Seq<char>, inner: Seq<char>) -> Seq<char> {
    "<a href='"@ + href + "'>"@ + inner + "</a>"@
}

/// The markup that an entity of the given kind puts around already escaped
/// content `inner`. `span` is the escaped text of the entity's span without
/// any markup: the links that the text itself names point at it.
pub open spec fn markup_of(inner: Seq<char>, span: Seq<char>, kind: EntityKind) -> Seq<char> {
    match kind {
        EntityKind::Url => anchor(linkify_spec(span), inner),
        EntityKind::Email => anchor("mailto:"@ + span, inner),
        EntityKind::Phone => anchor("tel:"@ + span, inner),
        EntityKind::Bold => tagged("<b>"@, inner, "</b>"@),
        EntityKind::Italic => tagged("<i>"@, inner, "</i>"@),
        EntityKind::Underline => tagged("<u>"@, inner, "</u>"@),
        EntityKind::Strikethrough => tagged("<s>"@, inner, "</s>"@),
        EntityKind::Code | EntityKind::Pre | EntityKind::PreWithLanguage(_) => tagged(
            "<tt>"@,
            inner,
            "</tt>"@,
        ),
        EntityKind::TextUrl(url) => anchor(escape_text(url@), inner),
        EntityKind::Unsupported => inner,
    }
}

fn starts_with(s: &str, p: &str) -> (r: bool)
    ensures
        r == has_prefix(s@, p@),
{
    let n = s.unicode_len();
    let m = p.unicode_len();
    if m > n {
        return false;
    }
    let mut i: usize = 0;
    while i < m
        invariant
            m == p@.len(),
            n == s@.len(),
            m <= n,
            i <= m,
            forall|k: int| 0 <= k < i ==> s@[k] == p@[k],
        decreases m - i,
    {
        if s.get_char(i) != p.get_char(i) {
            assert(s@.subrange(0, m as int)[i as int] != p@[i as int]);
            return false;
        }
        i = i + 1;
    }
    assert(s@.subrange(0, m as int) =~= p@);
    true
}

/// Turns a bare address into a link target with a scheme.
pub fn linkify(text: &str) -> (r: String)
    ensures
        r@ == linkify_spec(text@),
{
    if starts_with(text, "http://") || starts_with(text, "https://") {
        text.to_owned()
    } else {
        let mut r = String::from_str("http://");
        r.append(text);
        r
    }
}

fn anchor_to(href: &str, inner: &str) -> (r: String)
    ensures
        r@ == anchor(href@, inner@),
{
    let mut r = String::from_str("<a href='");
    r.append(href);
    r.append("'>");
    r.append(inner);
    r.append("</a>");
    r
}

fn tag_with(open: &str, inner: &str, close: &str) -> (r: String)
    ensures
        r@ == tagged(open@, inner@, close@),
{
    let mut r = String::from_str(open);
    r.append(inner);
    r.append(close);
    r
}

/// Wraps escaped content `text` in the markup of an entity kind; `span` is
/// the escaped text of the entity's span, the target of the links that the
/// text itself names.
pub fn convert_to_markup(text: String, span: &str, kind: &EntityKind) -> (r: String)
    ensures
        r@ == markup_of(text@, span@, *kind),
{
    match kind {
        EntityKind::Url => {
            let href = linkify(span);
            anchor_to(href.as_str(), text.as_str())
        },
        EntityKind::Email => {
            let mut href = String::from_str("mailto:");
            href.append(span);
            anchor_to(href.as_str(), text.as_str())
        },
        EntityKind::Phone => {
            let mut href = String::from_str("tel:");
            href.append(span);
            anchor_to(href.as_str(), text.as_str())
        },
        EntityKind::Bold => tag_with("<b>", text.as_str(), "</b>"),
        EntityKind::Italic => tag_with("<i>", text.as_str(), "</i>"),
        EntityKind::Underline => tag_with("<u>", text.as_str(), "</u>"),
        EntityKind::Strikethrough => tag_with("<s>", text.as_str(), "</s>"),
        EntityKind::Code | EntityKind::Pre | EntityKind::PreWithLanguage(_) => tag_with(
            "<tt>",
            text.as_str(),
            "</tt>",
        ),
        EntityKind::TextUrl(url) => {
            let href = escape(url.as_str());
            anchor_to(href.as_str(), text.as_str())
        },
        EntityKind::Unsupported => text,
    }
}

} // verus!
