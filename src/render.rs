use vstd::prelude::*;
use vstd::string::{StrSliceExecFns, StringExecFns};
use vstd::std_specs::iter::IteratorSpec;

use crate::entity::{FormattedText, TextEntity};
use crate::escape::{escape, escape_text};
use crate::markup::{convert_to_markup, markup_of};

verus! {

broadcast use vstd::string::group_string_axioms;

/// Number of UTF-16 code units that encode `c`: two for a character outside
/// the Basic Multilingual Plane, one otherwise.
pub open spec fn utf16_len(c: char) -> int {
    if (c as u32) < 0x10000 {
        1
    } else {
        2
    }
}

/// Number of UTF-16 code units of a whole text.
pub open spec fn utf16_len_of(s: Seq<char>) -> int
    decreases s.len(),
{
    if s.len() == 0 {
        0
    } else {
        utf16_len_of(s.drop_last()) + utf16_len(s.last())
    }
}

/// The state of a left-to-right walk over the text.
pub struct Walk {
    /// Markup produced so far.
    pub output: Seq<char>,
    /// Characters read but not yet written out.
    pub buffer: Seq<char>,
    /// Index of the entity that is open, or that comes next.
    pub cursor: int,
    /// Whether the entity at `cursor` is open.
    pub inside: bool,
    /// Code units read so far.
    pub pos: int,
}

/// The walk before any character is read.
pub open spec fn walk_start() -> Walk {
    Walk { output: Seq::empty(), buffer: Seq::empty(), cursor: 0, inside: false, pos: 0 }
}

/// Wraps `acc` in the markup of each entity from index `j` on that starts at
/// code unit `off`, in sequence order, with `span` as the escaped text of
/// their common span; gives the result and the index of the first entity that
/// does not start there.
pub open spec fn fold_nested(
    ents: Seq<TextEntity>,
    off: int,
    j: int,
    span: Seq<char>,
    acc: Seq<char>,
) -> (Seq<char>, int)
    decreases ents.len() - j,
{
    if 0 <= j < ents.len() && ents[j].offset == off {
        fold_nested(ents, off, j + 1, span, markup_of(acc, span, ents[j].kind))
    } else {
        (acc, j)
    }
}

/// Opens the next entity when the walk is outside and has reached its
/// offset; pending plain text is written out escaped.
pub open spec fn walk_enter(ents: Seq<TextEntity>, w: Walk) -> Walk {
    if !w.inside && 0 <= w.cursor < ents.len() && w.pos >= ents[w.cursor].offset {
        Walk {
            output: w.output + escape_text(w.buffer),
            buffer: Seq::empty(),
            cursor: w.cursor,
            inside: true,
            pos: w.pos,
        }
    } else {
        w
    }
}

/// Closes the open entity when the walk has reached its end: the escaped
/// buffer is wrapped by the entities nested at the same offset, then by the
/// open one, and the walk moves past all of them. Links take their target
/// from the escaped buffer, never from the markup nested inside them.
pub open spec fn walk_close(ents: Seq<TextEntity>, w: Walk) -> Walk {
    if w.inside && 0 <= w.cursor < ents.len() && w.pos >= ents[w.cursor].end() {
        let e = ents[w.cursor];
        let span = escape_text(w.buffer);
        let folded = fold_nested(ents, e.offset as int, w.cursor + 1, span, span);
        Walk {
            output: w.output + markup_of(folded.0, span, e.kind),
            buffer: Seq::empty(),
            cursor: folded.1,
            inside: false,
            pos: w.pos,
        }
    } else {
        w
    }
}

/// One character of the walk: maybe open an entity, read the character,
/// maybe close the entity.
pub open spec fn walk_step(ents: Seq<TextEntity>, w: Walk, c: char) -> Walk {
    let w1 = walk_enter(ents, w);
    walk_close(
        ents,
        Walk {
            output: w1.output,
            buffer: w1.buffer.push(c),
            cursor: w1.cursor,
            inside: w1.inside,
            pos: w1.pos + utf16_len(c),
        },
    )
}

/// The walk after reading all of `text`.
pub open spec fn walk(ents: Seq<TextEntity>, text: Seq<char>) -> Walk
    decreases text.len(),
{
    if text.len() == 0 {
        walk_start()
    } else {
        walk_step(ents, walk(ents, text.drop_last()), text.last())
    }
}

/// The markup of a formatted text: the walk's output, followed by whatever
/// is still pending, escaped.
///
/// An entity opens at the first character read once the walk stands at or
/// past its offset, and closes after the character that takes the walk to or
/// past its end; so a zero-length entity wraps the one character at its
/// offset, and an entity that ends past the text leaves its part of the text
/// plain.
pub open spec fn render_spec(text: Seq<char>, ents: Seq<TextEntity>) -> Seq<char> {
    let w = walk(ents, text);
    w.output + escape_text(w.buffer)
}

/// Rendering is a function of the text and the entities alone: two
/// formatted texts with the same characters and the same entities render to
/// the same markup.
pub proof fn lemma_render_deterministic(a: FormattedText, b: FormattedText)
    requires
        a.text@ == b.text@,
        a.entities@ == b.entities@,
    ensures
        render_spec(a.text@, a.entities@) == render_spec(b.text@, b.entities@),
{
}

/// The walk measures its position in UTF-16 code units: after any prefix of
/// the text, whatever the entities, it stands at the prefix's code-unit
/// length, so a character outside the Basic Multilingual Plane advances it by
/// two.
pub proof fn lemma_walk_counts_code_units(ents: Seq<TextEntity>, text: Seq<char>)
    ensures
        walk(ents, text).pos == utf16_len_of(text),
    decreases text.len(),
{
    if text.len() > 0 {
        lemma_walk_counts_code_units(ents, text.drop_last());
    }
}

proof fn lemma_utf16_concat(a: Seq<char>, b: Seq<char>)
    ensures
        utf16_len_of(a + b) == utf16_len_of(a) + utf16_len_of(b),
    decreases b.len(),
{
    if b.len() == 0 {
        assert(a + b =~= a);
    } else {
        assert((a + b).drop_last() =~= a + b.drop_last());
        lemma_utf16_concat(a, b.drop_last());
    }
}

proof fn lemma_utf16_at_least_len(s: Seq<char>)
    ensures
        utf16_len_of(s) >= s.len(),
    decreases s.len(),
{
    if s.len() > 0 {
        lemma_utf16_at_least_len(s.drop_last());
    }
}

proof fn lemma_utf16_prefix_shorter(s: Seq<char>, k: int)
    requires
        0 <= k < s.len(),
    ensures
        utf16_len_of(s.take(k)) < utf16_len_of(s),
{
    assert(s.take(k) + s.skip(k) =~= s);
    lemma_utf16_concat(s.take(k), s.skip(k));
    lemma_utf16_at_least_len(s.skip(k));
}

proof fn lemma_single_entity_walk(e: TextEntity, p: Seq<char>, q: Seq<char>, k: int)
    requires
        q.len() > 0,
        e.offset == utf16_len_of(p),
        e.end() == utf16_len_of(p + q),
        0 <= k <= p.len() + q.len(),
    ensures
        ({
            let s = p + q;
            let w = walk(seq![e], s.take(k));
            &&& k <= p.len() ==> w == (Walk {
                output: Seq::empty(),
                buffer: s.take(k),
                cursor: 0,
                inside: false,
                pos: utf16_len_of(s.take(k)),
            })
            &&& p.len() < k < s.len() ==> w == (Walk {
                output: escape_text(p),
                buffer: s.subrange(p.len() as int, k),
                cursor: 0,
                inside: true,
                pos: utf16_len_of(s.take(k)),
            })
            &&& k == s.len() ==> w == (Walk {
                output: escape_text(p) + markup_of(escape_text(q), escape_text(q), e.kind),
                buffer: Seq::empty(),
                cursor: 1,
                inside: false,
                pos: utf16_len_of(s),
            })
        }),
    decreases k,
{
    let s = p + q;
    let ents = seq![e];
    if k == 0 {
        assert(s.take(0) =~= Seq::<char>::empty());
    } else {
        lemma_single_entity_walk(e, p, q, k - 1);
        let prev = s.take(k - 1);
        let c = s[k - 1];
        assert(s.take(k).drop_last() =~= prev);
        assert(s.take(k).last() == c);
        assert(utf16_len_of(s.take(k)) == utf16_len_of(prev) + utf16_len(c));
        if k < s.len() {
            lemma_utf16_prefix_shorter(s, k);
        }
        assert(s.take(s.len() as int) =~= s);
        if k <= p.len() {
            assert(prev =~= p.take(k - 1));
            lemma_utf16_prefix_shorter(p, k - 1);
            assert(prev.push(c) =~= s.take(k));
        } else if k == p.len() + 1 {
            assert(prev =~= p);
            assert(Seq::<char>::empty().push(c) =~= s.subrange(p.len() as int, k));
            if k == s.len() {
                assert(s.subrange(p.len() as int, k) =~= q);
                assert(fold_nested(ents, e.offset as int, 1, escape_text(q), escape_text(q)) == (
                    escape_text(q),
                    1int,
                ));
            }
        } else {
            assert(s.subrange(p.len() as int, k - 1).push(c) =~= s.subrange(p.len() as int, k));
            if k == s.len() {
                assert(s.subrange(p.len() as int, k) =~= q);
                assert(fold_nested(ents, e.offset as int, 1, escape_text(q), escape_text(q)) == (
                    escape_text(q),
                    1int,
                ));
            }
        }
    }
}

/// Entity bounds are code-unit counts: a single entity that starts at the
/// UTF-16 length of `before` and ends at that of `before + span` wraps exactly
/// `span`, however many characters of `before` take two code units; the text
/// before it stays plain and escaped.
pub proof fn lemma_single_entity_wraps_its_span(e: TextEntity, before: Seq<char>, span: Seq<char>)
    requires
        span.len() > 0,
        e.offset == utf16_len_of(before),
        e.end() == utf16_len_of(before + span),
    ensures
        render_spec(before + span, seq![e]) == escape_text(before) + markup_of(
            escape_text(span),
            escape_text(span),
            e.kind,
        ),
{
    let s = before + span;
    lemma_single_entity_walk(e, before, span, s.len() as int);
    assert(s.take(s.len() as int) =~= s);
    assert(escape_text(Seq::<char>::empty()) == Seq::<char>::empty());
    let wrapped = markup_of(escape_text(span), escape_text(span), e.kind);
    assert(escape_text(before) + wrapped + Seq::<char>::empty() =~= escape_text(before) + wrapped);
}

/// Relies on String::push: appends one character.
#[verifier::external_body]
fn push_char(s: &mut String, c: char)
    ensures
        final(s)@ == old(s)@.push(c),
{
    s.push(c);
}

/// Number of UTF-16 code units that encode `c`.
pub fn char_utf16_len(c: char) -> (r: usize)
    ensures
        r == utf16_len(c),
{
    if (c as u32) < 0x10000 {
        1
    } else {
        2
    }
}

/// Renders a formatted text as markup: plain stretches escaped, each entity's
/// escaped text wrapped in its markup, entities that share an offset nested.
pub fn parse_formatted_text(formatted_text: FormattedText) -> (r: String)
    ensures
        r@ == render_spec(formatted_text.text@, formatted_text.entities@),
{
    let text = formatted_text.text.as_str();
    let ents = &formatted_text.entities;
    let n = text.unicode_len();
    let m = ents.len();
    let mut output = String::new();
    let mut buffer = String::new();
    let mut cursor: usize = 0;
    let mut inside = false;
    let mut pos: i128 = 0;
    let mut chars = text.chars();
    let mut i: usize = 0;
    while i < n
        invariant
            chars.remaining() == text@.skip(i as int),
            n == text@.len(),
            m == ents@.len(),
            text@ == formatted_text.text@,
            ents@ == formatted_text.entities@,
            i <= n,
            0 <= pos <= 2 * i,
            cursor <= ents@.len(),
            inside ==> cursor < ents@.len(),
            walk(ents@, text@.take(i as int)) == (Walk {
                output: output@,
                buffer: buffer@,
                cursor: cursor as int,
                inside,
                pos: pos as int,
            }),
        decreases n - i,
    {
        let c = chars.next().unwrap();
        assert(c == text@[i as int]);
        assert(chars.remaining() =~= text@.skip(i + 1));
        assert(text@.take(i + 1).drop_last() =~= text@.take(i as int));
        if !inside && cursor < ents.len() && pos >= ents[cursor].offset as i128 {
            let pending = escape(buffer.as_str());
            output.append(pending.as_str());
            buffer = String::new();
            inside = true;
        }
        push_char(&mut buffer, c);
        pos = pos + char_utf16_len(c) as i128;
        if inside && pos >= ents[cursor].offset as i128 + ents[cursor].length as i128 {
            let first = &ents[cursor];
            let span = escape(buffer.as_str());
            let mut acc = span.clone();
            let mut j: usize = cursor + 1;
            while j < m && ents[j].offset == first.offset
                invariant
                    cursor < j <= ents@.len(),
                    m == ents@.len(),
                    first == ents@[cursor as int],
                    fold_nested(ents@, first.offset as int, cursor + 1, span@, span@)
                        == fold_nested(ents@, first.offset as int, j as int, span@, acc@),
                decreases ents@.len() - j,
            {
                acc = convert_to_markup(acc, span.as_str(), &ents[j].kind);
                j = j + 1;
            }
            let wrapped = convert_to_markup(acc, span.as_str(), &first.kind);
            output.append(wrapped.as_str());
            buffer = String::new();
            inside = false;
            cursor = j;
        }
        i = i + 1;
    }
    assert(text@.take(n as int) =~= text@);
    let rest = escape(buffer.as_str());
    output.append(rest.as_str());
    output
}

} // verus!
