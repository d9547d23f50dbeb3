//! Markup that wraps every word of a text into an addressable element.
use vstd::prelude::*;
use vstd::string::*;

use crate::decimal::{decimal, write_decimal};

verus! {

/// The characters with the Unicode White_Space property.
pub open spec fn is_white_space(c: char) -> bool {
    ('\u{9}' <= c && c <= '\u{d}') || c == ' ' || c == '\u{85}' || c == '\u{a0}'
        || c == '\u{1680}' || ('\u{2000}' <= c && c <= '\u{200a}') || c == '\u{2028}'
        || c == '\u{2029}' || c == '\u{202f}' || c == '\u{205f}' || c == '\u{3000}'
}

/// Tells whether `c` has the Unicode White_Space property.
pub fn white_space(c: char) -> (r: bool)
    ensures
        r == is_white_space(c),
{
    ('\u{9}' <= c && c <= '\u{d}') || c == ' ' || c == '\u{85}' || c == '\u{a0}'
        || c == '\u{1680}' || ('\u{2000}' <= c && c <= '\u{200a}') || c == '\u{2028}'
        || c == '\u{2029}' || c == '\u{202f}' || c == '\u{205f}' || c == '\u{3000}'
}

/// No white space in `c` stands before a character that is not white space:
/// `c` is a run of other characters followed by a run of white space.
pub open spec fn word_then_space(c: Seq<char>) -> bool {
    forall|i: int, j: int|
        0 <= i < j < c.len() && is_white_space(#[trigger] c[i]) ==> is_white_space(
            #[trigger] c[j],
        )
}

/// `cs` cuts `s` into chunks, each a (possibly empty) word and the white space
/// after it, every word whole: what the successive matches of `[^\s]*\s*`
/// give.
pub open spec fn is_chunking(s: Seq<char>, cs: Seq<Seq<char>>) -> bool {
    &&& cs.flatten() == s
    &&& forall|i: int| 0 <= i < cs.len() ==> word_then_space(#[trigger] cs[i])
    &&& forall|i: int|
        0 < i < cs.len() ==> (#[trigger] cs[i]).len() > 0 && !is_white_space(cs[i][0])
    &&& forall|i: int|
        0 <= i < cs.len() - 1 ==> (#[trigger] cs[i]).len() > 0 && is_white_space(
            cs[i].last(),
        )
}

/// Relies on regex::Regex::find_iter with the pattern `[^\s]*\s*`: the
/// successive leftmost-first matches, non-overlapping, in order, where `\s` is
/// Unicode White_Space and both repetitions are greedy.
#[verifier::external_body]
fn word_chunks(text: &str) -> (r: Vec<String>)
    ensures
        is_chunking(text@, r@.map_values(|c: String| c@)),
{
    let re = regex::Regex::new(r"[^\s]*\s*").unwrap();
    re.find_iter(text).map(|m| m.as_str().to_string()).collect()
}

/// A chunk that holds a word.
pub open spec fn is_word(c: Seq<char>) -> bool {
    c.len() > 0 && !is_white_space(c[0])
}

/// How many of the chunks hold a word.
pub open spec fn word_count(cs: Seq<Seq<char>>) -> nat
    decreases cs.len(),
{
    if cs.len() == 0 {
        0
    } else {
        word_count(cs.drop_last()) + if is_word(cs.last()) {
            1nat
        } else {
            0nat
        }
    }
}

/// The element that carries the word `w` under the id `id`.
pub open spec fn word_span(id: nat, w: Seq<char>) -> Seq<char> {
    "<span class=\"phys-obj phys-id-"@ + decimal(id) + "\">"@ + w + "</span>"@
}

/// The chunks that hold a word, each in its element, with ids counted up from
/// `first_id` in order; chunks of white space alone are left out.
pub open spec fn tagged(cs: Seq<Seq<char>>, first_id: nat) -> Seq<char>
    decreases cs.len(),
{
    if cs.len() == 0 {
        Seq::empty()
    } else if is_word(cs.last()) {
        tagged(cs.drop_last(), first_id) + word_span(
            first_id + word_count(cs.drop_last()),
            cs.last(),
        )
    } else {
        tagged(cs.drop_last(), first_id)
    }
}

proof fn lemma_word_count_prefix(cs: Seq<Seq<char>>, i: int)
    requires
        0 <= i <= cs.len(),
    ensures
        word_count(cs.take(i)) <= word_count(cs),
    decreases cs.len() - i,
{
    if i < cs.len() {
        lemma_word_count_prefix(cs, i + 1);
        assert(cs.take(i + 1).drop_last() =~= cs.take(i));
    } else {
        assert(cs.take(i) =~= cs);
    }
}

/// How many words `s` holds: the characters that are not white space and
/// stand first or after white space.
pub open spec fn word_starts(s: Seq<char>) -> nat
    decreases s.len(),
{
    if s.len() == 0 {
        0
    } else {
        word_starts(s.drop_last()) + if !is_white_space(s.last()) && (s.len() == 1
            || is_white_space(s[s.len() - 2])) {
            1nat
        } else {
            0nat
        }
    }
}

proof fn lemma_word_starts_append(a: Seq<char>, b: Seq<char>)
    requires
        a.len() == 0 || is_white_space(a.last()),
        word_then_space(b),
    ensures
        word_starts(a + b) == word_starts(a) + if is_word(b) {
            1nat
        } else {
            0nat
        },
    decreases b.len(),
{
    if b.len() == 0 {
        assert(a + b =~= a);
    } else {
        let b1 = b.drop_last();
        assert((a + b).drop_last() =~= a + b1);
        assert(word_then_space(b1)) by {
            assert forall|i: int, j: int|
                0 <= i < j < b1.len() && is_white_space(#[trigger] b1[i]) implies is_white_space(
                #[trigger] b1[j],
            ) by {
                assert(b1[i] == b[i] && b1[j] == b[j]);
            }
        }
        lemma_word_starts_append(a, b1);
        let ab = a + b;
        assert(ab.last() == b.last());
        if b.len() >= 2 {
            assert(ab[ab.len() - 2] == b[b.len() - 2]);
            assert(b1[0] == b[0]);
            if is_white_space(b[b.len() - 2]) {
                assert(is_white_space(b[b.len() - 1]));
            }
        } else if a.len() > 0 {
            assert(ab[ab.len() - 2] == a.last());
        }
    }
}

proof fn lemma_flatten_push_last(cs: Seq<Seq<char>>)
    requires
        cs.len() > 0,
    ensures
        cs.flatten() == cs.drop_last().flatten() + cs.last(),
{
    cs.lemma_flatten_and_flatten_alt_are_equivalent();
    cs.drop_last().lemma_flatten_and_flatten_alt_are_equivalent();
}

/// However a text is cut into chunks, the chunks that hold a word are as many
/// as the text's words.
proof fn lemma_word_count_is_word_starts(s: Seq<char>, cs: Seq<Seq<char>>)
    requires
        is_chunking(s, cs),
    ensures
        word_count(cs) == word_starts(s),
    decreases cs.len(),
{
    if cs.len() == 0 {
        assert(cs.flatten() =~= Seq::<char>::empty());
    } else {
        let pre = cs.drop_last();
        let sp = pre.flatten();
        lemma_flatten_push_last(cs);
        assert(is_chunking(sp, pre)) by {
            assert forall|i: int| 0 <= i < pre.len() implies word_then_space(#[trigger] pre[i]) by {
                assert(pre[i] == cs[i]);
            }
            assert forall|i: int| 0 < i < pre.len() implies (#[trigger] pre[i]).len() > 0
                && !is_white_space(pre[i][0]) by {
                assert(pre[i] == cs[i]);
            }
            assert forall|i: int| 0 <= i < pre.len() - 1 implies (#[trigger] pre[i]).len() > 0
                && is_white_space(pre[i].last()) by {
                assert(pre[i] == cs[i]);
            }
        }
        lemma_word_count_is_word_starts(sp, pre);
        if pre.len() > 0 {
            lemma_flatten_push_last(pre);
            assert(pre.last() == cs[cs.len() - 2]);
            assert(sp.last() == pre.last().last());
        }
        assert(cs.last() == cs[cs.len() - 1]);
        lemma_word_starts_append(sp, cs.last());
    }
}

/// Appends the element that carries the word `w` under the id `id`.
fn write_word_span(out: &mut String, id: u32, w: &str)
    ensures
        final(out)@ == old(out)@ + word_span(id as nat, w@),
{
    out.append("<span class=\"phys-obj phys-id-");
    write_decimal(out, id as u64);
    out.append("\">");
    out.append(w);
    out.append("</span>");
    assert(final(out)@ =~= old(out)@ + word_span(id as nat, w@));
}

/// Text in which every word, with the white space after it, stands in an
/// element of its own that carries a fresh id.
pub struct ProcessedText {
    pub raw_html: String,
}

impl ProcessedText {
    /// Wraps each word of `html` in an element of class `phys-obj phys-id-N`,
    /// taking the ids from `obj_count` up; `obj_count` ends one past the last
    /// id given.
    pub fn new(html: String, obj_count: &mut u32) -> (r: ProcessedText)
        requires
            *old(obj_count) + word_starts(html@) <= u32::MAX,
        ensures
            *final(obj_count) == *old(obj_count) + word_starts(html@),
            exists|cs: Seq<Seq<char>>|
                {
                    &&& is_chunking(html@, cs)
                    &&& r.raw_html@ == tagged(cs, *old(obj_count) as nat)
                    &&& *final(obj_count) == *old(obj_count) + word_count(cs)
                },
    {
        let chunks = word_chunks(html.as_str());
        let ghost cs = chunks@.map_values(|c: String| c@);
        let mut span_text = String::new();
        let mut i: usize = 0;
        proof {
            lemma_word_count_is_word_starts(html@, cs);
        }
        while i < chunks.len()
            invariant
                0 <= i <= chunks.len(),
                cs == chunks@.map_values(|c: String| c@),
                is_chunking(html@, cs),
                *old(obj_count) + word_starts(html@) <= u32::MAX,
                word_count(cs) == word_starts(html@),
                span_text@ == tagged(cs.take(i as int), *old(obj_count) as nat),
                *obj_count == *old(obj_count) + word_count(cs.take(i as int)),
            decreases chunks.len() - i,
        {
            let chunk = &chunks[i];
            proof {
                assert(cs.take(i + 1).drop_last() =~= cs.take(i as int));
                assert(cs.take(i + 1).last() == chunk@);
                lemma_word_count_prefix(cs, i + 1);
            }
            if chunk.as_str().unicode_len() > 0 && !white_space(chunk.as_str().get_char(0)) {
                write_word_span(&mut span_text, *obj_count, chunk.as_str());
                *obj_count = *obj_count + 1;
            }
            i = i + 1;
        }
        assert(cs.take(i as int) =~= cs);
        ProcessedText { raw_html: span_text }
    }
}

/// The markup of a `<p>` element: `<p attrs>`, a newline and a tab, the
/// inner markup, a newline, `</p>`.
pub open spec fn paragraph_markup(attrs: Option<Seq<char>>, inner: Seq<char>) -> Seq<char> {
    match attrs {
        Some(a) => "<p "@ + a + ">\n\t"@ + inner + "\n</p>"@,
        None => "<p>\n\t"@ + inner + "\n</p>"@,
    }
}

/// A paragraph element, as markup.
pub struct Paragraph {
    pub raw_html: String,
}

impl Paragraph {
    /// Builds the paragraph around `html`, with the attribute text `attrs`
    /// written into the opening tag when there is one.
    pub fn new(attrs_option: Option<String>, html: String) -> (r: Paragraph)
        ensures
            r.raw_html@ == paragraph_markup(opt_view(attrs_option), html@),
    {
        let mut out = String::new();
        match attrs_option {
            Some(attrs) => {
                out.append("<p ");
                out.append(attrs.as_str());
                out.append(">\n\t");
            },
            None => {
                out.append("<p>\n\t");
            },
        }
        out.append(html.as_str());
        out.append("\n</p>");
        Paragraph { raw_html: out }
    }
}

/// The view of an optional string.
pub open spec fn opt_view(o: Option<String>) -> Option<Seq<char>> {
    match o {
        Some(a) => Some(a@),
        None => None,
    }
}

/// The markup of an `<a>` element whose text is one element with the id `id`.
pub open spec fn anchor_markup(attrs: Option<Seq<char>>, id: nat, inner: Seq<char>) -> Seq<char> {
    let open_tag = match attrs {
        Some(a) => "<a "@ + a + ">"@,
        None => "<a>"@,
    };
    open_tag + "\n\t"@ + word_span(id, inner) + "\n</a>"@
}

/// A link element, as markup; its whole text is one object.
pub struct Anchor {
    pub raw_html: String,
}

impl Anchor {
    /// Builds the link around `html`, wrapped in one element with the id
    /// `obj_id`, with the attribute text `attrs_option` in the opening tag
    /// when there is one.
    pub fn new(attrs_option: Option<String>, html: String, obj_id: u32) -> (r: Anchor)
        ensures
            r.raw_html@ == anchor_markup(opt_view(attrs_option), obj_id as nat, html@),
    {
        let mut out = String::new();
        match attrs_option {
            Some(attrs) => {
                out.append("<a ");
                out.append(attrs.as_str());
                out.append(">");
            },
            None => {
                out.append("<a>");
            },
        }
        out.append("\n\t");
        write_word_span(&mut out, obj_id, html.as_str());
        out.append("\n</a>");
        assert(out@ =~= anchor_markup(opt_view(attrs_option), obj_id as nat, html@));
        Anchor { raw_html: out }
    }
}

/// Builds a paragraph whose words each carry a fresh id, counted from
/// `obj_count` up; `obj_count` ends one past the last id given.
pub fn formatted_paragraph_factory(attrs: Option<String>, html: String, obj_count: &mut u32) -> (r:
    Paragraph)
    requires
        *old(obj_count) + word_starts(html@) <= u32::MAX,
    ensures
        *final(obj_count) == *old(obj_count) + word_starts(html@),
        exists|cs: Seq<Seq<char>>|
            {
                &&& is_chunking(html@, cs)
                &&& r.raw_html@ == paragraph_markup(
                    opt_view(attrs),
                    tagged(cs, *old(obj_count) as nat),
                )
                &&& *final(obj_count) == *old(obj_count) + word_count(cs)
            },
{
    let text = ProcessedText::new(html, obj_count);
    Paragraph::new(attrs, text.raw_html)
}

/// Builds a link whose text is one object with the id `obj_count`, and moves
/// `obj_count` on by one.
pub fn formatted_anchor_factory(attrs: Option<String>, html: String, obj_count: &mut u32) -> (r:
    Anchor)
    requires
        *old(obj_count) < u32::MAX,
    ensures
        r.raw_html@ == anchor_markup(opt_view(attrs), *old(obj_count) as nat, html@),
        *final(obj_count) == *old(obj_count) + 1,
{
    let id = *obj_count;
    *obj_count = id + 1;
    Anchor::new(attrs, html, id)
}

/// The attribute text of an element: `name="value" ` for each attribute, in
/// order, that has a value.
pub open spec fn attribute_text(attrs: Seq<(Seq<char>, Option<Seq<char>>)>) -> Seq<char>
    decreases attrs.len(),
{
    if attrs.len() == 0 {
        Seq::empty()
    } else {
        attribute_text(attrs.drop_last()) + match attrs.last().1 {
            Some(v) => attrs.last().0 + "=\""@ + v + "\" "@,
            None => Seq::empty(),
        }
    }
}

/// The view of a list of attributes, each a name and a value if it has one.
pub open spec fn attrs_view(attrs: Seq<(String, Option<String>)>) -> Seq<
    (Seq<char>, Option<Seq<char>>),
> {
    attrs.map_values(|a: (String, Option<String>)| (a.0@, opt_view(a.1)))
}

/// The attribute text of an element whose attributes are `attrs` (name and,
/// if it has one, value), or `None` where that text is empty.
pub fn attributes_text(attrs: &Vec<(String, Option<String>)>) -> (r: Option<String>)
    ensures
        r == None::<String> <==> attribute_text(attrs_view(attrs@)).len() == 0,
        r matches Some(t) ==> t@ == attribute_text(attrs_view(attrs@)),
{
    let mut out = String::new();
    let mut i: usize = 0;
    while i < attrs.len()
        invariant
            0 <= i <= attrs.len(),
            out@ == attribute_text(attrs_view(attrs@).take(i as int)),
        decreases attrs.len() - i,
    {
        let ghost v = attrs_view(attrs@);
        assert(v.take(i + 1).drop_last() =~= v.take(i as int));
        match &attrs[i].1 {
            Some(value) => {
                out.append(attrs[i].0.as_str());
                out.append("=\"");
                out.append(value.as_str());
                out.append("\" ");
                assert(out@ =~= attribute_text(v.take(i + 1)));
            },
            None => {},
        }
        i = i + 1;
    }
    assert(attrs_view(attrs@).take(i as int) =~= attrs_view(attrs@));
    if out.as_str().unicode_len() != 0 {
        Some(out)
    } else {
        None
    }
}

} // verus!
