//! Lines of styled text.

use vstd::prelude::*;

use crate::segmentation::{display_width, text_width};
use crate::style::Style;
use crate::text::{
    byte_len, concat_text, copy_option, lemma_byte_len_concat, option_text, same_text,
    text_is_empty, text_len,
};
use crate::views::{group_views, views};

verus! {

broadcast use group_views;

/// A run of text in one style, which may be a link.
#[derive(Debug, PartialEq, Eq)]
pub struct StyledSpan {
    pub text: String,
    pub style: Style,
    pub link: Option<String>,
}

/// The mathematical form of a span.
#[verifier::ext_equal]
pub struct SpanView {
    pub text: Seq<char>,
    pub style: Style,
    pub link: Option<Seq<char>>,
}

impl View for StyledSpan {
    type V = SpanView;

    open spec fn view(&self) -> SpanView {
        SpanView { text: self.text@, style: self.style, link: option_text(self.link) }
    }
}

impl Clone for StyledSpan {
    fn clone(&self) -> (copy: StyledSpan)
        ensures
            copy@ == self@,
    {
        StyledSpan {
            text: self.text.clone(),
            style: self.style,
            link: copy_option(&self.link),
        }
    }
}

/// A line of styled text.
#[derive(Debug, PartialEq, Eq)]
pub struct StyledLine {
    pub spans: Vec<StyledSpan>,
}

impl View for StyledLine {
    type V = Seq<SpanView>;

    open spec fn view(&self) -> Seq<SpanView> {
        views(self.spans@)
    }
}

impl Default for StyledLine {
    fn default() -> (line: StyledLine)
        ensures
            line@ == Seq::<SpanView>::empty(),
    {
        StyledLine { spans: Vec::new() }
    }
}

impl Clone for StyledLine {
    fn clone(&self) -> (copy: StyledLine)
        ensures
            copy@ == self@,
    {
        let mut spans: Vec<StyledSpan> = Vec::new();
        let mut i: usize = 0;
        while i < self.spans.len()
            invariant
                i <= self.spans.len(),
                spans.len() == i,
                forall|j: int| 0 <= j < i ==> (#[trigger] spans@[j])@ == self.spans@[j]@,
            decreases self.spans.len() - i,
        {
            spans.push(self.spans[i].clone());
            i += 1;
        }
        let copy = StyledLine { spans };
        assert(copy@ =~= self@);
        copy
    }
}

/// The text of a line without its styles.
pub open spec fn plain(line: Seq<SpanView>) -> Seq<char>
    decreases line.len(),
{
    if line.len() == 0 {
        seq![]
    } else {
        plain(line.drop_last()) + line.last().text
    }
}

/// The columns that the spans of a line take.
pub open spec fn line_width(line: Seq<SpanView>) -> nat
    decreases line.len(),
{
    if line.len() == 0 {
        0
    } else {
        line_width(line.drop_last()) + display_width(line.last().text)
    }
}

/// A line with a text behind it: in its last span, where the style and the link
/// are the same, or else in a new one.
pub open spec fn add_text(
    line: Seq<SpanView>,
    text: Seq<char>,
    style: Style,
    link: Option<Seq<char>>,
) -> Seq<SpanView> {
    if text.len() == 0 {
        line
    } else if line.len() > 0 && line.last().style == style && line.last().link == link {
        line.update(line.len() - 1, SpanView { text: line.last().text + text, style, link })
    } else {
        line.push(SpanView { text, style, link })
    }
}

/// The text of a line grows by what is added to it.
pub proof fn lemma_plain_add(
    line: Seq<SpanView>,
    text: Seq<char>,
    style: Style,
    link: Option<Seq<char>>,
)
    ensures
        plain(add_text(line, text, style, link)) == plain(line) + text,
{
    let longer = add_text(line, text, style, link);
    if text.len() == 0 {
        assert(plain(line) + text =~= plain(line));
    } else if line.len() > 0 && line.last().style == style && line.last().link == link {
        assert(longer.drop_last() =~= line.drop_last());
        assert(plain(line.drop_last()) + (line.last().text + text) =~= plain(line.drop_last())
            + line.last().text + text);
    } else {
        assert(longer.drop_last() =~= line);
    }
}

pub proof fn lemma_plain_concat(a: Seq<SpanView>, b: Seq<SpanView>)
    ensures
        plain(a + b) == plain(a) + plain(b),
    decreases b.len(),
{
    if b.len() == 0 {
        assert(a + b =~= a);
        assert(plain(a) + plain(b) =~= plain(a));
    } else {
        lemma_plain_concat(a, b.drop_last());
        assert((a + b).drop_last() =~= a + b.drop_last());
        assert((a + b).last() == b.last());
        assert(plain(a) + plain(b.drop_last()) + b.last().text =~= plain(a) + (plain(b.drop_last())
            + b.last().text));
    }
}

/// Whether two optional texts are the same.
pub fn same_option(a: &Option<String>, b: &Option<String>) -> (same: bool)
    ensures
        same == (option_text(*a) == option_text(*b)),
{
    match (a, b) {
        (Some(a), Some(b)) => same_text(a.as_str(), b.as_str()),
        (None, None) => true,
        _ => false,
    }
}

impl StyledLine {
    /// A line with one span.
    pub fn from_span(text: &str, style: Style) -> (line: StyledLine)
        ensures
            line@ == seq![SpanView { text: text@, style, link: None }],
    {
        let mut spans: Vec<StyledSpan> = Vec::new();
        spans.push(StyledSpan { text: text.to_owned(), style, link: None });
        let line = StyledLine { spans };
        assert(line@ =~= seq![SpanView { text: text@, style, link: None }]);
        line
    }

    /// The text of the line without its styles.
    pub fn plain_text(&self) -> (text: String)
        ensures
            text@ == plain(self@),
    {
        let mut text = String::new();
        let mut i: usize = 0;
        assert(self@.take(0) =~= seq![]);
        while i < self.spans.len()
            invariant
                i <= self.spans.len(),
                text@ == plain(self@.take(i as int)),
            decreases self.spans.len() - i,
        {
            text.append(self.spans[i].text.as_str());
            proof {
                assert(self@.take(i + 1).drop_last() =~= self@.take(i as int));
                assert(self@.take(i + 1).last() == self.spans@[i as int]@);
            }
            i += 1;
        }
        assert(self@.take(self@.len() as int) =~= self@);
        text
    }

    /// The columns that the spans of the line take.
    pub fn width(&self) -> (width: usize)
        ensures
            width == line_width(self@),
    {
        let text = self.plain_text();
        let total: usize = text_len(text.as_str());
        let mut width: usize = 0;
        let mut i: usize = 0;
        assert(self@.take(0) =~= seq![]);
        while i < self.spans.len()
            invariant
                i <= self.spans.len(),
                width == line_width(self@.take(i as int)),
                width <= byte_len(plain(self@.take(i as int))),
                total == byte_len(plain(self@)),
            decreases self.spans.len() - i,
        {
            let columns: usize = text_width(self.spans[i].text.as_str());
            proof {
                let next = self@.take(i + 1);
                assert(next.drop_last() =~= self@.take(i as int));
                assert(next.last() == self.spans@[i as int]@);
                lemma_byte_len_concat(plain(self@.take(i as int)), self.spans@[i as int].text@);
                lemma_plain_concat(next, self@.skip(i + 1));
                assert(next + self@.skip(i + 1) =~= self@);
                lemma_byte_len_concat(plain(next), plain(self@.skip(i + 1)));
            }
            width += columns;
            i += 1;
        }
        assert(self@.take(self@.len() as int) =~= self@);
        width
    }

    /// Adds a text at the end of the line.
    pub fn push(&mut self, text: String, style: Style, link: Option<String>)
        ensures
            final(self)@ == add_text(old(self)@, text@, style, option_text(link)),
    {
        if text_is_empty(text.as_str()) {
            return;
        }
        let count: usize = self.spans.len();
        if count > 0 {
            let last = &self.spans[count - 1];
            assert(self@.last() == last@);
            if last.style.same(style) && same_option(&last.link, &link) {
                let longer = StyledSpan {
                    text: concat_text(last.text.as_str(), text.as_str()),
                    style,
                    link,
                };
                self.spans.set(count - 1, longer);
                return;
            }
        }
        self.spans.push(StyledSpan { text, style, link });
    }

    /// Adds a text that is no link at the end of the line.
    pub fn push_str(&mut self, text: &str, style: Style)
        ensures
            final(self)@ == add_text(old(self)@, text@, style, None),
    {
        self.push(text.to_owned(), style, None);
    }
}

/// The texts of lines without their styles.
pub open spec fn plain_lines(lines: Seq<Seq<SpanView>>) -> Seq<Seq<char>> {
    Seq::new(lines.len(), |i: int| plain(lines[i]))
}

} // verus!
