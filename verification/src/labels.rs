//! Field labels at the start of a line, and how they are highlighted.

use vstd::prelude::*;

use crate::segmentation::{
    char_columns, char_is_alphanumeric, char_width, display_width, is_alphanumeric, text_width,
};
use crate::style::{bold_colored, Color, Style};
use crate::styled::{lemma_plain_concat, plain, SpanView, StyledLine, StyledSpan};
use crate::text::{
    begins_with, byte_len, char_is_white, chars_of, copy_option, head, is_offset, is_white,
    lemma_byte_len_bounds, lemma_byte_len_concat, lemma_byte_len_push, lemma_index_at,
    lemma_offset_ends, lemma_offset_mono, lemma_offset_split, lemma_three_parts, offset_at,
    option_text, slice, slice_text, split_text, string_of, tail, text_begins_with, text_len,
    utf8_len,
};
use crate::views::{group_views, views};

verus! {

broadcast use group_views;

/// The colon that ends a label, in its narrow or its wide form.
pub open spec fn is_colon(c: char) -> bool {
    c == ':' || c == '：'
}

/// A character that a label may hold.
pub open spec fn is_label_char(c: char) -> bool {
    ||| is_alphanumeric(c)
    ||| is_white(c)
    ||| c == '_'
    ||| c == '-'
    ||| c == '/'
    ||| c == '&'
    ||| c == '+'
    ||| c == '#'
    ||| c == '.'
    ||| c == '%'
    ||| c == '$'
}

/// A character that a label may hold.
pub fn is_field_label_char(ch: char) -> (allowed: bool)
    ensures
        allowed == is_label_char(ch),
{
    char_is_alphanumeric(ch) || char_is_white(ch) || ch == '_' || ch == '-' || ch == '/' || ch
        == '&' || ch == '+' || ch == '#' || ch == '.' || ch == '%' || ch == '$'
}

/// The number of spaces and tabs that a text begins with.
pub open spec fn indent(s: Seq<char>) -> int
    decreases s.len(),
{
    if s.len() > 0 && (s[0] == ' ' || s[0] == '\t') {
        1 + indent(s.drop_first())
    } else {
        0
    }
}

/// The columns of a character; none for a control character.
pub open spec fn columns_or_none(c: char) -> nat {
    match char_columns(c) {
        Some(columns) => columns,
        None => 0,
    }
}

/// The index behind the colon of a label, when the label goes on at `index`
/// after some columns. A label has at least one character that is no white space
/// and takes from one to eighteen columns, and no `//` follows it.
pub open spec fn label_end(s: Seq<char>, index: int, columns: nat, visible: bool) -> Option<int>
    decreases s.len() - index,
{
    if index < 0 || index >= s.len() {
        None
    } else if is_colon(s[index]) {
        if visible && 0 < columns <= 18 && !begins_with(s.skip(index + 1), "//"@) {
            Some(index + 1)
        } else {
            None
        }
    } else if is_label_char(s[index]) {
        label_end(
            s,
            index + 1,
            columns + columns_or_none(s[index]),
            visible || !is_white(s[index]),
        )
    } else {
        None
    }
}

/// The indices between which a line holds a field label with its colon: after at
/// most four columns of indentation.
pub open spec fn label_range(s: Seq<char>) -> Option<(int, int)> {
    let start = indent(s);
    if start >= s.len() || display_width(s.take(start)) > 4 {
        None
    } else {
        match label_end(s, start, 0, false) {
            Some(end) => Some((start, end)),
            None => None,
        }
    }
}

proof fn lemma_indent(s: Seq<char>)
    ensures
        0 <= indent(s) <= s.len(),
    decreases s.len(),
{
    if s.len() > 0 && (s[0] == ' ' || s[0] == '\t') {
        lemma_indent(s.drop_first());
    }
}

pub proof fn lemma_label_end(s: Seq<char>, index: int, columns: nat, visible: bool)
    ensures
        label_end(s, index, columns, visible) matches Some(end) ==> index < end <= s.len(),
    decreases s.len() - index,
{
    if 0 <= index < s.len() && !is_colon(s[index]) && is_label_char(s[index]) {
        lemma_label_end(
            s,
            index + 1,
            columns + columns_or_none(s[index]),
            visible || !is_white(s[index]),
        );
    }
}

/// A label lies in its line and is not empty.
pub proof fn lemma_label_range(s: Seq<char>)
    ensures
        label_range(s) matches Some((start, end)) ==> 0 <= start < end <= s.len(),
{
    lemma_indent(s);
    lemma_label_end(s, indent(s), 0, false);
}

/// The bytes that a character takes.
fn char_len(c: char) -> (length: usize)
    ensures
        length == utf8_len(c),
{
    let n: u32 = c as u32;
    if n <= 0x7F {
        1
    } else if n <= 0x7FF {
        2
    } else if n <= 0xFFFF {
        3
    } else {
        4
    }
}

proof fn lemma_next_offset(s: Seq<char>, i: int)
    requires
        0 <= i < s.len(),
    ensures
        offset_at(s, i + 1) == offset_at(s, i) + utf8_len(s[i]),
        offset_at(s, i + 1) <= byte_len(s),
{
    assert(s.take(i + 1) =~= s.take(i).push(s[i]));
    lemma_byte_len_push(s.take(i), s[i]);
    lemma_offset_mono(s, i + 1, s.len() as int);
    lemma_offset_ends(s);
}

/// The byte range of the field label that a line begins with.
pub fn field_label_range(text: &str) -> (range: Option<(usize, usize)>)
    ensures
        match range {
            Some((start, end)) => label_range(text@) matches Some((from, to)) && start
                == offset_at(text@, from) && end == offset_at(text@, to),
            None => label_range(text@) is None,
        },
{
    let chars = chars_of(text);
    let total: usize = text_len(text);
    let mut first: usize = 0;
    let mut start: usize = 0;
    proof {
        assert(text@.skip(0) =~= text@);
        lemma_offset_ends(text@);
    }
    while first < chars.len() && (chars[first] == ' ' || chars[first] == '\t')
        invariant
            first <= chars.len(),
            chars@ == text@,
            total == byte_len(text@),
            start == offset_at(text@, first as int),
            indent(text@) == first + indent(text@.skip(first as int)),
        decreases chars.len() - first,
    {
        proof {
            lemma_next_offset(text@, first as int);
            assert(text@.skip(first as int).drop_first() =~= text@.skip(first + 1));
        }
        start = start + char_len(chars[first]);
        first += 1;
    }
    if first >= chars.len() {
        return None;
    }
    let lead = string_of(&chars, 0, first);
    assert(lead@ =~= text@.take(first as int));
    if text_width(lead.as_str()) > 4 {
        return None;
    }
    let mut position: usize = start;
    let mut columns: usize = 0;
    let mut visible = false;
    let mut i: usize = first;
    while i < chars.len()
        invariant
            first <= i <= chars.len(),
            first < chars.len(),
            chars@ == text@,
            total == byte_len(text@),
            first == indent(text@),
            display_width(text@.take(first as int)) <= 4,
            start == offset_at(text@, first as int),
            position == offset_at(text@, i as int),
            columns <= position,
            label_end(text@, i as int, columns as nat, visible) == label_end(
                text@,
                first as int,
                0,
                false,
            ),
        decreases chars.len() - i,
    {
        let ch = chars[i];
        proof {
            lemma_next_offset(text@, i as int);
        }
        if ch == ':' || ch == '：' {
            if !visible || columns == 0 || columns > 18 {
                return None;
            }
            let rest = string_of(&chars, i + 1, chars.len());
            assert(rest@ =~= text@.skip(i + 1));
            if text_begins_with(rest.as_str(), "//") {
                return None;
            }
            return Some((start, position + char_len(ch)));
        }
        if !is_field_label_char(ch) {
            return None;
        }
        if !char_is_white(ch) {
            visible = true;
        }
        if let Some(width) = char_width(ch) {
            columns = columns + width;
        }
        position = position + char_len(ch);
        i += 1;
    }
    None
}

/// The smaller and the larger of two numbers.
pub open spec fn min_int(a: int, b: int) -> int {
    if a < b {
        a
    } else {
        b
    }
}

pub open spec fn max_int(a: int, b: int) -> int {
    if a < b {
        b
    } else {
        a
    }
}

/// How a label looks.
pub open spec fn label_style(style: Style) -> Style {
    style.patched(Style::bold_colored(Color::Cyan))
}

/// A span that begins at the byte offset `before` of its line, with the part of
/// it highlighted that lies between two byte offsets of the line.
pub open spec fn highlight_span(span: SpanView, before: int, start: int, end: int) -> Seq<
    SpanView,
> {
    let length = byte_len(span.text) as int;
    if before + length <= start || before >= end {
        seq![span]
    } else {
        let from = max_int(start - before, 0);
        let to = min_int(end, before + length) - before;
        let front = if from > 0 {
            seq![SpanView { text: head(span.text, from), ..span }]
        } else {
            seq![]
        };
        let middle = if from < to {
            seq![
                SpanView {
                    text: slice(span.text, from, to),
                    style: label_style(span.style),
                    link: span.link,
                },
            ]
        } else {
            seq![]
        };
        let back = if to < length {
            seq![SpanView { text: tail(span.text, to), ..span }]
        } else {
            seq![]
        };
        front + middle + back
    }
}

/// A line with what lies between two byte offsets highlighted.
pub open spec fn highlight(line: Seq<SpanView>, start: int, end: int) -> Seq<SpanView>
    decreases line.len(),
{
    if line.len() == 0 {
        seq![]
    } else {
        highlight(line.drop_last(), start, end) + highlight_span(
            line.last(),
            byte_len(plain(line.drop_last())) as int,
            start,
            end,
        )
    }
}

/// A line with its field label highlighted.
pub open spec fn highlight_label(line: Seq<SpanView>) -> Seq<SpanView> {
    match label_range(plain(line)) {
        Some((from, to)) => highlight(
            line,
            offset_at(plain(line), from) as int,
            offset_at(plain(line), to) as int,
        ),
        None => line,
    }
}

proof fn lemma_plain_one(span: SpanView)
    ensures
        plain(seq![span]) == span.text,
{
    let line = seq![span];
    assert(line.drop_last() =~= seq![]);
    assert(plain(line.drop_last()) =~= seq![]);
    assert(seq![] + span.text =~= span.text);
}

/// Offsets of a line in one of its spans.
proof fn lemma_local_offsets(a: Seq<char>, b: Seq<char>, c: Seq<char>, position: int)
    requires
        is_offset(a + b + c, position),
        byte_len(a) <= position <= byte_len(a) + byte_len(b),
    ensures
        is_offset(b, position - byte_len(a)),
{
    lemma_byte_len_concat(a, b);
    lemma_offset_split(a + b, c, position);
    lemma_offset_split(a, b, position);
}

proof fn lemma_highlight_span(span: SpanView, before: int, start: int, end: int)
    requires
        start < end,
        before < start <= before + byte_len(span.text) ==> is_offset(span.text, start - before),
        before < end <= before + byte_len(span.text) ==> is_offset(span.text, end - before),
    ensures
        plain(highlight_span(span, before, start, end)) == span.text,
{
    let length = byte_len(span.text) as int;
    if before + length <= start || before >= end {
        lemma_plain_one(span);
    } else {
        let from = max_int(start - before, 0);
        let to = min_int(end, before + length) - before;
        lemma_offset_ends(span.text);
        lemma_three_parts(span.text, from, to);
        let front = if from > 0 {
            seq![SpanView { text: head(span.text, from), ..span }]
        } else {
            seq![]
        };
        let middle = seq![
            SpanView {
                text: slice(span.text, from, to),
                style: label_style(span.style),
                link: span.link,
            },
        ];
        let back = if to < length {
            seq![SpanView { text: tail(span.text, to), ..span }]
        } else {
            seq![]
        };
        lemma_byte_len_bounds(head(span.text, from));
        lemma_byte_len_bounds(tail(span.text, to));
        if from > 0 {
            lemma_plain_one(front[0]);
        } else {
            assert(head(span.text, from) =~= seq![]);
        }
        assert(plain(front) =~= head(span.text, from));
        lemma_plain_one(middle[0]);
        if to < length {
            lemma_plain_one(back[0]);
        } else {
            assert(tail(span.text, to) =~= seq![]);
        }
        assert(plain(back) =~= tail(span.text, to));
        lemma_plain_concat(front, middle);
        lemma_plain_concat(front + middle, back);
    }
}

/// Highlighting changes how a line looks, not what it says.
proof fn lemma_highlight_plain(line: Seq<SpanView>, whole: Seq<char>, start: int, end: int)
    requires
        start < end,
        is_offset(whole, start),
        is_offset(whole, end),
        begins_with(whole, plain(line)),
    ensures
        plain(highlight(line, start, end)) == plain(line),
    decreases line.len(),
{
    if line.len() > 0 {
        let front = line.drop_last();
        let span = line.last();
        let a = plain(front);
        let c = whole.skip(plain(line).len() as int);
        assert(whole =~= plain(line) + c);
        assert(whole =~= a + span.text + c);
        assert(whole.take(a.len() as int) =~= a);
        lemma_highlight_plain(front, whole, start, end);
        let before = byte_len(a) as int;
        if before < start <= before + byte_len(span.text) {
            lemma_local_offsets(a, span.text, c, start);
        }
        if before < end <= before + byte_len(span.text) {
            lemma_local_offsets(a, span.text, c, end);
        }
        lemma_highlight_span(span, before, start, end);
        lemma_plain_concat(
            highlight(front, start, end),
            highlight_span(span, before, start, end),
        );
    }
}

/// Highlighting a field label changes how the line looks, not what it says.
pub proof fn law_highlighting_keeps_the_text(line: Seq<SpanView>)
    ensures
        plain(highlight_label(line)) == plain(line),
{
    if let Some((from, to)) = label_range(plain(line)) {
        let s = plain(line);
        lemma_label_range(s);
        lemma_index_at(s, from);
        lemma_index_at(s, to);
        lemma_offset_mono(s, from, to);
        assert(s.take(s.len() as int) =~= s);
        lemma_highlight_plain(
            line,
            s,
            offset_at(s, from) as int,
            offset_at(s, to) as int,
        );
    }
}

fn push_piece(spans: &mut Vec<StyledSpan>, text: String, style: Style, link: &Option<String>)
    ensures
        views(final(spans)@) == views(old(spans)@).push(
            SpanView { text: text@, style, link: option_text(*link) },
        ),
{
    spans.push(StyledSpan { text, style, link: copy_option(link) });
}

/// Highlights what lies between two byte offsets of a line.
fn highlight_byte_range(line: &StyledLine, start: usize, end: usize) -> (highlighted: StyledLine)
    requires
        start < end,
        is_offset(plain(line@), start as int),
        is_offset(plain(line@), end as int),
        byte_len(plain(line@)) <= usize::MAX,
    ensures
        highlighted@ == highlight(line@, start as int, end as int),
{
    let mut spans: Vec<StyledSpan> = Vec::new();
    let mut consumed: usize = 0;
    let mut i: usize = 0;
    let ghost whole = plain(line@);
    assert(line@.take(0) =~= seq![]);
    while i < line.spans.len()
        invariant
            i <= line.spans.len(),
            start < end,
            whole == plain(line@),
            is_offset(whole, start as int),
            is_offset(whole, end as int),
            byte_len(whole) <= usize::MAX,
            consumed == byte_len(plain(line@.take(i as int))),
            views(spans@) == highlight(line@.take(i as int), start as int, end as int),
        decreases line.spans.len() - i,
    {
        let span = &line.spans[i];
        let ghost before = line@.take(i as int);
        let ghost next = line@.take(i + 1);
        let ghost done = views(spans@);
        let length: usize = text_len(span.text.as_str());
        proof {
            assert(next.drop_last() =~= before);
            assert(next.last() == span@);
            lemma_plain_concat(next, line@.skip(i + 1));
            assert(next + line@.skip(i + 1) =~= line@);
            lemma_byte_len_concat(plain(next), plain(line@.skip(i + 1)));
            lemma_byte_len_concat(plain(before), span.text@);
        }
        let ghost rest = plain(line@.skip(i + 1));
        let span_start: usize = consumed;
        let span_end: usize = consumed + length;
        consumed = span_end;
        if span_end <= start || span_start >= end {
            spans.push(span.clone());
            assert(views(spans@) =~= done + seq![span@]);
        } else {
            let local_start: usize = if start > span_start {
                start - span_start
            } else {
                0
            };
            let local_end: usize = if end < span_end {
                end - span_start
            } else {
                span_end - span_start
            };
            proof {
                lemma_offset_ends(span.text@);
                if start > span_start {
                    lemma_local_offsets(plain(before), span.text@, rest, start as int);
                }
                if end < span_end {
                    lemma_local_offsets(plain(before), span.text@, rest, end as int);
                }
            }
            if local_start > 0 {
                let front = split_text(span.text.as_str(), local_start).0.to_owned();
                push_piece(&mut spans, front, span.style, &span.link);
            }
            if local_start < local_end {
                let middle = slice_text(span.text.as_str(), local_start, local_end);
                push_piece(
                    &mut spans,
                    middle,
                    span.style.patch(bold_colored(Color::Cyan)),
                    &span.link,
                );
            }
            if local_end < length {
                let back = split_text(span.text.as_str(), local_end).1.to_owned();
                push_piece(&mut spans, back, span.style, &span.link);
            }
            proof {
                let pieces = highlight_span(span@, span_start as int, start as int, end as int);
                assert(views(spans@) =~= done + pieces);
            }
        }
        i += 1;
    }
    assert(line@.take(line@.len() as int) =~= line@);
    StyledLine { spans }
}

/// Highlights the field label that each line begins with.
pub fn highlight_field_labels(lines: &Vec<StyledLine>) -> (highlighted: Vec<StyledLine>)
    ensures
        highlighted.len() == lines.len(),
        forall|i: int|
            0 <= i < lines.len() ==> (#[trigger] highlighted@[i])@ == highlight_label(lines@[i]@),
{
    let mut highlighted: Vec<StyledLine> = Vec::new();
    let mut i: usize = 0;
    while i < lines.len()
        invariant
            i <= lines.len(),
            highlighted.len() == i,
            forall|j: int|
                0 <= j < i ==> (#[trigger] highlighted@[j])@ == highlight_label(lines@[j]@),
        decreases lines.len() - i,
    {
        let text = lines[i].plain_text();
        let line = match field_label_range(text.as_str()) {
            Some((start, end)) => {
                proof {
                    let s = plain(lines@[i as int]@);
                    lemma_label_range(s);
                    let (from, to) = label_range(s)->0;
                    lemma_index_at(s, from);
                    lemma_index_at(s, to);
                    lemma_offset_mono(s, from, to);
                }
                let total: usize = text_len(text.as_str());
                assert(total == byte_len(plain(lines@[i as int]@)));
                highlight_byte_range(&lines[i], start, end)
            },
            None => lines[i].clone(),
        };
        highlighted.push(line);
        i += 1;
    }
    highlighted
}

} // verus!
