//! What the parts of a Markdown document look like.

use vstd::prelude::*;

use crate::events::{EventView, MarkdownEnd, TagView};
use crate::labels::label_range;
use crate::links::link_target;
use crate::markdown::{
    add_quote_marks, BuilderView, heading_mark, next_number, styled_with, without_empty_end,
};
use crate::rows::styled;
use crate::style::{Color, Modifier, Style};
use crate::styled::{add_text, lemma_plain_add, plain, SpanView};
use crate::text::{
    decimal, first_index, lemma_first_index, lemma_first_index_is, repeat_char, split_on, trim,
};
use crate::views::group_views;

verus! {

broadcast use group_views;

/// How many lists are open behind the first `count` events, beyond those before.
pub open spec fn list_depth(events: Seq<EventView>, count: int) -> int
    decreases count,
{
    if count <= 0 {
        0
    } else {
        list_depth(events, count - 1) + match events[count - 1] {
            EventView::Start(TagView::List(_)) => 1int,
            EventView::End(MarkdownEnd::List) => -1int,
            _ => 0int,
        }
    }
}

/// How many items of the outermost list begin among the first `count` events; those
/// of lists inside of it do not count.
pub open spec fn outer_items(events: Seq<EventView>, count: int) -> nat
    decreases count,
{
    if count <= 0 {
        0
    } else if events[count - 1] == EventView::Start(TagView::Item) && list_depth(events, count - 1)
        == 1 {
        outer_items(events, count - 1) + 1
    } else {
        outer_items(events, count - 1)
    }
}

/// Whether the first event opens a list, and it is still open behind each of the next
/// events up to `count`.
pub open spec fn in_list(events: Seq<EventView>, first: Option<u64>, count: int) -> bool {
    &&& 0 < count <= events.len()
    &&& events[0] == EventView::Start(TagView::List(first))
    &&& forall|j: int| 0 < j <= count ==> #[trigger] list_depth(events, j) >= 1
}

/// Whether a line ends with a text in a style, under a link or none.
pub open spec fn ends_with(
    line: Seq<SpanView>,
    text: Seq<char>,
    style: Style,
    link: Option<Seq<char>>,
) -> bool {
    &&& line.len() > 0
    &&& line.last().style == style
    &&& line.last().link == link
    &&& text.len() <= line.last().text.len()
    &&& line.last().text.skip(line.last().text.len() - text.len()) == text
}

proof fn lemma_added(line: Seq<SpanView>, text: Seq<char>, style: Style, link: Option<Seq<char>>)
    requires
        text.len() > 0,
    ensures
        ends_with(add_text(line, text, style, link), text, style, link),
        plain(add_text(line, text, style, link)) == plain(line) + text,
        add_text(line, text, style, link).len() > 0,
{
    lemma_plain_add(line, text, style, link);
    let last = add_text(line, text, style, link).last();
    assert(last.text.skip(last.text.len() - text.len()) =~= text);
}

proof fn lemma_parts_keep(builder: BuilderView, parts: Seq<Seq<char>>, index: int)
    ensures
        ({
            let after = builder.with_parts(parts, index);
            after == (BuilderView { lines: after.lines, current: after.current, ..builder })
        }),
    decreases parts.len() - index,
{
    if index < 0 || index >= parts.len() {
    } else if index == 0 {
        lemma_parts_keep(builder.pushed(parts[0]), parts, 1);
    } else if index + 1 == parts.len() && parts[index].len() == 0 {
    } else {
        lemma_parts_keep(builder.flushed().prefixed().pushed(parts[index]), parts, index + 1);
    }
}

proof fn lemma_event_lists(builder: BuilderView, event: EventView)
    ensures
        builder.event(event).lists == (match event {
            EventView::Start(TagView::List(number)) => builder.lists.push(number),
            EventView::End(MarkdownEnd::List) => if builder.lists.len() > 0 {
                builder.lists.drop_last()
            } else {
                builder.lists
            },
            EventView::Start(TagView::Item) => if builder.lists.len() > 0
                && builder.lists.last() is Some {
                builder.lists.update(
                    builder.lists.len() - 1,
                    Some(next_number(builder.lists.last()->0)),
                )
            } else {
                builder.lists
            },
            _ => builder.lists,
        }),
{
    if let EventView::Text(text) = event {
        lemma_parts_keep(builder, split_on(text, '\n'), 0);
    }
}

proof fn lemma_outer_items_grow(events: Seq<EventView>, early: int, late: int)
    requires
        0 <= early <= late,
    ensures
        outer_items(events, early) <= outer_items(events, late),
    decreases late - early,
{
    if early < late {
        lemma_outer_items_grow(events, early, late - 1);
    }
}

proof fn lemma_list_state(
    builder: BuilderView,
    events: Seq<EventView>,
    first: Option<u64>,
    count: int,
)
    requires
        in_list(events, first, count),
        first matches Some(number) ==> number + outer_items(events, count) <= u64::MAX,
    ensures
        ({
            let lists = builder.events(events, count).lists;
            let outer = builder.lists.len() as int;
            &&& lists.len() == outer + list_depth(events, count)
            &&& lists[outer] == (match first {
                Some(number) => Some((number + outer_items(events, count)) as u64),
                None => None,
            })
        }),
    decreases count,
{
    let outer = builder.lists.len() as int;
    assert(list_depth(events, 0) == 0);
    assert(outer_items(events, 0) == 0);
    if count == 1 {
        assert(builder.events(events, 0) == builder);
        lemma_event_lists(builder, events[0]);
        assert(list_depth(events, 1) == 1);
        assert(outer_items(events, 1) == 0);
    } else {
        lemma_outer_items_grow(events, count - 1, count);
        lemma_list_state(builder, events, first, count - 1);
        assert(list_depth(events, count - 1) >= 1);
        assert(list_depth(events, count) >= 1);
        lemma_event_lists(builder.events(events, count - 1), events[count - 1]);
    }
}

/// The items of an ordered list are numbered one after the other from its first
/// number on, whatever stands in them: behind `k` items of the list, the next one
/// begins a line with the number that is `k` more than the first. Its line is indented
/// by two spaces for each list around the list. Items of lists inside of it do not
/// count.
pub proof fn law_ordered_items_are_numbered_on(
    builder: BuilderView,
    events: Seq<EventView>,
    first: u64,
    position: int,
)
    requires
        0 < position < events.len(),
        in_list(events, Some(first), position),
        list_depth(events, position) == 1,
        events[position] == EventView::Start(TagView::Item),
        first + outer_items(events, position) <= u64::MAX,
        builder.events(events, position).table is None,
    ensures
        plain(builder.events(events, position + 1).current) == repeat_char(
            ' ',
            2 * builder.lists.len(),
        ) + decimal(first as nat + outer_items(events, position)) + ". "@,
{
    lemma_list_state(builder, events, Some(first), position);
    let before = builder.events(events, position);
    lemma_item_line(before);
    let mark = decimal(first as nat + outer_items(events, position)) + ". "@;
    let spaces = repeat_char(' ', 2 * builder.lists.len());
    assert(spaces + mark =~= spaces + decimal(first as nat + outer_items(events, position))
        + ". "@);
}

proof fn lemma_item_line(before: BuilderView)
    requires
        before.lists.len() > 0,
        before.table is None,
    ensures
        plain(before.start(TagView::Item).current) == repeat_char(
            ' ',
            2 * (before.lists.len() - 1) as nat,
        ) + crate::markdown::item_mark(before.lists.last()),
        before.start(TagView::Item).lines == (if before.current.len() > 0 {
            before.lines.push(before.current)
        } else {
            before.lines
        }),
{
    let block = before.flushed();
    let depth = (before.lists.len() - 1) as nat;
    let spaces = repeat_char(' ', 2 * depth);
    lemma_plain_add(block.current, spaces, block.style, block.link);
    let indented = block.pushed(spaces);
    lemma_plain_add(
        indented.current,
        crate::markdown::item_mark(before.lists.last()),
        Style::colored(Color::Cyan),
        None,
    );
    assert(block.current =~= seq![]);
    assert(plain(block.current) =~= seq![]);
    assert(plain(block.current) + spaces =~= spaces);
}

/// The items of a list without numbers begin with a bullet, behind two spaces for each
/// list around the list.
pub proof fn law_unordered_items_have_bullets(
    builder: BuilderView,
    events: Seq<EventView>,
    position: int,
)
    requires
        0 < position < events.len(),
        in_list(events, None, position),
        list_depth(events, position) == 1,
        events[position] == EventView::Start(TagView::Item),
        builder.events(events, position).table is None,
    ensures
        plain(builder.events(events, position + 1).current) == repeat_char(
            ' ',
            2 * builder.lists.len(),
        ) + "• "@,
{
    lemma_list_state(builder, events, None, position);
    lemma_item_line(builder.events(events, position));
}

/// Behind a list that ends, as many lists are open as before it.
pub proof fn law_lists_end_where_they_began(
    builder: BuilderView,
    events: Seq<EventView>,
    first: Option<u64>,
    position: int,
)
    requires
        0 < position < events.len(),
        in_list(events, first, position),
        list_depth(events, position) == 1,
        events[position] == EventView::End(MarkdownEnd::List),
        first matches Some(number) ==> number + outer_items(events, position) <= u64::MAX,
    ensures
        builder.events(events, position + 1).lists.len() == builder.lists.len(),
{
    lemma_list_state(builder, events, first, position);
    lemma_event_lists(builder.events(events, position), events[position]);
}

/// The number of an item is written as the decimal number that it is, and counting on
/// goes up by one.
pub proof fn law_marks_of_items(number: u64)
    ensures
        crate::markdown::item_mark(Some(number)) == decimal(number as nat) + ". "@,
        crate::markdown::item_mark(None) == "• "@,
        number < u64::MAX ==> next_number(number) == number + 1,
{
}

/// A text without a line feed goes to the end of the current line, in the current
/// style and under the current link. No line is finished.
pub proof fn law_text_goes_to_the_current_line(builder: BuilderView, text: Seq<char>)
    requires
        text.len() > 0,
        !text.contains('\n'),
    ensures
        ({
            let after = builder.event(EventView::Text(text));
            &&& plain(after.current) == plain(builder.current) + text
            &&& ends_with(after.current, text, builder.style, builder.link)
            &&& after == (BuilderView { current: after.current, ..builder })
        }),
{
    lemma_one_part(text);
    lemma_added(builder.current, text, builder.style, builder.link);
    assert(builder.pushed(text).with_parts(seq![text], 1) == builder.pushed(text));
}

proof fn lemma_one_part(text: Seq<char>)
    requires
        !text.contains('\n'),
    ensures
        split_on(text, '\n') == seq![text],
{
    lemma_first_index(text, '\n');
    if let Some(i) = first_index(text, '\n') {
        assert(text[i] == '\n');
        assert(text.contains('\n'));
    }
}

proof fn lemma_two_parts(first: Seq<char>, rest: Seq<char>)
    requires
        !first.contains('\n'),
    ensures
        split_on(first + seq!['\n'] + rest, '\n') == seq![first] + split_on(rest, '\n'),
{
    let all = first + seq!['\n'] + rest;
    let n = first.len() as int;
    assert(all[n] == '\n');
    assert forall|j: int| 0 <= j < n implies all[j] != '\n' by {
        assert(all[j] == first[j]);
        if all[j] == '\n' {
            assert(first.contains('\n'));
        }
    }
    lemma_first_index_is(all, '\n', n);
    assert(all.take(n) =~= first);
    assert(all.skip(n + 1) =~= rest);
}

/// A line feed in a text finishes the current line, where there is something on it and
/// no table is open, and the rest goes on below, behind the marks of the quotations and
/// the code block around it. Nothing is lost.
pub proof fn law_line_feeds_end_lines(builder: BuilderView, first: Seq<char>, rest: Seq<char>)
    requires
        first.len() > 0,
        !first.contains('\n'),
        rest.len() > 0,
        !rest.contains('\n'),
        builder.table is None,
    ensures
        ({
            let after = builder.event(EventView::Text(first + seq!['\n'] + rest));
            &&& after.lines.len() == builder.lines.len() + 1
            &&& after.lines.drop_last() == builder.lines
            &&& plain(after.lines.last()) == plain(builder.current) + first
            &&& plain(after.current) == margin(builder.quote_depth, builder.code_depth > 0) + rest
        }),
{
    lemma_two_parts(first, rest);
    lemma_one_part(rest);
    let parts = seq![first, rest];
    assert(split_on(first + seq!['\n'] + rest, '\n') =~= parts);
    let put = builder.pushed(first);
    lemma_added(builder.current, first, builder.style, builder.link);
    let below = put.flushed().prefixed();
    assert(put.flushed().lines.drop_last() =~= builder.lines);
    assert(put.flushed().current =~= seq![]);
    lemma_margin(put.flushed());
    lemma_added(below.current, rest, below.style, below.link);
    assert(below.pushed(rest).with_parts(parts, 2) == below.pushed(rest));
    assert(put.with_parts(parts, 1) == below.pushed(rest));
}

/// The marks in front of a line: one for each quotation around it, and one for a code
/// block.
pub open spec fn margin(quotes: nat, code: bool) -> Seq<char>
    decreases quotes,
{
    if quotes > 0 {
        "│ "@ + margin((quotes - 1) as nat, code)
    } else if code {
        "│ "@
    } else {
        seq![]
    }
}

proof fn lemma_quote_marks(line: Seq<SpanView>, depth: nat)
    ensures
        plain(add_quote_marks(line, depth)) == plain(line) + margin(depth, false),
    decreases depth,
{
    if depth > 0 {
        let less = (depth - 1) as nat;
        lemma_quote_marks(line, less);
        lemma_plain_add(
            add_quote_marks(line, less),
            "│ "@,
            Style::colored(Color::DarkGray),
            None,
        );
        lemma_margin_turns(less);
        assert(plain(line) + margin(less, false) + "│ "@ =~= plain(line) + (margin(less, false)
            + "│ "@));
    } else {
        assert(plain(line) + margin(depth, false) =~= plain(line));
    }
}

proof fn lemma_margin_turns(depth: nat)
    ensures
        margin(depth, false) + "│ "@ == margin(depth + 1, false),
        margin(depth, true) == margin(depth, false) + "│ "@,
    decreases depth,
{
    let mark = "│ "@;
    if depth > 0 {
        let less = (depth - 1) as nat;
        lemma_margin_turns(less);
        assert((mark + margin(less, false)) + mark =~= mark + (margin(less, false) + mark));
        assert(mark + margin(depth, false) == margin(depth + 1, false));
        assert(margin(depth, true) == mark + margin(less, true));
        assert(margin(depth, false) == mark + margin(less, false));
    } else {
        assert(margin(0, false) + mark =~= mark);
        assert(margin(1, false) == mark + margin(0, false));
        assert(mark + margin(0, false) =~= mark);
    }
}

proof fn lemma_margin(builder: BuilderView)
    ensures
        plain(builder.prefixed().current) == plain(builder.current) + margin(
            builder.quote_depth,
            builder.code_depth > 0,
        ),
        builder.current.len() == 0 ==> plain(builder.prefixed().current) == margin(
            builder.quote_depth,
            builder.code_depth > 0,
        ),
        builder.prefixed() == (BuilderView { current: builder.prefixed().current, ..builder }),
{
    lemma_quote_marks(builder.current, builder.quote_depth);
    let quoted = add_quote_marks(builder.current, builder.quote_depth);
    lemma_plain_add(quoted, "│ "@, Style::colored(Color::Yellow), None);
    lemma_margin_turns(builder.quote_depth);
    let front = plain(builder.current);
    let marks = margin(builder.quote_depth, false);
    assert(front + marks + "│ "@ =~= front + (marks + "│ "@));
    if builder.current.len() == 0 {
        assert(front =~= seq![]);
        let all = margin(builder.quote_depth, builder.code_depth > 0);
        assert(front + all =~= all);
    }
}

/// A quotation begins on a new line, with one mark more than before. Each paragraph in
/// it begins with the marks, and the quotation ends with as many as there were.
pub proof fn law_quotations_have_a_mark_for_each_level(builder: BuilderView)
    requires
        builder.table is None,
        builder.code_depth == 0,
        builder.quote_depth < usize::MAX,
    ensures
        ({
            let inside = builder.start(TagView::BlockQuote);
            let after = inside.end(MarkdownEnd::Paragraph).start(TagView::Paragraph);
            &&& plain(inside.current) == margin(builder.quote_depth + 1, false)
            &&& inside.quote_depth == builder.quote_depth + 1
            &&& plain(after.current) == margin(builder.quote_depth + 1, false)
            &&& inside.end(MarkdownEnd::BlockQuote).quote_depth == builder.quote_depth
            &&& builder.current.len() > 0 ==> inside.lines == builder.lines.push(builder.current)
            &&& builder.current.len() == 0 ==> inside.lines == builder.lines
        }),
{
    let block = builder.flushed();
    let open = BuilderView { quote_depth: builder.quote_depth + 1, ..block };
    lemma_margin(open);
    let inside = builder.start(TagView::BlockQuote);
    assert(inside == open.prefixed());
    lemma_margin_turns(builder.quote_depth);
    assert(margin(builder.quote_depth + 1, false).len() > 0) by {
        reveal_strlit("│ ");
        assert(margin(builder.quote_depth + 1, false) == "│ "@ + margin(builder.quote_depth, false));
    }
    assert(inside.current.len() > 0);
    let ended = inside.end(MarkdownEnd::Paragraph);
    lemma_margin(ended);
}

/// What a heading looks like: a mark for its level and its text, in bold cyan on a line
/// of its own. The style is what it was when the heading is over.
pub proof fn law_headings_are_marked_by_their_level(
    builder: BuilderView,
    level: u8,
    text: Seq<char>,
)
    requires
        builder.table is None,
        text.len() > 0,
        !text.contains('\n'),
    ensures
        ({
            let inside = builder.start(TagView::Heading(level)).event(EventView::Text(text));
            let after = inside.end(MarkdownEnd::Heading);
            let mark = if level == 1 {
                "◆ "@
            } else if level == 2 {
                "◇ "@
            } else {
                "▸ "@
            };
            &&& plain(inside.current) == mark + text
            &&& inside.style.fg == Some(Color::Cyan) && inside.style.add_modifier.bold
            &&& ends_with(inside.current, text, inside.style, builder.link)
            &&& after.lines.len() > 0 && after.lines.last() == inside.current
            &&& after.lines.drop_last() == (if builder.current.len() > 0 {
                builder.lines.push(builder.current)
            } else {
                builder.lines
            })
            &&& after.current.len() == 0
            &&& after.style == builder.style && after.style_stack == builder.style_stack
        }),
{
    let begun = builder.start(TagView::Heading(level));
    reveal_strlit("◆ ");
    reveal_strlit("◇ ");
    reveal_strlit("▸ ");
    let block = builder.flushed().style_pushed(Style::bold_colored(Color::Cyan));
    assert(block.current =~= seq![]);
    lemma_added(block.current, heading_mark(level), block.style, block.link);
    assert(plain(block.current) + heading_mark(level) =~= heading_mark(level));
    law_text_goes_to_the_current_line(begun, text);
    let inside = begun.event(EventView::Text(text));
    let after = inside.end(MarkdownEnd::Heading);
    assert(inside.lines.push(inside.current).drop_last() =~= inside.lines);
    assert(builder.style_stack.push(builder.style).drop_last() =~= builder.style_stack);
}

/// Emphasis is italic, strong text is bold, and text that is struck out is crossed
/// out; text above or below the line is cyan. Each adds to the style around it.
pub proof fn law_emphasis_adds_to_the_style(builder: BuilderView, text: Seq<char>)
    requires
        text.len() > 0,
        !text.contains('\n'),
    ensures
        ({
            let styled = |tag: TagView| builder.start(tag).event(EventView::Text(text));
            let italic = styled(TagView::Emphasis);
            let bold = styled(TagView::Strong);
            let struck = styled(TagView::Strikethrough);
            let raised = styled(TagView::Superscript);
            let before = builder.style;
            &&& plain(italic.current) == plain(builder.current) + text
            &&& plain(bold.current) == plain(builder.current) + text
            &&& plain(struck.current) == plain(builder.current) + text
            &&& ends_with(italic.current, text, italic.style, builder.link)
            &&& ends_with(bold.current, text, bold.style, builder.link)
            &&& ends_with(struck.current, text, struck.style, builder.link)
            &&& ends_with(raised.current, text, raised.style, builder.link)
            &&& italic.style.add_modifier == (Modifier { italic: true, ..before.add_modifier })
            &&& bold.style.add_modifier == (Modifier { bold: true, ..before.add_modifier })
            &&& struck.style.add_modifier == (Modifier {
                crossed_out: true,
                ..before.add_modifier
            })
            &&& italic.style.fg == before.fg && bold.style.fg == before.fg && struck.style.fg
                == before.fg
            &&& raised.style.fg == Some(Color::Cyan) && raised.style.add_modifier
                == before.add_modifier
        }),
{
    law_text_goes_to_the_current_line(builder.start(TagView::Emphasis), text);
    law_text_goes_to_the_current_line(builder.start(TagView::Strong), text);
    law_text_goes_to_the_current_line(builder.start(TagView::Strikethrough), text);
    law_text_goes_to_the_current_line(builder.start(TagView::Superscript), text);
}

/// The text of a link leads to the link's target and is cyan and underlined. An image
/// is a link behind a mark. The text after a link has the link and the style from
/// before.
pub proof fn law_links_lead_to_their_targets(
    builder: BuilderView,
    destination: Seq<char>,
    text: Seq<char>,
    after: Seq<char>,
)
    requires
        text.len() > 0,
        !text.contains('\n'),
        after.len() > 0,
        !after.contains('\n'),
    ensures
        ({
            let inside = builder.start(TagView::Link(destination)).event(EventView::Text(text));
            let image = builder.start(TagView::Image(destination)).event(EventView::Text(text));
            let outside = inside.end(MarkdownEnd::Link).event(EventView::Text(after));
            &&& plain(inside.current) == plain(builder.current) + text
            &&& ends_with(inside.current, text, inside.style, link_target(destination))
            &&& inside.style.fg == Some(Color::Cyan) && inside.style.add_modifier.underlined
            &&& plain(image.current) == plain(builder.current) + "▧ "@ + text
            &&& ends_with(image.current, text, image.style, link_target(destination))
            &&& ends_with(outside.current, after, builder.style, builder.link)
            &&& plain(outside.current) == plain(builder.current) + text + after
        }),
{
    law_text_goes_to_the_current_line(builder.start(TagView::Link(destination)), text);
    reveal_strlit("▧ ");
    lemma_added(builder.current, "▧ "@, builder.style, builder.link);
    law_text_goes_to_the_current_line(builder.start(TagView::Image(destination)), text);
    let inside = builder.start(TagView::Link(destination)).event(EventView::Text(text));
    law_text_goes_to_the_current_line(inside.end(MarkdownEnd::Link), after);
}

/// A fenced block of code is titled with its language. Each line of the code stands
/// behind a mark, and none is lost. The block ends with the style from before.
pub proof fn law_code_is_shown_line_by_line(
    builder: BuilderView,
    language: Seq<char>,
    first: Seq<char>,
    second: Seq<char>,
)
    requires
        builder.table is None,
        builder.quote_depth == 0,
        builder.code_depth == 0,
        builder.current.len() == 0,
        trim(language).len() > 0,
        first.len() > 0,
        second.len() > 0,
        !first.contains('\n'),
        !second.contains('\n'),
    ensures
        ({
            let inside = builder.start(TagView::CodeBlock(Some(language)));
            let after = inside.event(
                EventView::Text(first + seq!['\n'] + (second + seq!['\n'])),
            ).end(MarkdownEnd::CodeBlock);
            let count = builder.lines.len() as int;
            &&& after.lines.len() == count + 3
            &&& after.lines.take(count) == builder.lines
            &&& plain(after.lines[count]) == "┌ "@ + trim(language)
            &&& plain(after.lines[count + 1]) == "│ "@ + first
            &&& plain(after.lines[count + 2]) == "│ "@ + second
            &&& after.current.len() == 0
            &&& after.code_depth == 0
            &&& after.style == builder.style
            &&& inside.style.fg == Some(Color::Yellow)
        }),
{
    reveal_strlit("┌ ");
    reveal_strlit("│ ");
    let count = builder.lines.len() as int;
    let inside = builder.start(TagView::CodeBlock(Some(language)));
    let open = BuilderView { code_depth: 1, ..builder }.style_pushed(Style::colored(Color::Yellow));
    let title = "┌ "@ + trim(language);
    let slanted = styled_with(Modifier { italic: true, ..Modifier::none() });
    let look = Style {
        fg: Some(Color::DarkGray),
        ..slanted
    };
    assert(builder.current =~= seq![]);
    lemma_added(builder.current, title, look, None);
    assert(plain(builder.current) + title =~= title);
    let titled = open.marked(title, look).flushed();
    assert(titled.current =~= seq![]);
    lemma_margin(titled);
    assert(inside == titled.prefixed());
    assert(margin(0, true) == "│ "@);
    let none = Seq::<char>::empty();
    lemma_two_parts(second, none);
    lemma_one_part(none);
    lemma_two_parts(first, second + seq!['\n']);
    assert(second + seq!['\n'] + none =~= second + seq!['\n']);
    let parts = seq![first, second, none];
    assert(split_on(first + seq!['\n'] + (second + seq!['\n']), '\n') =~= parts);
    let one = inside.pushed(first);
    lemma_added(inside.current, first, inside.style, inside.link);
    let below = one.flushed().prefixed();
    assert(one.flushed().current =~= seq![]);
    lemma_margin(one.flushed());
    let two = below.pushed(second);
    lemma_added(below.current, second, below.style, below.link);
    assert(two.with_parts(parts, 2) == two.flushed());
    assert(one.with_parts(parts, 1) == two.with_parts(parts, 2));
    assert(inside.with_parts(parts, 0) == one.with_parts(parts, 1));
    let after = two.flushed().end(MarkdownEnd::CodeBlock);
    assert(after.lines == two.flushed().lines);
    assert(after.lines.take(count) =~= builder.lines);
}

/// A checked task and an open one have marks of their own, and so have inline code,
/// mathematics, footnotes and rules.
pub proof fn law_marks_tell_the_parts_apart(builder: BuilderView, text: Seq<char>)
    requires
        text.len() > 0,
        builder.table is None,
    ensures
        ({
            let line = plain(builder.current);
            let code = builder.event(EventView::Code(text));
            let html = builder.event(EventView::InlineHtml(text));
            let rule = builder.event(EventView::Rule);
            let display = builder.event(EventView::DisplayMath(text));
            &&& plain(builder.event(EventView::TaskListMarker(true)).current) == line + "☑ "@
            &&& plain(builder.event(EventView::TaskListMarker(false)).current) == line + "☐ "@
            &&& plain(code.current) == line + text
            &&& code.current.last().style.fg == Some(Color::Yellow)
                && code.current.last().style.add_modifier.bold && code.current.last().link
                == builder.link
            &&& plain(html.current) == line + text && html.current.last().style.fg == Some(
                Color::DarkGray,
            )
            &&& plain(builder.event(EventView::InlineMath(text)).current) == line + ("$"@ + text
                + "$"@)
            &&& plain(builder.event(EventView::FootnoteReference(text)).current) == line + ("[^"@
                + text + "]"@)
            &&& plain(builder.start(TagView::FootnoteDefinition(text)).current) == "[^"@ + text
                + "] "@
            &&& plain(rule.lines.last()) == "────────────"@ && rule.current.len() == 0
            &&& plain(display.lines.last()) == "∑ "@ + text && display.current.len() == 0
            &&& plain(builder.start(TagView::DefinitionListDefinition).current) == "  — "@
        }),
{
    let line = plain(builder.current);
    reveal_strlit("☑ ");
    reveal_strlit("☐ ");
    reveal_strlit("────────────");
    reveal_strlit("∑ ");
    reveal_strlit("  — ");
    reveal_strlit("[^");
    reveal_strlit("$");
    lemma_added(builder.current, "☑ "@, Style::colored(Color::Green), None);
    lemma_added(builder.current, "☐ "@, Style::colored(Color::DarkGray), None);
    lemma_added(
        builder.current,
        text,
        builder.style.patched(Style::bold_colored(Color::Yellow)),
        builder.link,
    );
    lemma_added(
        builder.current,
        text,
        builder.style.patched(Style::colored(Color::DarkGray)),
        builder.link,
    );
    lemma_added(
        builder.current,
        "$"@ + text + "$"@,
        builder.style.patched(Style::colored(Color::Yellow)),
        builder.link,
    );
    lemma_added(
        builder.current,
        "[^"@ + text + "]"@,
        builder.style.patched(Style::colored(Color::Cyan)),
        None,
    );
    let none = Seq::<SpanView>::empty();
    assert(builder.flushed().current =~= none);
    assert(plain(none) =~= seq![]);
    let note = "[^"@ + text + "] "@;
    lemma_added(none, note, Style::colored(Color::Cyan), None);
    assert(plain(none) + note =~= note);
    lemma_added(none, "────────────"@, Style::colored(Color::DarkGray), None);
    assert(plain(none) + "────────────"@ =~= "────────────"@);
    let sum = "∑ "@ + text;
    lemma_added(none, sum, builder.style.patched(Style::colored(Color::Yellow)), None);
    assert(plain(none) + sum =~= sum);
    let dash = "  — "@;
    lemma_added(none, dash, builder.style, builder.link);
    assert(plain(none) + dash =~= dash);
}

/// A soft break is a space, but in code and behind the label of a field, where it is a
/// new line. A hard break always is.
pub proof fn law_breaks(builder: BuilderView)
    requires
        builder.table is None,
        builder.current.len() > 0,
    ensures
        ({
            let soft = builder.event(EventView::SoftBreak);
            let hard = builder.event(EventView::HardBreak);
            let marks = margin(builder.quote_depth, builder.code_depth > 0);
            &&& hard.lines == builder.lines.push(builder.current) && plain(hard.current) == marks
            &&& builder.code_depth > 0 || label_range(plain(builder.current)) is Some ==> soft
                == hard
            &&& builder.code_depth == 0 && label_range(plain(builder.current)) is None
                ==> soft.lines == builder.lines && plain(soft.current) == plain(builder.current)
                + seq![' ']
        }),
{
    reveal_strlit(" ");
    assert(" "@ =~= seq![' ']);
    lemma_margin(builder.flushed());
    lemma_plain_add(builder.current, " "@, builder.style, builder.link);
}

/// A paragraph, an item and a heading end the line that they stand on: it is kept as it
/// is.
pub proof fn law_blocks_end_their_lines(builder: BuilderView)
    requires
        builder.table is None,
        builder.current.len() > 0,
    ensures
        ({
            let paragraph = builder.end(MarkdownEnd::Paragraph);
            let item = builder.end(MarkdownEnd::Item);
            let heading = builder.end(MarkdownEnd::Heading);
            &&& paragraph.lines == builder.lines.push(builder.current) && paragraph.current.len()
                == 0
            &&& item.lines == builder.lines.push(builder.current) && item.current.len() == 0
            &&& heading.lines == builder.lines.push(builder.current) && heading.current.len() == 0
            &&& builder.finished().len() > builder.lines.len()
            &&& builder.finished()[builder.lines.len() as int] == builder.current
            &&& builder.finished().take(builder.lines.len() as int) == builder.lines
        }),
{
    let all = builder.lines.push(builder.current);
    assert(without_empty_end(all) == all);
    assert(all.take(builder.lines.len() as int) =~= builder.lines);
}

} // verus!
