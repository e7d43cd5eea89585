//! The message composer: its text, its cursor and the atomic tokens in it.

use vstd::prelude::*;

use crate::layout::{Cell, cell_after, cluster_offset};
use crate::paths::{is_same_path, same_path};
use crate::segmentation::{columns_of, grapheme_clusters, graphemes};
use crate::skills::Skill;
use crate::text::{
    byte_len, chars_of, concat, concat_text, copy_texts, decimal, decimal_text, head, is_offset,
    lemma_byte_len_bounds, lemma_byte_len_concat, lemma_concat_split, lemma_is_offset,
    lemma_offset_concat, lemma_offset_ends, lemma_offset_split, lemma_texts_push, lemma_three_parts,
    same_text, slice, slice_text, split_on, split_text, split_text_on, tail, text_is_empty,
    text_len, texts,
};
use crate::views::{group_views, views};

verus! {

broadcast use group_views;

/// What the composer's text will be used for.
#[derive(Debug, Clone, Copy, PartialEq, Eq, Structural)]
pub enum ComposeTarget {
    NewTask,
    Reply,
    Rename,
}

/// A skill that the prompt refers to.
#[derive(Debug, PartialEq, Eq)]
pub struct SkillReference {
    pub name: String,
    pub path: String,
}

/// The mathematical form of a skill reference.
#[verifier::ext_equal]
pub struct SkillView {
    pub name: Seq<char>,
    pub path: Seq<char>,
}

impl View for SkillReference {
    type V = SkillView;

    open spec fn view(&self) -> SkillView {
        SkillView { name: self.name@, path: self.path@ }
    }
}

impl Clone for SkillReference {
    fn clone(&self) -> (copy: SkillReference)
        ensures
            copy@ == self@,
    {
        SkillReference { name: self.name.clone(), path: self.path.clone() }
    }
}

/// What a token of the composer stands for.
#[derive(Debug, PartialEq, Eq)]
pub enum ComposerTokenKind {
    Skill(SkillReference),
    Image(String),
    PastedText(String),
}

/// The mathematical form of a token's kind.
#[verifier::ext_equal]
pub enum TokenKindView {
    Skill(SkillView),
    Image(Seq<char>),
    PastedText(Seq<char>),
}

impl View for ComposerTokenKind {
    type V = TokenKindView;

    open spec fn view(&self) -> TokenKindView {
        match self {
            ComposerTokenKind::Skill(skill) => TokenKindView::Skill(skill@),
            ComposerTokenKind::Image(path) => TokenKindView::Image(path@),
            ComposerTokenKind::PastedText(text) => TokenKindView::PastedText(text@),
        }
    }
}

impl Clone for ComposerTokenKind {
    fn clone(&self) -> (copy: ComposerTokenKind)
        ensures
            copy@ == self@,
    {
        match self {
            ComposerTokenKind::Skill(skill) => ComposerTokenKind::Skill(skill.clone()),
            ComposerTokenKind::Image(path) => ComposerTokenKind::Image(path.clone()),
            ComposerTokenKind::PastedText(text) => ComposerTokenKind::PastedText(text.clone()),
        }
    }
}

/// A piece of the composer's text that is edited as a whole, by its byte range.
/// The label is styled up to `style_end`; what follows is the space after it.
#[derive(Debug, PartialEq, Eq)]
pub struct ComposerToken {
    pub start: usize,
    pub style_end: usize,
    pub end: usize,
    pub kind: ComposerTokenKind,
}

/// The mathematical form of a token.
#[verifier::ext_equal]
pub struct TokenView {
    pub start: int,
    pub style_end: int,
    pub end: int,
    pub kind: TokenKindView,
}

impl View for ComposerToken {
    type V = TokenView;

    open spec fn view(&self) -> TokenView {
        TokenView {
            start: self.start as int,
            style_end: self.style_end as int,
            end: self.end as int,
            kind: self.kind@,
        }
    }
}

impl Clone for ComposerToken {
    fn clone(&self) -> (copy: ComposerToken)
        ensures
            copy@ == self@,
    {
        ComposerToken {
            start: self.start,
            style_end: self.style_end,
            end: self.end,
            kind: self.kind.clone(),
        }
    }
}

/// The composer. Its cursor and the ranges of its tokens are byte offsets.
#[derive(Debug)]
pub struct Composer {
    pub text: String,
    pub cursor: usize,
    pub target: ComposeTarget,
    pub images: Vec<String>,
    pub skills: Vec<SkillReference>,
    pub tokens: Vec<ComposerToken>,
    pub next_image_number: usize,
    pub next_paste_number: usize,
    pub vertical_column: Option<usize>,
}

/// The mathematical form of the composer.
#[verifier::ext_equal]
pub struct ComposerView {
    pub text: Seq<char>,
    pub cursor: int,
    pub target: ComposeTarget,
    pub images: Seq<Seq<char>>,
    pub skills: Seq<SkillView>,
    pub tokens: Seq<TokenView>,
    pub next_image_number: nat,
    pub next_paste_number: nat,
    pub vertical_column: Option<nat>,
}

impl View for Composer {
    type V = ComposerView;

    open spec fn view(&self) -> ComposerView {
        ComposerView {
            text: self.text@,
            cursor: self.cursor as int,
            target: self.target,
            images: texts(self.images@),
            skills: views(self.skills@),
            tokens: views(self.tokens@),
            next_image_number: self.next_image_number as nat,
            next_paste_number: self.next_paste_number as nat,
            vertical_column: match self.vertical_column {
                Some(column) => Some(column as nat),
                None => None,
            },
        }
    }
}

/// The tokens with those that start at `from` or later moved by a distance.
pub open spec fn shift_tokens(tokens: Seq<TokenView>, from: int, by: int) -> Seq<TokenView> {
    Seq::new(
        tokens.len(),
        |i: int|
            if tokens[i].start >= from {
                TokenView {
                    start: tokens[i].start + by,
                    style_end: tokens[i].style_end + by,
                    end: tokens[i].end + by,
                    kind: tokens[i].kind,
                }
            } else {
                tokens[i]
            },
    )
}

/// Tokens lie in the text, at character boundaries, one after the other.
pub open spec fn tokens_fit(text: Seq<char>, tokens: Seq<TokenView>) -> bool {
    &&& forall|i: int|
        0 <= i < tokens.len() ==> {
            &&& is_offset(text, (#[trigger] tokens[i]).start)
            &&& is_offset(text, tokens[i].end)
            &&& tokens[i].start <= tokens[i].style_end <= tokens[i].end
            &&& tokens[i].start < tokens[i].end
        }
    &&& forall|i: int, j: int|
        0 <= i < j < tokens.len() ==> (#[trigger] tokens[i]).end <= (#[trigger] tokens[j]).start
}

/// Whether a byte offset lies strictly inside a token.
pub open spec fn inside_token(tokens: Seq<TokenView>, byte: int) -> bool {
    exists|i: int|
        0 <= i < tokens.len() && (#[trigger] tokens[i]).start < byte && byte < tokens[i].end
}

/// Whether no token reaches into a byte range.
pub open spec fn range_is_plain(tokens: Seq<TokenView>, start: int, end: int) -> bool {
    forall|i: int|
        0 <= i < tokens.len() ==> (#[trigger] tokens[i]).end <= start || end <= tokens[i].start
}

/// The position of the token that ends at a byte offset.
pub open spec fn token_ending_at(tokens: Seq<TokenView>, byte: int) -> Option<int>
    decreases tokens.len(),
{
    if tokens.len() == 0 {
        None
    } else if tokens[0].end == byte {
        Some(0)
    } else {
        match token_ending_at(tokens.drop_first(), byte) {
            Some(i) => Some(i + 1),
            None => None,
        }
    }
}

/// The position of the token that starts at a byte offset.
pub open spec fn token_starting_at(tokens: Seq<TokenView>, byte: int) -> Option<int>
    decreases tokens.len(),
{
    if tokens.len() == 0 {
        None
    } else if tokens[0].start == byte {
        Some(0)
    } else {
        match token_starting_at(tokens.drop_first(), byte) {
            Some(i) => Some(i + 1),
            None => None,
        }
    }
}

/// The last end of a token at or before a byte offset, or the start of the text.
pub open spec fn last_end_before(tokens: Seq<TokenView>, byte: int) -> int
    decreases tokens.len(),
{
    if tokens.len() == 0 {
        0
    } else if tokens.last().end <= byte {
        tokens.last().end
    } else {
        last_end_before(tokens.drop_last(), byte)
    }
}

/// The first start of a token at or after a byte offset, or `limit`.
pub open spec fn first_start_after(tokens: Seq<TokenView>, byte: int, limit: int) -> int
    decreases tokens.len(),
{
    if tokens.len() == 0 {
        limit
    } else if tokens[0].start >= byte {
        tokens[0].start
    } else {
        first_start_after(tokens.drop_first(), byte, limit)
    }
}

/// The images at other paths than a given one.
pub open spec fn without_image(images: Seq<Seq<char>>, path: Seq<char>) -> Seq<Seq<char>>
    decreases images.len(),
{
    if images.len() == 0 {
        seq![]
    } else if same_path(images.last(), path) {
        without_image(images.drop_last(), path)
    } else {
        without_image(images.drop_last(), path).push(images.last())
    }
}

/// Whether an image is among the images, by its path's components.
pub open spec fn has_image(images: Seq<Seq<char>>, path: Seq<char>) -> bool {
    exists|i: int| 0 <= i < images.len() && same_path(#[trigger] images[i], path)
}

/// The skills with another path than a given one.
pub open spec fn without_skill(skills: Seq<SkillView>, path: Seq<char>) -> Seq<SkillView>
    decreases skills.len(),
{
    if skills.len() == 0 {
        seq![]
    } else if skills.last().path == path {
        without_skill(skills.drop_last(), path)
    } else {
        without_skill(skills.drop_last(), path).push(skills.last())
    }
}

/// Whether a token stands for the image at a path.
pub open spec fn has_image_token(tokens: Seq<TokenView>, path: Seq<char>) -> bool {
    exists|i: int|
        0 <= i < tokens.len() && ((#[trigger] tokens[i]).kind matches TokenKindView::Image(image)
            && same_path(image, path))
}

/// Whether a token stands for the skill at a path.
pub open spec fn has_skill_token(tokens: Seq<TokenView>, path: Seq<char>) -> bool {
    exists|i: int|
        0 <= i < tokens.len() && ((#[trigger] tokens[i]).kind matches TokenKindView::Skill(skill)
            && skill.path == path)
}

/// Whether a skill with the given path is among the skills.
pub open spec fn has_skill(skills: Seq<SkillView>, path: Seq<char>) -> bool {
    exists|i: int| 0 <= i < skills.len() && (#[trigger] skills[i]).path == path
}

/// The place of a token that starts at a byte offset among the others.
pub open spec fn token_slot(tokens: Seq<TokenView>, start: int) -> int
    decreases tokens.len(),
{
    if tokens.len() == 0 || tokens[0].start >= start {
        0
    } else {
        1 + token_slot(tokens.drop_first(), start)
    }
}

/// The visible label of an attached image.
pub open spec fn image_label(number: nat) -> Seq<char> {
    "[Image #"@ + decimal(number) + "] "@
}

/// How much was pasted: its lines, or the characters of a single line.
pub open spec fn paste_detail(text: Seq<char>) -> Seq<char> {
    if split_on(text, '\n').len() > 1 {
        decimal(split_on(text, '\n').len()) + " lines"@
    } else {
        decimal(text.len()) + " chars"@
    }
}

/// The visible label of a collapsed paste.
pub open spec fn paste_label(number: nat, text: Seq<char>) -> Seq<char> {
    "[Pasted text #"@ + decimal(number) + " +"@ + paste_detail(text) + "] "@
}

/// The visible label of a skill.
pub open spec fn skill_label(name: Seq<char>) -> Seq<char> {
    "$"@ + name + " "@
}

/// One more, up to the largest machine number.
pub open spec fn counted(number: nat) -> nat {
    if number < usize::MAX {
        number + 1
    } else {
        number
    }
}

impl ComposerView {
    /// The cursor stands at a character boundary outside of every token, and the
    /// tokens lie in the text one after the other.
    pub open spec fn wf(self) -> bool {
        &&& is_offset(self.text, self.cursor)
        &&& tokens_fit(self.text, self.tokens)
        &&& !inside_token(self.tokens, self.cursor)
    }

    /// An empty composer.
    pub open spec fn empty(target: ComposeTarget) -> ComposerView {
        ComposerView {
            text: seq![],
            cursor: 0,
            target,
            images: seq![],
            skills: seq![],
            tokens: seq![],
            next_image_number: 1,
            next_paste_number: 1,
            vertical_column: None,
        }
    }

    /// The composer with a byte range replaced and the cursor after the
    /// replacement. Tokens behind the range move along.
    pub open spec fn splice(self, start: int, end: int, replacement: Seq<char>) -> ComposerView {
        ComposerView {
            text: head(self.text, start) + replacement + tail(self.text, end),
            cursor: start + byte_len(replacement),
            tokens: shift_tokens(self.tokens, end, byte_len(replacement) - (end - start)),
            vertical_column: None,
            ..self
        }
    }

    /// The composer with a text typed at the cursor.
    pub open spec fn insert(self, text: Seq<char>) -> ComposerView {
        self.splice(self.cursor, self.cursor, text)
    }

    /// The composer with a token in place of the text from `start` to the
    /// cursor.
    pub open spec fn place_token(
        self,
        start: int,
        label: Seq<char>,
        kind: TokenKindView,
    ) -> ComposerView {
        let spliced = self.splice(start, self.cursor, label);
        let token = TokenView {
            start,
            style_end: start + byte_len(label) - 1,
            end: start + byte_len(label),
            kind,
        };
        ComposerView {
            tokens: spliced.tokens.insert(token_slot(spliced.tokens, start), token),
            ..spliced
        }
    }

    /// The composer without one of its tokens, and without what only that token
    /// stood for.
    pub open spec fn remove_token(self, index: int) -> ComposerView {
        let token = self.tokens[index];
        let tokens = self.tokens.remove(index);
        let rest = ComposerView { tokens, ..self }.splice(token.start, token.end, seq![]);
        match token.kind {
            TokenKindView::Image(path) => if has_image_token(tokens, path) {
                rest
            } else {
                ComposerView { images: without_image(self.images, path), ..rest }
            },
            TokenKindView::Skill(skill) => if has_skill_token(tokens, skill.path) {
                rest
            } else {
                ComposerView { skills: without_skill(self.skills, skill.path), ..rest }
            },
            TokenKindView::PastedText(_) => rest,
        }
    }

    /// Where the grapheme before the cursor starts; a token is not entered.
    pub open spec fn previous_stop(self) -> int {
        let clusters = grapheme_clusters(head(self.text, self.cursor));
        let start = if clusters.len() == 0 {
            0
        } else {
            self.cursor - byte_len(clusters.last())
        };
        let bound = last_end_before(self.tokens, self.cursor);
        if start < bound {
            bound
        } else {
            start
        }
    }

    /// Where the grapheme after the cursor ends; a token is not entered.
    pub open spec fn next_stop(self) -> int {
        let clusters = grapheme_clusters(tail(self.text, self.cursor));
        let end = if clusters.len() == 0 {
            self.cursor
        } else {
            self.cursor + byte_len(clusters[0])
        };
        let bound = first_start_after(self.tokens, self.cursor, byte_len(self.text) as int);
        if bound < end {
            bound
        } else {
            end
        }
    }

    /// The cursor moved.
    pub open spec fn at(self, cursor: int) -> ComposerView {
        ComposerView { cursor, vertical_column: None, ..self }
    }

    /// The effect of the backspace key.
    pub open spec fn backspace(self) -> ComposerView {
        if self.cursor == 0 {
            self.at(0)
        } else {
            match token_ending_at(self.tokens, self.cursor) {
                Some(index) => self.remove_token(index),
                None => self.splice(self.previous_stop(), self.cursor, seq![]),
            }
        }
    }

    /// The effect of the delete key.
    pub open spec fn delete(self) -> ComposerView {
        if self.cursor >= byte_len(self.text) {
            self.at(self.cursor)
        } else {
            match token_starting_at(self.tokens, self.cursor) {
                Some(index) => self.remove_token(index),
                None => self.splice(self.cursor, self.next_stop(), seq![]),
            }
        }
    }

    /// The effect of the left arrow key.
    pub open spec fn move_left(self) -> ComposerView {
        match token_ending_at(self.tokens, self.cursor) {
            Some(index) => self.at(self.tokens[index].start),
            None => self.at(self.previous_stop()),
        }
    }

    /// The effect of the right arrow key.
    pub open spec fn move_right(self) -> ComposerView {
        if self.cursor >= byte_len(self.text) {
            self.at(self.cursor)
        } else {
            match token_starting_at(self.tokens, self.cursor) {
                Some(index) => self.at(self.tokens[index].end),
                None => self.at(self.next_stop()),
            }
        }
    }

    /// The composer with an image attached at the cursor.
    pub open spec fn attach_image(self, path: Seq<char>) -> ComposerView {
        if has_image(self.images, path) {
            self
        } else {
            ComposerView {
                images: self.images.push(path),
                next_image_number: counted(self.next_image_number),
                ..self.place_token(
                    self.cursor,
                    image_label(self.next_image_number),
                    TokenKindView::Image(path),
                )
            }
        }
    }

    /// The composer with a collapsed paste at the cursor.
    pub open spec fn attach_pasted_text(self, text: Seq<char>) -> ComposerView {
        if text.len() == 0 {
            self
        } else {
            ComposerView {
                next_paste_number: counted(self.next_paste_number),
                ..self.place_token(
                    self.cursor,
                    paste_label(self.next_paste_number, text),
                    TokenKindView::PastedText(text),
                )
            }
        }
    }

    /// The composer with a skill in place of the text from `start` to the
    /// cursor.
    pub open spec fn replace_with_skill(self, start: int, skill: SkillView) -> ComposerView {
        if start > self.cursor {
            self.at(self.cursor)
        } else {
            ComposerView {
                skills: if has_skill(self.skills, skill.path) {
                    self.skills
                } else {
                    self.skills.push(skill)
                },
                ..self.place_token(start, skill_label(skill.name), TokenKindView::Skill(skill))
            }
        }
    }

    /// The composer with images attached one after the other.
    pub open spec fn attach_images(self, images: Seq<Seq<char>>) -> ComposerView
        decreases images.len(),
    {
        if images.len() == 0 {
            self
        } else {
            self.attach_images(images.drop_last()).attach_image(images.last())
        }
    }

    /// The places where the cursor can stand when the text wraps at a width,
    /// behind a prefix.
    pub open spec fn cursor_stops(self, width: nat, prefix_width: nat) -> Seq<CursorStop> {
        let columns = if width == 0 {
            1int
        } else {
            width as int
        };
        let clusters = grapheme_clusters(self.text);
        stops_before(
            clusters,
            self.tokens,
            Cell { row: prefix_width as int / columns, column: prefix_width as int % columns },
            columns,
            clusters.len() as int + 1,
        )
    }

    /// Where the cursor goes by a number of rows, with the column that it keeps
    /// to; nothing where it cannot go there.
    pub open spec fn vertical_target(
        self,
        direction: int,
        width: nat,
        prefix_width: nat,
    ) -> Option<(CursorStop, int)> {
        let stops = self.cursor_stops(width, prefix_width);
        match stop_at(stops, self.cursor) {
            None => None,
            Some(current) => {
                let column = match self.vertical_column {
                    Some(column) => column as int,
                    None => current.column,
                };
                match nearest_stop(stops, current.row + direction, column) {
                    Some(target) => Some((target, column)),
                    None => None,
                }
            },
        }
    }

    /// The effect of a move by a number of rows.
    pub open spec fn move_vertical(
        self,
        direction: int,
        width: nat,
        prefix_width: nat,
    ) -> ComposerView {
        match self.vertical_target(direction, width, prefix_width) {
            Some((target, column)) => ComposerView {
                cursor: target.byte,
                vertical_column: Some(column as nat),
                ..self
            },
            None => self,
        }
    }

    /// The prompt that the composer stands for: the text without the labels of
    /// images, and with every collapsed paste written out.
    pub open spec fn prompt_text(self) -> Seq<char> {
        prompt_from(self.text, 0, self.tokens)
    }
}

/// A place where the cursor can stand: its byte offset and its cell.
pub struct CursorStop {
    pub byte: int,
    pub row: int,
    pub column: int,
}

/// The cursor's stops before the first `count` clusters of the text.
pub open spec fn stops_before(
    clusters: Seq<Seq<char>>,
    tokens: Seq<TokenView>,
    start: Cell,
    width: int,
    count: int,
) -> Seq<CursorStop>
    decreases count,
{
    if count <= 0 {
        seq![]
    } else {
        let stops = stops_before(clusters, tokens, start, width, count - 1);
        let byte = cluster_offset(clusters, count - 1);
        let cell = cell_after(start, clusters, count - 1, width);
        if inside_token(tokens, byte) {
            stops
        } else {
            stops.push(CursorStop { byte, row: cell.row, column: cell.column })
        }
    }
}

/// The first of the stops at a byte offset.
pub open spec fn stop_at(stops: Seq<CursorStop>, byte: int) -> Option<CursorStop>
    decreases stops.len(),
{
    if stops.len() == 0 {
        None
    } else if stops[0].byte == byte {
        Some(stops[0])
    } else {
        stop_at(stops.drop_first(), byte)
    }
}

/// How far a stop is from a column.
pub open spec fn column_distance(stop: CursorStop, column: int) -> int {
    if stop.column < column {
        column - stop.column
    } else {
        stop.column - column
    }
}

/// The stop of a row that is nearest to a column; the first of several.
pub open spec fn nearest_stop(stops: Seq<CursorStop>, row: int, column: int) -> Option<CursorStop>
    decreases stops.len(),
{
    if stops.len() == 0 {
        None
    } else {
        let before = nearest_stop(stops.drop_last(), row, column);
        let last = stops.last();
        if last.row != row {
            before
        } else {
            match before {
                Some(stop) => if column_distance(last, column) < column_distance(stop, column) {
                    Some(last)
                } else {
                    Some(stop)
                },
                None => Some(last),
            }
        }
    }
}

/// What a token contributes to the prompt.
pub open spec fn token_prompt(text: Seq<char>, token: TokenView) -> Seq<char> {
    match token.kind {
        TokenKindView::Image(_) => seq![],
        TokenKindView::PastedText(value) => value,
        TokenKindView::Skill(_) => slice(text, token.start, token.end),
    }
}

/// The prompt from a byte offset on, with the tokens behind it.
pub open spec fn prompt_from(text: Seq<char>, position: int, tokens: Seq<TokenView>) -> Seq<char>
    decreases tokens.len(),
{
    if tokens.len() == 0 {
        tail(text, position)
    } else {
        slice(text, position, tokens[0].start) + token_prompt(text, tokens[0]) + prompt_from(
            text,
            tokens[0].end,
            tokens.drop_first(),
        )
    }
}

/// Offsets outside of a replaced range stay offsets; those behind it move.
proof fn lemma_offset_splice(a: Seq<char>, m: Seq<char>, b: Seq<char>, t: Seq<char>, p: int)
    requires
        is_offset(a + m + b, p),
    ensures
        p <= byte_len(a) ==> is_offset(a + t + b, p),
        p >= byte_len(a) + byte_len(m) ==> is_offset(a + t + b, p - byte_len(m) + byte_len(t)),
{
    lemma_byte_len_concat(a, m);
    lemma_byte_len_concat(a, t);
    assert(a + m + b =~= a + (m + b));
    assert(a + t + b =~= a + (t + b));
    if p <= byte_len(a) {
        lemma_offset_split(a, m + b, p);
        lemma_offset_concat(a, t + b, p);
    }
    if p >= byte_len(a) + byte_len(m) {
        lemma_offset_split(a + m, b, p);
        lemma_offset_concat(a + t, b, p - byte_len(a + m));
    }
}

/// Replacing a plain range keeps the composer well formed.
pub proof fn lemma_splice_wf(c: ComposerView, start: int, end: int, replacement: Seq<char>)
    requires
        tokens_fit(c.text, c.tokens),
        is_offset(c.text, start),
        is_offset(c.text, end),
        start <= end,
        range_is_plain(c.tokens, start, end),
    ensures
        c.splice(start, end, replacement).wf(),
        byte_len(c.splice(start, end, replacement).text) == byte_len(c.text) + byte_len(replacement)
            - (end - start),
        range_is_plain(
            c.splice(start, end, replacement).tokens,
            start,
            start + byte_len(replacement),
        ),
{
    let a = head(c.text, start);
    let m = slice(c.text, start, end);
    let b = tail(c.text, end);
    let n = c.splice(start, end, replacement);
    lemma_three_parts(c.text, start, end);
    lemma_byte_len_concat(a, replacement);
    lemma_byte_len_concat(a + replacement, b);
    lemma_offset_ends(a + replacement);
    lemma_offset_concat(a + replacement, b, byte_len(a + replacement) as int);
    assert forall|i: int| 0 <= i < n.tokens.len() implies {
        &&& is_offset(n.text, (#[trigger] n.tokens[i]).start)
        &&& is_offset(n.text, n.tokens[i].end)
        &&& n.tokens[i].start <= n.tokens[i].style_end <= n.tokens[i].end
        &&& n.tokens[i].start < n.tokens[i].end
        &&& (n.tokens[i].end <= start || start + byte_len(replacement) <= n.tokens[i].start)
    } by {
        let t = c.tokens[i];
        lemma_offset_splice(a, m, b, replacement, t.start);
        lemma_offset_splice(a, m, b, replacement, t.end);
    }
    assert forall|i: int, j: int| 0 <= i < j < n.tokens.len() implies (#[trigger] n.tokens[i]).end
        <= (#[trigger] n.tokens[j]).start by {
        assert(c.tokens[i].end <= c.tokens[j].start);
    }
}

pub proof fn lemma_token_ending_at(tokens: Seq<TokenView>, byte: int)
    ensures
        match token_ending_at(tokens, byte) {
            Some(i) => 0 <= i < tokens.len() && tokens[i].end == byte,
            None => forall|i: int| 0 <= i < tokens.len() ==> (#[trigger] tokens[i]).end != byte,
        },
    decreases tokens.len(),
{
    if tokens.len() > 0 && tokens[0].end != byte {
        let rest = tokens.drop_first();
        lemma_token_ending_at(rest, byte);
        assert forall|i: int| 0 < i < tokens.len() implies #[trigger] tokens[i] == rest[i - 1] by {}
    }
}

pub proof fn lemma_token_starting_at(tokens: Seq<TokenView>, byte: int)
    ensures
        match token_starting_at(tokens, byte) {
            Some(i) => 0 <= i < tokens.len() && tokens[i].start == byte,
            None => forall|i: int| 0 <= i < tokens.len() ==> (#[trigger] tokens[i]).start != byte,
        },
    decreases tokens.len(),
{
    if tokens.len() > 0 && tokens[0].start != byte {
        let rest = tokens.drop_first();
        lemma_token_starting_at(rest, byte);
        assert forall|i: int| 0 < i < tokens.len() implies #[trigger] tokens[i] == rest[i - 1] by {}
    }
}

/// Nothing of a token lies between the last end before an offset outside of the
/// tokens and that offset.
proof fn lemma_last_end_before(text: Seq<char>, tokens: Seq<TokenView>, byte: int)
    requires
        tokens_fit(text, tokens),
        is_offset(text, byte),
        !inside_token(tokens, byte),
    ensures
        0 <= last_end_before(tokens, byte) <= byte,
        is_offset(text, last_end_before(tokens, byte)),
        range_is_plain(tokens, last_end_before(tokens, byte), byte),
        last_end_before(tokens, byte) == 0 || exists|i: int|
            0 <= i < tokens.len() && (#[trigger] tokens[i]).end == last_end_before(tokens, byte),
    decreases tokens.len(),
{
    lemma_offset_ends(text);
    lemma_is_offset(text, byte);
    if tokens.len() > 0 {
        let last = tokens.len() - 1;
        lemma_is_offset(text, tokens[last].end);
        if tokens.last().end <= byte {
            assert(tokens[last].end == last_end_before(tokens, byte));
            assert forall|i: int| 0 <= i < tokens.len() implies (#[trigger] tokens[i]).end
                <= tokens[last].end by {
                if i < last {
                    assert(tokens[i].end <= tokens[last].start);
                }
            }
        } else {
            let front = tokens.drop_last();
            assert forall|i: int| 0 <= i < front.len() implies #[trigger] front[i] == tokens[i] by {}
            assert(!inside_token(front, byte)) by {
                if inside_token(front, byte) {
                    let i = choose|i: int|
                        0 <= i < front.len() && (#[trigger] front[i]).start < byte && byte
                            < front[i].end;
                    assert(tokens[i].start < byte && byte < tokens[i].end);
                }
            }
            lemma_last_end_before(text, front, byte);
            assert(!(tokens[last].start < byte && byte < tokens[last].end));
            assert forall|i: int| 0 <= i < tokens.len() implies (#[trigger] tokens[i]).end
                <= last_end_before(tokens, byte) || byte <= tokens[i].start by {
                if i < last {
                    assert(front[i].end <= last_end_before(front, byte) || byte <= front[i].start);
                }
            }
            if last_end_before(front, byte) != 0 {
                let i = choose|i: int|
                    0 <= i < front.len() && (#[trigger] front[i]).end == last_end_before(
                        front,
                        byte,
                    );
                assert(tokens[i].end == last_end_before(tokens, byte));
            }
        }
    }
}

/// Nothing of a token lies between an offset outside of the tokens and the first
/// start behind it.
proof fn lemma_first_start_after(text: Seq<char>, tokens: Seq<TokenView>, byte: int, limit: int)
    requires
        tokens_fit(text, tokens),
        is_offset(text, byte),
        is_offset(text, limit),
        byte <= limit,
        !inside_token(tokens, byte),
        limit == byte_len(text),
    ensures
        byte <= first_start_after(tokens, byte, limit) <= limit,
        is_offset(text, first_start_after(tokens, byte, limit)),
        range_is_plain(tokens, byte, first_start_after(tokens, byte, limit)),
        first_start_after(tokens, byte, limit) == limit || exists|i: int|
            0 <= i < tokens.len() && (#[trigger] tokens[i]).start == first_start_after(
                tokens,
                byte,
                limit,
            ),
    decreases tokens.len(),
{
    if tokens.len() > 0 {
        lemma_is_offset(text, tokens[0].start);
        if tokens[0].start >= byte {
            assert forall|i: int| 0 <= i < tokens.len() implies tokens[0].start <= (
            #[trigger] tokens[i]).start by {
                if i > 0 {
                    assert(tokens[0].end <= tokens[i].start);
                }
            }
        } else {
            let rest = tokens.drop_first();
            assert forall|i: int| 0 <= i < rest.len() implies #[trigger] rest[i] == tokens[i + 1] by {}
            assert(!inside_token(rest, byte)) by {
                if inside_token(rest, byte) {
                    let i = choose|i: int|
                        0 <= i < rest.len() && (#[trigger] rest[i]).start < byte && byte
                            < rest[i].end;
                    assert(tokens[i + 1].start < byte && byte < tokens[i + 1].end);
                }
            }
            assert forall|i: int, j: int| 0 <= i < j < rest.len() implies (#[trigger] rest[i]).end
                <= (#[trigger] rest[j]).start by {
                assert(tokens[i + 1].end <= tokens[j + 1].start);
            }
            lemma_first_start_after(text, rest, byte, limit);
            assert(!(tokens[0].start < byte && byte < tokens[0].end));
            let bound = first_start_after(rest, byte, limit);
            assert forall|i: int| 0 <= i < tokens.len() implies (#[trigger] tokens[i]).end <= byte
                || bound <= tokens[i].start by {
                if i > 0 {
                    assert(rest[i - 1].end <= byte || bound <= rest[i - 1].start);
                }
            }
            if bound != limit {
                let i = choose|i: int| 0 <= i < rest.len() && (#[trigger] rest[i]).start == bound;
                assert(tokens[i + 1].start == bound);
            }
        }
    }
}

pub proof fn lemma_token_slot(tokens: Seq<TokenView>, start: int)
    ensures
        0 <= token_slot(tokens, start) <= tokens.len(),
        forall|i: int|
            0 <= i < token_slot(tokens, start) ==> (#[trigger] tokens[i]).start < start,
        token_slot(tokens, start) < tokens.len() ==> tokens[token_slot(tokens, start)].start
            >= start,
    decreases tokens.len(),
{
    if tokens.len() > 0 && tokens[0].start < start {
        let rest = tokens.drop_first();
        lemma_token_slot(rest, start);
        assert forall|i: int| 0 < i < tokens.len() implies #[trigger] tokens[i] == rest[i - 1] by {}
    }
}

/// Placing a token over plain text keeps the composer well formed.
pub proof fn lemma_place_token_wf(c: ComposerView, start: int, label: Seq<char>, kind: TokenKindView)
    requires
        c.wf(),
        is_offset(c.text, start),
        start <= c.cursor,
        range_is_plain(c.tokens, start, c.cursor),
        label.len() > 0,
    ensures
        c.place_token(start, label, kind).wf(),
{
    lemma_splice_wf(c, start, c.cursor, label);
    lemma_byte_len_bounds(label);
    let spliced = c.splice(start, c.cursor, label);
    let slot = token_slot(spliced.tokens, start);
    lemma_token_slot(spliced.tokens, start);
    let n = c.place_token(start, label, kind);
    let end = start + byte_len(label);
    let a = head(c.text, start);
    lemma_three_parts(c.text, start, c.cursor);
    lemma_offset_ends(a);
    assert(a + label + tail(c.text, c.cursor) =~= a + (label + tail(c.text, c.cursor)));
    lemma_offset_concat(a, label + tail(c.text, c.cursor), start);
    assert(is_offset(n.text, start));
    assert forall|i: int| 0 <= i < n.tokens.len() implies {
        &&& is_offset(n.text, (#[trigger] n.tokens[i]).start)
        &&& is_offset(n.text, n.tokens[i].end)
        &&& n.tokens[i].start <= n.tokens[i].style_end <= n.tokens[i].end
        &&& n.tokens[i].start < n.tokens[i].end
        &&& (i < slot ==> n.tokens[i].end <= start)
        &&& (i > slot ==> end <= n.tokens[i].start)
    } by {
        if i < slot {
            assert(n.tokens[i] == spliced.tokens[i]);
        } else if i > slot {
            assert(n.tokens[i] == spliced.tokens[i - 1]);
            if i - 1 > slot {
                assert(spliced.tokens[slot].end <= spliced.tokens[i - 1].start);
            }
        }
    }
    assert forall|i: int, j: int| 0 <= i < j < n.tokens.len() implies (#[trigger] n.tokens[i]).end
        <= (#[trigger] n.tokens[j]).start by {
        if i != slot && j != slot {
            let p = if i < slot {
                i
            } else {
                i - 1
            };
            let q = if j < slot {
                j
            } else {
                j - 1
            };
            assert(n.tokens[i] == spliced.tokens[p]);
            assert(n.tokens[j] == spliced.tokens[q]);
        }
    }
}

/// Removing a token keeps the composer well formed.
pub proof fn lemma_remove_token_wf(c: ComposerView, index: int)
    requires
        tokens_fit(c.text, c.tokens),
        0 <= index < c.tokens.len(),
    ensures
        c.remove_token(index).wf(),
        c.remove_token(index).cursor == c.tokens[index].start,
{
    let token = c.tokens[index];
    let tokens = c.tokens.remove(index);
    let rest = ComposerView { tokens, ..c };
    assert forall|i: int| 0 <= i < tokens.len() implies #[trigger] tokens[i] == c.tokens[if i
        < index {
        i
    } else {
        i + 1
    }] by {}
    assert forall|i: int| 0 <= i < tokens.len() implies (#[trigger] tokens[i]).end <= token.start
        || token.end <= tokens[i].start by {
        if i < index {
            assert(c.tokens[i].end <= c.tokens[index].start);
        } else {
            assert(c.tokens[index].end <= c.tokens[i + 1].start);
        }
    }
    assert forall|i: int, j: int| 0 <= i < j < tokens.len() implies (#[trigger] tokens[i]).end <= (
    #[trigger] tokens[j]).start by {}
    assert(tokens_fit(rest.text, rest.tokens));
    lemma_splice_wf(rest, token.start, token.end, seq![]);
}

impl Default for Composer {
    fn default() -> (composer: Composer)
        ensures
            composer@ == ComposerView::empty(ComposeTarget::NewTask),
            composer@.wf(),
    {
        let composer = Composer {
            text: String::new(),
            cursor: 0,
            target: ComposeTarget::NewTask,
            images: Vec::new(),
            skills: Vec::new(),
            tokens: Vec::new(),
            next_image_number: 1,
            next_paste_number: 1,
            vertical_column: None,
        };
        proof {
            lemma_offset_ends(composer.text@);
            assert(texts(composer.images@) =~= seq![]);
            assert(composer@.tokens.len() == 0);
        }
        composer
    }
}

impl Composer {
    /// Attaches images in turn.
    pub fn attach_images(&mut self, paths: &Vec<String>)
        requires
            old(self)@.wf(),
        ensures
            final(self)@ == old(self)@.attach_images(texts(paths@)),
            final(self)@.wf(),
            final(self)@.images.len() >= old(self)@.images.len(),
    {
        let ghost start = self@;
        let ghost all = texts(paths@);
        let mut i: usize = 0;
        assert(all.take(0) =~= seq![]);
        while i < paths.len()
            invariant
                i <= paths.len(),
                all == texts(paths@),
                self@ == start.attach_images(all.take(i as int)),
                self@.wf(),
                self@.images.len() >= start.images.len(),
            decreases paths.len() - i,
        {
            proof {
                assert(all.take(i + 1).drop_last() =~= all.take(i as int));
                assert(all.take(i + 1).last() == paths@[i as int]@);
            }
            self.attach_image(paths[i].clone());
            i += 1;
        }
        assert(all.take(all.len() as int) =~= all);
    }

    /// Takes the last image away.
    pub fn drop_last_image(&mut self)
        requires
            old(self)@.wf(),
            old(self)@.images.len() > 0,
        ensures
            final(self)@ == (ComposerView {
                images: old(self)@.images.drop_last(),
                ..old(self)@
            }),
            final(self)@.wf(),
    {
        let ghost before = self.images@;
        self.images.pop();
        assert(texts(self.images@) =~= texts(before).drop_last());
    }

    /// Turns the composer to a target.
    pub fn aim(&mut self, target: ComposeTarget)
        ensures
            final(self)@ == (ComposerView { target, ..old(self)@ }),
    {
        self.target = target;
    }
}

impl Clone for Composer {
    fn clone(&self) -> (copy: Composer)
        ensures
            copy@ == self@,
    {
        let mut skills: Vec<SkillReference> = Vec::new();
        let mut i: usize = 0;
        while i < self.skills.len()
            invariant
                i <= self.skills.len(),
                skills.len() == i,
                forall|j: int| 0 <= j < i ==> (#[trigger] skills@[j])@ == self.skills@[j]@,
            decreases self.skills.len() - i,
        {
            skills.push(self.skills[i].clone());
            i += 1;
        }
        assert(views(skills@) =~= views(self.skills@));
        let mut tokens: Vec<ComposerToken> = Vec::new();
        let mut k: usize = 0;
        while k < self.tokens.len()
            invariant
                k <= self.tokens.len(),
                tokens.len() == k,
                forall|j: int| 0 <= j < k ==> (#[trigger] tokens@[j])@ == self.tokens@[j]@,
            decreases self.tokens.len() - k,
        {
            tokens.push(self.tokens[k].clone());
            k += 1;
        }
        assert(views(tokens@) =~= views(self.tokens@));
        Composer {
            text: self.text.clone(),
            cursor: self.cursor,
            target: self.target,
            images: copy_texts(&self.images),
            skills,
            tokens,
            next_image_number: self.next_image_number,
            next_paste_number: self.next_paste_number,
            vertical_column: self.vertical_column,
        }
    }
}

impl Composer {
    /// Types a text at the cursor.
    pub fn insert(&mut self, text: &str)
        requires
            old(self)@.wf(),
        ensures
            final(self)@ == old(self)@.insert(text@),
            final(self)@.wf(),
    {
        let position: usize = self.cursor;
        self.replace_plain_range(position, position, text);
    }

    /// Replaces a byte range that no token reaches into, and puts the cursor
    /// behind the replacement.
    fn replace_plain_range(&mut self, start: usize, end: usize, replacement: &str)
        requires
            tokens_fit(old(self)@.text, old(self)@.tokens),
            is_offset(old(self)@.text, start as int),
            is_offset(old(self)@.text, end as int),
            start <= end,
            range_is_plain(old(self)@.tokens, start as int, end as int),
        ensures
            final(self)@ == old(self)@.splice(start as int, end as int, replacement@),
            final(self)@.wf(),
            range_is_plain(
                final(self)@.tokens,
                start as int,
                start + byte_len(replacement@),
            ),
    {
        let ghost before = self@;
        let ghost after = before.splice(start as int, end as int, replacement@);
        proof {
            lemma_splice_wf(before, start as int, end as int, replacement@);
            lemma_three_parts(before.text, start as int, end as int);
        }
        let mut text = split_text(self.text.as_str(), start).0.to_owned();
        text.append(replacement);
        text.append(split_text(self.text.as_str(), end).1);
        assert(text@ == after.text);
        let total: usize = text_len(text.as_str());
        let added: usize = text_len(replacement);
        let removed: usize = end - start;
        let mut i: usize = 0;
        while i < self.tokens.len()
            invariant
                i <= self.tokens.len() == before.tokens.len(),
                before.tokens.len() == after.tokens.len(),
                self.text@ == before.text,
                self.cursor == before.cursor,
                self.target == before.target,
                texts(self.images@) == before.images,
                views(self.skills@) == before.skills,
                self.next_image_number == before.next_image_number,
                self.next_paste_number == before.next_paste_number,
                after.tokens == shift_tokens(before.tokens, end as int, added - removed),
                tokens_fit(after.text, after.tokens),
                total == byte_len(after.text),
                added == byte_len(replacement@),
                removed == end - start,
                start <= end,
                forall|j: int| 0 <= j < i ==> (#[trigger] self.tokens@[j])@ == after.tokens[j],
                forall|j: int|
                    i <= j < self.tokens.len() ==> (#[trigger] self.tokens@[j])@
                        == before.tokens[j],
            decreases self.tokens.len() - i,
        {
            let ghost moved = after.tokens[i as int];
            assert(self.tokens@[i as int]@ == before.tokens[i as int]);
            proof {
                lemma_is_offset(after.text, moved.start);
                lemma_is_offset(after.text, moved.end);
            }
            if self.tokens[i].start >= end {
                let token = &mut self.tokens[i];
                if added >= removed {
                    let shift: usize = added - removed;
                    token.start = token.start + shift;
                    token.style_end = token.style_end + shift;
                    token.end = token.end + shift;
                } else {
                    let shift: usize = removed - added;
                    token.start = token.start - shift;
                    token.style_end = token.style_end - shift;
                    token.end = token.end - shift;
                }
            }
            i += 1;
        }
        assert(views(self.tokens@) =~= after.tokens);
        self.text = text;
        proof {
            lemma_is_offset(after.text, after.cursor);
        }
        self.cursor = start + added;
        self.vertical_column = None;
    }

    /// Removes a byte range that no token reaches into.
    fn delete_plain_range(&mut self, start: usize, end: usize)
        requires
            tokens_fit(old(self)@.text, old(self)@.tokens),
            is_offset(old(self)@.text, start as int),
            is_offset(old(self)@.text, end as int),
            start <= end,
            range_is_plain(old(self)@.tokens, start as int, end as int),
        ensures
            final(self)@ == old(self)@.splice(start as int, end as int, seq![]),
            final(self)@.wf(),
    {
        proof {
            reveal_strlit("");
            assert(""@ =~= seq![]);
        }
        self.replace_plain_range(start, end, "");
    }

    /// Takes a token away, with what only that token stood for.
    fn remove_token(&mut self, index: usize)
        requires
            tokens_fit(old(self)@.text, old(self)@.tokens),
            index < old(self).tokens.len(),
        ensures
            final(self)@ == old(self)@.remove_token(index as int),
            final(self)@.wf(),
    {
        let ghost before = self@;
        let ghost others = before.tokens.remove(index as int);
        proof {
            lemma_remove_token_wf(before, index as int);
            lemma_token_range(before, index as int);
        }
        let token = self.tokens.remove(index);
        assert(self@ == ComposerView { tokens: others, ..before });
        self.delete_plain_range(token.start, token.end);
        proof {
            lemma_shift_kinds(others, token.end as int, token.start - token.end);
        }
        match token.kind {
            ComposerTokenKind::Image(path) => {
                if !self.has_image_token(path.as_str()) {
                    self.forget_image(path.as_str());
                }
            },
            ComposerTokenKind::Skill(skill) => {
                if !self.has_skill(skill.path.as_str()) {
                    self.forget_skill(skill.path.as_str());
                }
            },
            ComposerTokenKind::PastedText(_) => {},
        }
    }

    /// Whether an image is attached.
    fn has_image(&self, path: &str) -> (found: bool)
        ensures
            found == has_image(self@.images, path@),
    {
        let mut i: usize = 0;
        while i < self.images.len()
            invariant
                i <= self.images.len(),
                forall|j: int| 0 <= j < i ==> !same_path(#[trigger] self@.images[j], path@),
            decreases self.images.len() - i,
        {
            assert(self@.images[i as int] == self.images@[i as int]@);
            if is_same_path(self.images[i].as_str(), path) {
                return true;
            }
            i += 1;
        }
        false
    }

    /// Whether a token stands for the image at a path.
    fn has_image_token(&self, path: &str) -> (found: bool)
        ensures
            found == has_image_token(self@.tokens, path@),
    {
        let mut i: usize = 0;
        while i < self.tokens.len()
            invariant
                i <= self.tokens.len(),
                forall|j: int|
                    0 <= j < i ==> !((#[trigger] self@.tokens[j]).kind matches TokenKindView::Image(
                        image,
                    ) && same_path(image, path@)),
            decreases self.tokens.len() - i,
        {
            assert(self@.tokens[i as int] == self.tokens@[i as int]@);
            if let ComposerTokenKind::Image(value) = &self.tokens[i].kind {
                if is_same_path(value.as_str(), path) {
                    return true;
                }
            }
            i += 1;
        }
        false
    }

    /// Whether a token stands for the skill at a path.
    fn has_skill(&self, path: &str) -> (found: bool)
        ensures
            found == has_skill_token(self@.tokens, path@),
    {
        let mut i: usize = 0;
        while i < self.tokens.len()
            invariant
                i <= self.tokens.len(),
                forall|j: int|
                    0 <= j < i ==> !((#[trigger] self@.tokens[j]).kind matches TokenKindView::Skill(
                        skill,
                    ) && skill.path == path@),
            decreases self.tokens.len() - i,
        {
            assert(self@.tokens[i as int] == self.tokens@[i as int]@);
            if let ComposerTokenKind::Skill(skill) = &self.tokens[i].kind {
                if same_text(skill.path.as_str(), path) {
                    return true;
                }
            }
            i += 1;
        }
        false
    }

    fn forget_image(&mut self, path: &str)
        ensures
            final(self)@ == (ComposerView {
                images: without_image(old(self)@.images, path@),
                ..old(self)@
            }),
    {
        let mut images: Vec<String> = Vec::new();
        let mut i: usize = 0;
        let ghost all = texts(self.images@);
        assert(texts(images@) =~= seq![]);
        assert(all.take(0) =~= seq![]);
        while i < self.images.len()
            invariant
                i <= self.images.len(),
                all == texts(self.images@),
                texts(images@) == without_image(all.take(i as int), path@),
            decreases self.images.len() - i,
        {
            proof {
                assert(all.take(i + 1).drop_last() =~= all.take(i as int));
                assert(all.take(i + 1).last() == self.images@[i as int]@);
            }
            if !is_same_path(self.images[i].as_str(), path) {
                let image = self.images[i].clone();
                proof {
                    lemma_texts_push(images@, image);
                }
                images.push(image);
            }
            i += 1;
        }
        assert(all.take(all.len() as int) =~= all);
        self.images = images;
    }

    fn forget_skill(&mut self, path: &str)
        ensures
            final(self)@ == (ComposerView {
                skills: without_skill(old(self)@.skills, path@),
                ..old(self)@
            }),
    {
        let mut skills: Vec<SkillReference> = Vec::new();
        let mut i: usize = 0;
        let ghost all = views(self.skills@);
        assert(views(skills@) =~= seq![]);
        assert(all.take(0) =~= seq![]);
        while i < self.skills.len()
            invariant
                i <= self.skills.len(),
                all == views(self.skills@),
                views(skills@) == without_skill(all.take(i as int), path@),
            decreases self.skills.len() - i,
        {
            proof {
                assert(all.take(i + 1).drop_last() =~= all.take(i as int));
                assert(all.take(i + 1).last() == self.skills@[i as int]@);
            }
            if !same_text(self.skills[i].path.as_str(), path) {
                skills.push(self.skills[i].clone());
            }
            i += 1;
        }
        assert(all.take(all.len() as int) =~= all);
        self.skills = skills;
    }

    fn token_ending(&self) -> (found: Option<usize>)
        ensures
            match found {
                Some(i) => i < self.tokens.len() && token_ending_at(self@.tokens, self@.cursor)
                    == Some(i as int),
                None => token_ending_at(self@.tokens, self@.cursor) is None,
            },
    {
        let ghost tokens = self@.tokens;
        let mut i: usize = 0;
        assert(tokens.skip(0) =~= tokens);
        while i < self.tokens.len()
            invariant
                i <= self.tokens.len(),
                tokens == self@.tokens,
                token_ending_at(tokens, self@.cursor) == (match token_ending_at(
                    tokens.skip(i as int),
                    self@.cursor,
                ) {
                    Some(k) => Some(k + i),
                    None => None,
                }),
            decreases self.tokens.len() - i,
        {
            assert(tokens.skip(i as int)[0] == self.tokens@[i as int]@);
            assert(tokens.skip(i as int).drop_first() =~= tokens.skip(i + 1));
            if self.tokens[i].end == self.cursor {
                return Some(i);
            }
            i += 1;
        }
        None
    }

    fn token_starting(&self) -> (found: Option<usize>)
        ensures
            match found {
                Some(i) => i < self.tokens.len() && token_starting_at(self@.tokens, self@.cursor)
                    == Some(i as int),
                None => token_starting_at(self@.tokens, self@.cursor) is None,
            },
    {
        let ghost tokens = self@.tokens;
        let mut i: usize = 0;
        assert(tokens.skip(0) =~= tokens);
        while i < self.tokens.len()
            invariant
                i <= self.tokens.len(),
                tokens == self@.tokens,
                token_starting_at(tokens, self@.cursor) == (match token_starting_at(
                    tokens.skip(i as int),
                    self@.cursor,
                ) {
                    Some(k) => Some(k + i),
                    None => None,
                }),
            decreases self.tokens.len() - i,
        {
            assert(tokens.skip(i as int)[0] == self.tokens@[i as int]@);
            assert(tokens.skip(i as int).drop_first() =~= tokens.skip(i + 1));
            if self.tokens[i].start == self.cursor {
                return Some(i);
            }
            i += 1;
        }
        None
    }

    /// Where the grapheme before the cursor starts; a token is not entered.
    fn previous_stop(&self) -> (stop: usize)
        requires
            self@.wf(),
        ensures
            stop == self@.previous_stop(),
            stop <= self.cursor,
            is_offset(self@.text, stop as int),
            range_is_plain(self@.tokens, stop as int, self@.cursor),
            !inside_token(self@.tokens, stop as int),
    {
        let front = split_text(self.text.as_str(), self.cursor).0;
        let clusters = graphemes(front);
        let ghost parts = texts(clusters@);
        proof {
            lemma_is_offset(self@.text, self@.cursor);
            lemma_last_end_before(self@.text, self@.tokens, self@.cursor);
            lemma_offset_ends(self@.text);
        }
        let start: usize = if clusters.len() == 0 {
            0
        } else {
            let last: usize = text_len(clusters[clusters.len() - 1].as_str());
            proof {
                let n = parts.len() as int;
                lemma_concat_split(parts, n - 1);
                assert(parts.take(n - 1) =~= parts.drop_last());
                lemma_byte_len_concat(concat(parts.drop_last()), parts.last());
                assert(parts.last() == clusters@[n - 1]@);
                lemma_offset_concat(front@, tail(self@.text, self@.cursor), self.cursor - last);
            }
            self.cursor - last
        };
        let ghost tokens = self@.tokens;
        let mut bound: usize = 0;
        let mut i: usize = self.tokens.len();
        assert(tokens.take(i as int) =~= tokens);
        while i > 0
            invariant_except_break
                bound == 0,
                last_end_before(tokens.take(i as int), self@.cursor) == last_end_before(
                    tokens,
                    self@.cursor,
                ),
            invariant
                i <= self.tokens.len(),
                tokens == self@.tokens,
            ensures
                bound == last_end_before(tokens, self@.cursor),
            decreases i,
        {
            assert(tokens.take(i as int).drop_last() =~= tokens.take(i - 1));
            assert(tokens.take(i as int).last() == self.tokens@[i - 1]@);
            if self.tokens[i - 1].end <= self.cursor {
                bound = self.tokens[i - 1].end;
                break;
            }
            i -= 1;
        }
        if start < bound {
            bound
        } else {
            start
        }
    }

    /// Where the grapheme after the cursor ends; a token is not entered.
    fn next_stop(&self) -> (stop: usize)
        requires
            self@.wf(),
        ensures
            stop == self@.next_stop(),
            self.cursor <= stop,
            is_offset(self@.text, stop as int),
            range_is_plain(self@.tokens, self@.cursor, stop as int),
            !inside_token(self@.tokens, stop as int),
    {
        let back = split_text(self.text.as_str(), self.cursor).1;
        let clusters = graphemes(back);
        let ghost parts = texts(clusters@);
        let total: usize = text_len(self.text.as_str());
        proof {
            lemma_is_offset(self@.text, self@.cursor);
            lemma_offset_ends(self@.text);
            lemma_first_start_after(self@.text, self@.tokens, self@.cursor, total as int);
        }
        let end: usize = if clusters.len() == 0 {
            self.cursor
        } else {
            let first: usize = text_len(clusters[0].as_str());
            proof {
                lemma_concat_split(parts, 1);
                assert(parts.take(1).drop_last() =~= seq![]);
                reveal_with_fuel(concat, 2);
                assert(concat(parts.take(1)) =~= parts[0]);
                assert(parts[0] == clusters@[0]@);
                lemma_offset_concat(head(self@.text, self@.cursor), back@, first as int);
            }
            self.cursor + first
        };
        let ghost tokens = self@.tokens;
        let mut bound: usize = total;
        let mut i: usize = 0;
        assert(tokens.skip(0) =~= tokens);
        while i < self.tokens.len()
            invariant_except_break
                bound == total,
                first_start_after(tokens.skip(i as int), self@.cursor, total as int)
                    == first_start_after(tokens, self@.cursor, total as int),
            invariant
                i <= self.tokens.len(),
                tokens == self@.tokens,
            ensures
                bound == first_start_after(tokens, self@.cursor, total as int),
            decreases self.tokens.len() - i,
        {
            assert(tokens.skip(i as int).drop_first() =~= tokens.skip(i + 1));
            assert(tokens.skip(i as int)[0] == self.tokens@[i as int]@);
            if self.tokens[i].start >= self.cursor {
                bound = self.tokens[i].start;
                break;
            }
            i += 1;
        }
        if bound < end {
            bound
        } else {
            end
        }
    }

    /// The backspace key: removes the token that ends at the cursor, or the
    /// grapheme before it.
    pub fn backspace(&mut self)
        requires
            old(self)@.wf(),
        ensures
            final(self)@ == old(self)@.backspace(),
            final(self)@.wf(),
    {
        self.vertical_column = None;
        if self.cursor == 0 {
            return;
        }
        match self.token_ending() {
            Some(index) => self.remove_token(index),
            None => {
                let start: usize = self.previous_stop();
                let end: usize = self.cursor;
                self.delete_plain_range(start, end);
            },
        }
    }

    /// The delete key: removes the token that starts at the cursor, or the
    /// grapheme after it.
    pub fn delete(&mut self)
        requires
            old(self)@.wf(),
        ensures
            final(self)@ == old(self)@.delete(),
            final(self)@.wf(),
    {
        self.vertical_column = None;
        if self.cursor >= text_len(self.text.as_str()) {
            return;
        }
        match self.token_starting() {
            Some(index) => self.remove_token(index),
            None => {
                let start: usize = self.cursor;
                let end: usize = self.next_stop();
                self.delete_plain_range(start, end);
            },
        }
    }

    /// The left arrow key: goes over the token that ends at the cursor, or over
    /// the grapheme before it.
    pub fn move_left(&mut self)
        requires
            old(self)@.wf(),
        ensures
            final(self)@ == old(self)@.move_left(),
            final(self)@.wf(),
    {
        self.vertical_column = None;
        match self.token_ending() {
            Some(index) => {
                proof {
                    lemma_token_bounds(self@, index as int);
                }
                self.cursor = self.tokens[index].start;
            },
            None => {
                self.cursor = self.previous_stop();
            },
        }
    }

    /// The right arrow key: goes over the token that starts at the cursor, or
    /// over the grapheme after it.
    pub fn move_right(&mut self)
        requires
            old(self)@.wf(),
        ensures
            final(self)@ == old(self)@.move_right(),
            final(self)@.wf(),
    {
        self.vertical_column = None;
        if self.cursor >= text_len(self.text.as_str()) {
            return;
        }
        match self.token_starting() {
            Some(index) => {
                proof {
                    lemma_token_bounds(self@, index as int);
                }
                self.cursor = self.tokens[index].end;
            },
            None => {
                self.cursor = self.next_stop();
            },
        }
    }

    /// Puts the cursor at the start of the text.
    pub fn move_to_start(&mut self)
        requires
            old(self)@.wf(),
        ensures
            final(self)@ == old(self)@.at(0),
            final(self)@.wf(),
    {
        proof {
            lemma_offset_ends(self@.text);
            lemma_tokens_positive(self@.text, self@.tokens);
        }
        self.vertical_column = None;
        self.cursor = 0;
    }

    /// Puts the cursor at the end of the text.
    pub fn move_to_end(&mut self)
        requires
            old(self)@.wf(),
        ensures
            final(self)@ == old(self)@.at(byte_len(old(self)@.text) as int),
            final(self)@.wf(),
    {
        proof {
            lemma_offset_ends(self@.text);
            lemma_tokens_positive(self@.text, self@.tokens);
        }
        self.vertical_column = None;
        self.cursor = text_len(self.text.as_str());
    }
}

/// A token covers a range of the text that no other token reaches into.
proof fn lemma_token_range(c: ComposerView, index: int)
    requires
        tokens_fit(c.text, c.tokens),
        0 <= index < c.tokens.len(),
    ensures
        range_is_plain(c.tokens.remove(index), c.tokens[index].start, c.tokens[index].end),
        tokens_fit(c.text, c.tokens.remove(index)),
{
    let tokens = c.tokens.remove(index);
    assert forall|i: int| 0 <= i < tokens.len() implies #[trigger] tokens[i] == c.tokens[if i
        < index {
        i
    } else {
        i + 1
    }] by {}
}

/// Moving tokens leaves what they stand for.
pub proof fn lemma_shift_kinds(tokens: Seq<TokenView>, from: int, by: int)
    ensures
        forall|path: Seq<char>| #[trigger]
            has_image_token(shift_tokens(tokens, from, by), path) == has_image_token(tokens, path),
        forall|path: Seq<char>| #[trigger]
            has_skill_token(shift_tokens(tokens, from, by), path) == has_skill_token(tokens, path),
{
    let moved = shift_tokens(tokens, from, by);
    assert forall|i: int| 0 <= i < tokens.len() implies (#[trigger] moved[i]).kind
        == tokens[i].kind by {}
    assert forall|path: Seq<char>| #[trigger]
        has_image_token(moved, path) == has_image_token(tokens, path) by {
        if has_image_token(tokens, path) {
            let i = choose|i: int|
                0 <= i < tokens.len() && ((#[trigger] tokens[i]).kind matches TokenKindView::Image(
                    image,
                ) && same_path(image, path));
            assert(moved[i].kind == tokens[i].kind);
        }
    }
    assert forall|path: Seq<char>| #[trigger]
        has_skill_token(moved, path) == has_skill_token(tokens, path) by {
        if has_skill_token(tokens, path) {
            let i = choose|i: int|
                0 <= i < tokens.len() && ((#[trigger] tokens[i]).kind matches TokenKindView::Skill(
                    skill,
                ) && skill.path == path);
            assert(moved[i].kind == tokens[i].kind);
        }
    }
}

/// The ends of a token are outside of every token.
proof fn lemma_token_bounds(c: ComposerView, index: int)
    requires
        tokens_fit(c.text, c.tokens),
        0 <= index < c.tokens.len(),
    ensures
        !inside_token(c.tokens, c.tokens[index].start),
        !inside_token(c.tokens, c.tokens[index].end),
        is_offset(c.text, c.tokens[index].start),
        is_offset(c.text, c.tokens[index].end),
{
}

/// Tokens lie between the start and the end of the text.
proof fn lemma_tokens_positive(text: Seq<char>, tokens: Seq<TokenView>)
    requires
        tokens_fit(text, tokens),
    ensures
        !inside_token(tokens, 0),
        !inside_token(tokens, byte_len(text) as int),
{
    assert forall|i: int| 0 <= i < tokens.len() implies 0 <= (#[trigger] tokens[i]).start
        && tokens[i].end <= byte_len(text) by {
        lemma_is_offset(text, tokens[i].start);
        lemma_is_offset(text, tokens[i].end);
    }
}

/// Every stop is a place where the cursor may stand, in a column of the screen.
proof fn lemma_stops(
    text: Seq<char>,
    clusters: Seq<Seq<char>>,
    tokens: Seq<TokenView>,
    start: Cell,
    width: int,
    count: int,
)
    requires
        concat(clusters) == text,
        0 <= count <= clusters.len() + 1,
        0 < width,
        0 <= start.column < width,
    ensures
        forall|i: int|
            0 <= i < stops_before(clusters, tokens, start, width, count).len() ==> {
                let stop = #[trigger] stops_before(clusters, tokens, start, width, count)[i];
                is_offset(text, stop.byte) && !inside_token(tokens, stop.byte) && 0 <= stop.column
                    < width
            },
        0 <= cell_after(start, clusters, count, width).column < width,
    decreases count,
{
    if count > 0 {
        lemma_stops(text, clusters, tokens, start, width, count - 1);
        lemma_concat_split(clusters, count - 1);
        let before = stops_before(clusters, tokens, start, width, count - 1);
        let stops = stops_before(clusters, tokens, start, width, count);
        assert forall|i: int| 0 <= i < stops.len() implies {
            let stop = #[trigger] stops[i];
            is_offset(text, stop.byte) && !inside_token(tokens, stop.byte) && 0 <= stop.column
                < width
        } by {
            if i < before.len() {
                assert(stops[i] == before[i]);
            }
        }
    }
}

impl Composer {
    /// Whether the cursor may stand at a byte offset: outside of every token.
    fn is_cursor_stop(&self, byte: usize) -> (stop: bool)
        ensures
            stop == !inside_token(self@.tokens, byte as int),
    {
        let mut i: usize = 0;
        while i < self.tokens.len()
            invariant
                i <= self.tokens.len(),
                forall|j: int|
                    0 <= j < i ==> !((#[trigger] self@.tokens[j]).start < byte && byte
                        < self@.tokens[j].end),
            decreases self.tokens.len() - i,
        {
            assert(self@.tokens[i as int] == self.tokens@[i as int]@);
            if self.tokens[i].start < byte && byte < self.tokens[i].end {
                return false;
            }
            i += 1;
        }
        true
    }

    /// The places where the cursor can stand when the text wraps at a width,
    /// behind a prefix: the byte offset, the row and the column of each.
    fn visual_cursor_positions(&self, width: usize, prefix_width: usize) -> (positions: Vec<
        (usize, u128, u128),
    >)
        requires
            self@.wf(),
        ensures
            positions@.len() == self@.cursor_stops(width as nat, prefix_width as nat).len(),
            forall|i: int|
                0 <= i < positions.len() ==> stop_of(#[trigger] positions@[i])
                    == self@.cursor_stops(width as nat, prefix_width as nat)[i],
            forall|i: int|
                0 <= i < positions.len() ==> is_offset(
                    self@.text,
                    (#[trigger] positions@[i]).0 as int,
                ) && !inside_token(self@.tokens, positions@[i].0 as int) && positions@[i].2
                    <= usize::MAX && positions@[i].1 <= 4 * usize::MAX,
    {
        let columns: u128 = if width == 0 {
            1
        } else {
            width as u128
        };
        let clusters = graphemes(self.text.as_str());
        let ghost parts = texts(clusters@);
        let ghost start = Cell {
            row: prefix_width as int / columns as int,
            column: prefix_width as int % columns as int,
        };
        let mut positions: Vec<(usize, u128, u128)> = Vec::new();
        let whole: usize = text_len(self.text.as_str());
        let mut byte: usize = 0;
        let mut row: u128 = prefix_width as u128 / columns;
        let mut column: u128 = prefix_width as u128 % columns;
        let mut i: usize = 0;
        assert(parts.take(0) =~= seq![]);
        while i < clusters.len()
            invariant
                i <= clusters.len(),
                parts == texts(clusters@),
                parts == grapheme_clusters(self.text@),
                concat(parts) == self.text@,
                whole == byte_len(self.text@),
                0 < columns <= usize::MAX,
                0 <= start.column < columns,
                byte == cluster_offset(parts, i as int),
                row == cell_after(start, parts, i as int, columns as int).row,
                column == cell_after(start, parts, i as int, columns as int).column,
                column < columns,
                row <= prefix_width + 2 * i,
                positions.len() == stops_before(
                    parts,
                    self@.tokens,
                    start,
                    columns as int,
                    i as int,
                ).len(),
                forall|j: int|
                    0 <= j < positions.len() ==> stop_of(#[trigger] positions@[j]) == stops_before(
                        parts,
                        self@.tokens,
                        start,
                        columns as int,
                        i as int,
                    )[j] && positions@[j].1 <= 4 * usize::MAX,
            decreases clusters.len() - i,
        {
            if self.is_cursor_stop(byte) {
                positions.push((byte, row, column));
            }
            let cluster = clusters[i].as_str();
            let length: usize = text_len(cluster);
            proof {
                assert(parts.take(i + 1).drop_last() =~= parts.take(i as int));
                assert(parts[i as int] == cluster@);
                lemma_byte_len_concat(concat(parts.take(i as int)), cluster@);
                lemma_concat_split(parts, i + 1);
                reveal_strlit("\n");
                assert("\n"@ =~= seq!['\n']);
            }
            byte = byte + length;
            if same_text(cluster, "\n") {
                row = row + 1;
                column = 0;
            } else {
                let taken: u128 = columns_of(cluster) as u128;
                if column > 0 && column + taken > columns {
                    row = row + 1;
                    column = 0;
                }
                column = column + taken;
                if column >= columns {
                    row = row + 1;
                    column = 0;
                }
            }
            i += 1;
        }
        if self.is_cursor_stop(byte) {
            positions.push((byte, row, column));
        }
        proof {
            lemma_stops(self.text@, parts, self@.tokens, start, columns as int, parts.len() as int + 1);
            assert forall|k: int| 0 <= k < positions.len() implies is_offset(
                self@.text,
                (#[trigger] positions@[k]).0 as int,
            ) && !inside_token(self@.tokens, positions@[k].0 as int) && positions@[k].2
                <= usize::MAX by {
                assert(stop_of(positions@[k]) == self@.cursor_stops(
                    width as nat,
                    prefix_width as nat,
                )[k]);
            }
        }
        positions
    }

    /// Moves the cursor by a number of visual rows, as near as possible to the
    /// column where the moves began. Tells whether there is such a row.
    pub fn move_vertical(&mut self, direction: isize, width: usize, prefix_width: usize) -> (moved:
        bool)
        requires
            old(self)@.wf(),
        ensures
            moved == (old(self)@.vertical_target(
                direction as int,
                width as nat,
                prefix_width as nat,
            ) is Some),
            final(self)@ == old(self)@.move_vertical(
                direction as int,
                width as nat,
                prefix_width as nat,
            ),
            final(self)@.wf(),
    {
        let positions = self.visual_cursor_positions(width, prefix_width);
        let ghost stops = self@.cursor_stops(width as nat, prefix_width as nat);
        let mut i: usize = 0;
        assert(stops.skip(0) =~= stops);
        while i < positions.len() && positions[i].0 != self.cursor
            invariant
                i <= positions.len() == stops.len(),
                forall|j: int|
                    0 <= j < positions.len() ==> stop_of(#[trigger] positions@[j]) == stops[j],
                stop_at(stops.skip(i as int), self@.cursor) == stop_at(stops, self@.cursor),
            decreases positions.len() - i,
        {
            assert(stop_of(positions@[i as int]) == stops.skip(i as int)[0]);
            assert(stops.skip(i as int).drop_first() =~= stops.skip(i + 1));
            i += 1;
        }
        if i == positions.len() {
            return false;
        }
        assert(stop_of(positions@[i as int]) == stops.skip(i as int)[0]);
        let current = positions[i];
        let target_row: i128 = current.1 as i128 + direction as i128;
        let column: usize = match self.vertical_column {
            Some(column) => column,
            None => current.2 as usize,
        };
        let mut best: Option<usize> = None;
        let mut k: usize = 0;
        assert(stops.take(0) =~= seq![]);
        while k < positions.len()
            invariant
                k <= positions.len() == stops.len(),
                forall|j: int|
                    0 <= j < positions.len() ==> stop_of(#[trigger] positions@[j]) == stops[j]
                        && positions@[j].1 <= 4 * usize::MAX && positions@[j].2 <= usize::MAX,
                match best {
                    Some(b) => b < k && nearest_stop(
                        stops.take(k as int),
                        target_row as int,
                        column as int,
                    ) == Some(stops[b as int]),
                    None => nearest_stop(stops.take(k as int), target_row as int, column as int)
                        is None,
                },
            decreases positions.len() - k,
        {
            proof {
                assert(stops.take(k + 1).drop_last() =~= stops.take(k as int));
                assert(stops.take(k + 1).last() == stop_of(positions@[k as int]));
            }
            if positions[k].1 as i128 == target_row {
                match best {
                    Some(b) => {
                        assert(stop_of(positions@[b as int]) == stops[b as int]);
                        if distance(positions[k].2, column) < distance(positions[b].2, column) {
                            best = Some(k);
                        }
                    },
                    None => {
                        best = Some(k);
                    },
                }
            }
            k += 1;
        }
        assert(stops.take(stops.len() as int) =~= stops);
        match best {
            Some(b) => {
                assert(stop_of(positions@[b as int]) == stops[b as int]);
                self.cursor = positions[b].0;
                self.vertical_column = Some(column);
                true
            },
            None => false,
        }
    }

    /// The prompt that the composer stands for: the text without the labels of
    /// images, and with every collapsed paste written out.
    pub fn prompt_text(&self) -> (text: String)
        requires
            self@.wf(),
        ensures
            text@ == self@.prompt_text(),
    {
        let mut text = String::new();
        let mut position: usize = 0;
        let mut i: usize = 0;
        let ghost tokens = self@.tokens;
        proof {
            lemma_offset_ends(self@.text);
            assert(tokens.skip(0) =~= tokens);
            assert(text@ + self@.prompt_text() =~= self@.prompt_text());
        }
        while i < self.tokens.len()
            invariant
                i <= self.tokens.len(),
                self@.wf(),
                tokens == self@.tokens,
                text@ + prompt_from(self@.text, position as int, tokens.skip(i as int))
                    == self@.prompt_text(),
                i == 0 ==> position == 0,
                i > 0 ==> position == tokens[i - 1].end,
                is_offset(self@.text, position as int),
            decreases self.tokens.len() - i,
        {
            let token = &self.tokens[i];
            let ghost before = text@;
            proof {
                assert(self@.tokens[i as int] == token@);
                lemma_is_offset(self@.text, token.start as int);
                if i > 0 {
                    assert(self@.tokens[i - 1].end <= self@.tokens[i as int].start);
                }
                assert(tokens.skip(i as int)[0] == token@);
                assert(tokens.skip(i as int).drop_first() =~= tokens.skip(i + 1));
            }
            let plain = slice_text(self.text.as_str(), position, token.start);
            text.append(plain.as_str());
            match &token.kind {
                ComposerTokenKind::Image(_) => {},
                ComposerTokenKind::PastedText(value) => {
                    text.append(value.as_str());
                },
                ComposerTokenKind::Skill(_) => {
                    let label = slice_text(self.text.as_str(), token.start, token.end);
                    text.append(label.as_str());
                },
            }
            proof {
                let piece = token_prompt(self@.text, token@);
                let rest = prompt_from(self@.text, token.end as int, tokens.skip(i + 1));
                assert(text@ =~= before + plain@ + piece);
                assert(text@ + rest =~= before + (plain@ + piece + rest));
            }
            position = token.end;
            i += 1;
        }
        let rest = split_text(self.text.as_str(), position).1;
        text.append(rest);
        text
    }

    /// Empties the composer; its target stays.
    pub fn reset(&mut self)
        ensures
            final(self)@ == ComposerView::empty(old(self)@.target),
            final(self)@.wf(),
    {
        self.text = String::new();
        self.cursor = 0;
        self.images = Vec::new();
        self.skills = Vec::new();
        self.tokens = Vec::new();
        self.next_image_number = 1;
        self.next_paste_number = 1;
        self.vertical_column = None;
        proof {
            lemma_offset_ends(self@.text);
            assert(self@.images =~= seq![]);
            assert(self@.tokens.len() == 0);
        }
    }

    /// Empties the composer and attaches its images again.
    pub fn clear_text_keep_images(&mut self)
        ensures
            final(self)@ == ComposerView::empty(old(self)@.target).attach_images(old(self)@.images),
            final(self)@.wf(),
    {
        let images = copy_texts(&self.images);
        let ghost all = texts(images@);
        self.reset();
        let ghost fresh = self@;
        let mut i: usize = 0;
        assert(all.take(0) =~= seq![]);
        while i < images.len()
            invariant
                i <= images.len(),
                all == texts(images@),
                self@ == fresh.attach_images(all.take(i as int)),
                self@.wf(),
            decreases images.len() - i,
        {
            proof {
                assert(all.take(i + 1).drop_last() =~= all.take(i as int));
                assert(all.take(i + 1).last() == images@[i as int]@);
            }
            self.attach_image(images[i].clone());
            i += 1;
        }
        assert(all.take(all.len() as int) =~= all);
    }

    /// Puts a token over the plain text from `start` to the cursor.
    fn place_token(&mut self, start: usize, label: &str, kind: ComposerTokenKind)
        requires
            old(self)@.wf(),
            is_offset(old(self)@.text, start as int),
            start <= old(self).cursor,
            range_is_plain(old(self)@.tokens, start as int, old(self)@.cursor),
            label@.len() > 0,
        ensures
            final(self)@ == old(self)@.place_token(start as int, label@, kind@),
            final(self)@.wf(),
    {
        let ghost before = self@;
        proof {
            lemma_place_token_wf(before, start as int, label@, kind@);
            lemma_byte_len_bounds(label@);
        }
        let cursor: usize = self.cursor;
        self.replace_plain_range(start, cursor, label);
        let end: usize = self.cursor;
        let token = ComposerToken { start, style_end: end - 1, end, kind };
        let ghost tokens = self@.tokens;
        let mut slot: usize = 0;
        assert(tokens.skip(0) =~= tokens);
        while slot < self.tokens.len() && self.tokens[slot].start < start
            invariant
                slot <= self.tokens.len(),
                tokens == self@.tokens,
                token_slot(tokens, start as int) == slot + token_slot(
                    tokens.skip(slot as int),
                    start as int,
                ),
            decreases self.tokens.len() - slot,
        {
            assert(tokens.skip(slot as int)[0] == self.tokens@[slot as int]@);
            assert(tokens.skip(slot as int).drop_first() =~= tokens.skip(slot + 1));
            slot += 1;
        }
        proof {
            if slot < self.tokens.len() {
                assert(tokens.skip(slot as int)[0] == self.tokens@[slot as int]@);
            }
        }
        self.tokens.insert(slot, token);
    }

    /// Attaches an image at the cursor; one that is attached already stays as it
    /// is. Tells whether the image is new.
    pub fn attach_image(&mut self, path: String) -> (added: bool)
        requires
            old(self)@.wf(),
        ensures
            added == !has_image(old(self)@.images, path@),
            final(self)@ == old(self)@.attach_image(path@),
            final(self)@.wf(),
    {
        if self.has_image(path.as_str()) {
            return false;
        }
        let label = image_label_text(self.next_image_number);
        let start: usize = self.cursor;
        self.next_image_number = self.next_image_number.saturating_add(1);
        let kind = ComposerTokenKind::Image(path.clone());
        self.place_token(start, label.as_str(), kind);
        proof {
            lemma_texts_push(self.images@, path);
        }
        self.images.push(path);
        true
    }

    /// Puts a collapsed paste at the cursor. Tells whether there was any text.
    pub fn attach_pasted_text(&mut self, text: String) -> (added: bool)
        requires
            old(self)@.wf(),
        ensures
            added == (text@.len() > 0),
            final(self)@ == old(self)@.attach_pasted_text(text@),
            final(self)@.wf(),
    {
        if text_is_empty(text.as_str()) {
            return false;
        }
        let label = paste_label_text(self.next_paste_number, text.as_str());
        let start: usize = self.cursor;
        self.next_paste_number = self.next_paste_number.saturating_add(1);
        self.place_token(start, label.as_str(), ComposerTokenKind::PastedText(text));
        true
    }

    /// Puts a skill in place of the plain text from `start` to the cursor.
    pub fn replace_with_skill(&mut self, start: usize, skill: SkillReference)
        requires
            old(self)@.wf(),
            start <= old(self).cursor ==> is_offset(old(self)@.text, start as int)
                && range_is_plain(old(self)@.tokens, start as int, old(self)@.cursor),
        ensures
            final(self)@ == old(self)@.replace_with_skill(start as int, skill@),
            final(self)@.wf(),
    {
        self.vertical_column = None;
        if start > self.cursor {
            return;
        }
        let mut label = "$".to_owned();
        label.append(skill.name.as_str());
        label.append(" ");
        proof {
            reveal_strlit("$");
        }
        let mut known = false;
        let mut i: usize = 0;
        while i < self.skills.len()
            invariant
                i <= self.skills.len(),
                known == exists|j: int|
                    0 <= j < i && (#[trigger] self@.skills[j]).path == skill@.path,
            decreases self.skills.len() - i,
        {
            assert(self@.skills[i as int] == self.skills@[i as int]@);
            if same_text(self.skills[i].path.as_str(), skill.path.as_str()) {
                known = true;
            }
            i += 1;
        }
        assert(known == has_skill(self@.skills, skill@.path));
        let ghost named = skill@;
        if !known {
            self.skills.push(skill.clone());
        }
        assert(self@ == (ComposerView {
            skills: if has_skill(old(self)@.skills, named.path) {
                old(self)@.skills
            } else {
                old(self)@.skills.push(named)
            },
            ..old(self)@.at(old(self)@.cursor)
        }));
        assert(label@ == skill_label(named.name));
        self.place_token(start, label.as_str(), ComposerTokenKind::Skill(skill));
    }

    /// Replaces the plain text from `start` to the cursor.
    pub fn replace_plain_text_before_cursor(&mut self, start: usize, replacement: &str)
        requires
            old(self)@.wf(),
            start <= old(self).cursor ==> is_offset(old(self)@.text, start as int)
                && range_is_plain(old(self)@.tokens, start as int, old(self)@.cursor),
        ensures
            final(self)@ == (if start <= old(self)@.cursor {
                old(self)@.splice(start as int, old(self)@.cursor, replacement@)
            } else {
                old(self)@.at(old(self)@.cursor)
            }),
            final(self)@.wf(),
    {
        self.vertical_column = None;
        if start > self.cursor {
            return;
        }
        let cursor: usize = self.cursor;
        self.replace_plain_range(start, cursor, replacement);
    }
}

/// A position of the cursor in its mathematical form.
pub open spec fn stop_of(position: (usize, u128, u128)) -> CursorStop {
    CursorStop { byte: position.0 as int, row: position.1 as int, column: position.2 as int }
}

fn distance(column: u128, wanted: usize) -> (distance: u128)
    requires
        column <= usize::MAX,
    ensures
        distance == column_distance(
            CursorStop { byte: 0, row: 0, column: column as int },
            wanted as int,
        ),
{
    if column < wanted as u128 {
        wanted as u128 - column
    } else {
        column - wanted as u128
    }
}

fn image_label_text(number: usize) -> (label: String)
    ensures
        label@ == image_label(number as nat),
        label@.len() > 0,
{
    let digits = decimal_text(number as u64);
    let mut label = "[Image #".to_owned();
    label.append(digits.as_str());
    label.append("] ");
    proof {
        reveal_strlit("[Image #");
    }
    label
}

fn paste_label_text(number: usize, text: &str) -> (label: String)
    ensures
        label@ == paste_label(number as nat, text@),
        label@.len() > 0,
{
    let lines = split_text_on(text, '\n');
    let detail = if lines.len() > 1 {
        concat_text(decimal_text(lines.len() as u64).as_str(), " lines")
    } else {
        concat_text(decimal_text(chars_of(text).len() as u64).as_str(), " chars")
    };
    let digits = decimal_text(number as u64);
    let mut label = "[Pasted text #".to_owned();
    label.append(digits.as_str());
    label.append(" +");
    label.append(detail.as_str());
    label.append("] ");
    proof {
        reveal_strlit("[Pasted text #");
    }
    label
}

} // verus!
