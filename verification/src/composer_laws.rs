//! What holds of the composer's operations together.

use vstd::prelude::*;

use crate::composer::{
    ComposerView, has_image, has_image_token, image_label, last_end_before, lemma_place_token_wf,
    lemma_shift_kinds, lemma_token_ending_at, lemma_token_slot, lemma_token_starting_at,
    paste_label, prompt_from, shift_tokens, token_ending_at, token_prompt, token_slot,
    token_starting_at, TokenKindView, tokens_fit, TokenView, without_image,
};
use crate::paths::same_path;
use crate::segmentation::grapheme_clusters;
use crate::skills::Skill;
use crate::text::{
    byte_len, head, is_offset, lemma_byte_len_bounds, lemma_byte_len_concat, lemma_index_at,
    lemma_is_offset, lemma_offset_concat, lemma_offset_ends, lemma_offset_split, lemma_three_parts,
    slice, tail,
};

verus! {

/// All tokens moved by a distance.
pub open spec fn move_tokens(tokens: Seq<TokenView>, by: int) -> Seq<TokenView> {
    Seq::new(
        tokens.len(),
        |i: int|
            TokenView {
                start: tokens[i].start + by,
                style_end: tokens[i].style_end + by,
                end: tokens[i].end + by,
                kind: tokens[i].kind,
            },
    )
}

proof fn lemma_fit_rest(text: Seq<char>, tokens: Seq<TokenView>)
    requires
        tokens_fit(text, tokens),
        tokens.len() > 0,
    ensures
        tokens_fit(text, tokens.drop_first()),
        forall|i: int|
            0 <= i < tokens.drop_first().len() ==> tokens[0].end <= (
            #[trigger] tokens.drop_first()[i]).start,
        is_offset(text, tokens[0].start),
        is_offset(text, tokens[0].end),
        tokens[0].start < tokens[0].end,
{
    let rest = tokens.drop_first();
    assert forall|i: int| 0 <= i < rest.len() implies #[trigger] rest[i] == tokens[i + 1] by {}
}

proof fn lemma_slice_behind(a: Seq<char>, b: Seq<char>, start: int, end: int)
    requires
        is_offset(b, start),
        is_offset(b, end),
        start <= end,
    ensures
        slice(a + b, byte_len(a) + start, byte_len(a) + end) == slice(b, start, end),
{
    lemma_offset_concat(a, b, start);
    lemma_offset_concat(a, b, end);
    lemma_three_parts(b, start, end);
    assert(slice(a + b, byte_len(a) + start, byte_len(a) + end) =~= slice(b, start, end));
}

proof fn lemma_slice_before(a: Seq<char>, b: Seq<char>, start: int, end: int)
    requires
        is_offset(a, start),
        is_offset(a, end),
        start <= end,
    ensures
        slice(a + b, start, end) == slice(a, start, end),
{
    lemma_offset_concat(a, b, start);
    lemma_offset_concat(a, b, end);
    lemma_three_parts(a, start, end);
    assert(slice(a + b, start, end) =~= slice(a, start, end));
}

/// Text in front of a position does not matter to the prompt from there on.
proof fn lemma_prompt_behind(a: Seq<char>, b: Seq<char>, position: int, tokens: Seq<TokenView>)
    requires
        is_offset(b, position),
        tokens_fit(b, tokens),
        forall|i: int| 0 <= i < tokens.len() ==> position <= (#[trigger] tokens[i]).start,
    ensures
        prompt_from(a + b, byte_len(a) + position, move_tokens(tokens, byte_len(a) as int))
            == prompt_from(b, position, tokens),
    decreases tokens.len(),
{
    let n = byte_len(a) as int;
    let moved = move_tokens(tokens, n);
    if tokens.len() == 0 {
        lemma_offset_concat(a, b, position);
    } else {
        lemma_fit_rest(b, tokens);
        lemma_slice_behind(a, b, position, tokens[0].start);
        lemma_slice_behind(a, b, tokens[0].start, tokens[0].end);
        lemma_prompt_behind(a, b, tokens[0].end, tokens.drop_first());
        assert(moved.drop_first() =~= move_tokens(tokens.drop_first(), n));
        assert(moved[0].kind == tokens[0].kind);
    }
}

/// The prompt of two texts with their tokens, one after the other, is the prompt
/// of the first and the prompt of the second.
proof fn lemma_prompt_concat(
    a: Seq<char>,
    b: Seq<char>,
    position: int,
    first: Seq<TokenView>,
    second: Seq<TokenView>,
)
    requires
        is_offset(a, position),
        tokens_fit(a, first),
        tokens_fit(b, second),
        forall|i: int| 0 <= i < first.len() ==> position <= (#[trigger] first[i]).start,
    ensures
        prompt_from(a + b, position, first + move_tokens(second, byte_len(a) as int))
            == prompt_from(a, position, first) + prompt_from(b, 0, second),
    decreases first.len(),
{
    let n = byte_len(a) as int;
    let moved = move_tokens(second, n);
    let all = first + moved;
    lemma_offset_ends(a);
    lemma_offset_ends(b);
    lemma_is_offset(a, position);
    lemma_index_at(b, 0);
    if first.len() == 0 {
        assert(all =~= moved);
        lemma_offset_concat(a, b, position);
        if second.len() == 0 {
            assert(b.skip(0) =~= b);
        } else {
            lemma_fit_rest(b, second);
            let token = second[0];
            lemma_is_offset(b, token.start);
            lemma_offset_concat(a, b, token.start);
            lemma_slice_behind(a, b, token.start, token.end);
            lemma_prompt_behind(a, b, token.end, second.drop_first());
            assert(moved.drop_first() =~= move_tokens(second.drop_first(), n));
            assert(moved[0].kind == token.kind);
            lemma_three_parts(b, 0, token.start);
            assert(slice(a + b, position, n + token.start) =~= tail(a, position) + slice(
                b,
                0,
                token.start,
            ));
            let x = tail(a, position);
            let y = slice(b, 0, token.start);
            let z = token_prompt(b, token);
            let w = prompt_from(b, token.end, second.drop_first());
            assert((x + y) + z + w =~= x + (y + z + w));
        }
    } else {
        lemma_fit_rest(a, first);
        let token = first[0];
        lemma_slice_before(a, b, position, token.start);
        lemma_slice_before(a, b, token.start, token.end);
        lemma_prompt_concat(a, b, token.end, first.drop_first(), second);
        assert(all.drop_first() =~= first.drop_first() + moved);
        assert(all[0] == token);
        let x = slice(a, position, token.start);
        let y = token_prompt(a, token);
        let z = prompt_from(a, token.end, first.drop_first());
        let w = prompt_from(b, 0, second);
        assert(x + y + (z + w) =~= (x + y + z) + w);
    }
}

/// The tokens in front of the cursor.
pub open spec fn tokens_before(c: ComposerView) -> Seq<TokenView> {
    c.tokens.take(token_slot(c.tokens, c.cursor))
}

/// The tokens behind the cursor, counted from it.
pub open spec fn tokens_behind(c: ComposerView) -> Seq<TokenView> {
    move_tokens(c.tokens.skip(token_slot(c.tokens, c.cursor)), -c.cursor)
}

/// The cursor parts the tokens into those of the text before it and those of the
/// text behind it.
pub proof fn lemma_tokens_parted(c: ComposerView)
    requires
        c.wf(),
    ensures
        tokens_fit(head(c.text, c.cursor), tokens_before(c)),
        tokens_fit(tail(c.text, c.cursor), tokens_behind(c)),
        c.tokens == tokens_before(c) + move_tokens(tokens_behind(c), c.cursor),
        byte_len(head(c.text, c.cursor)) == c.cursor,
        c.text == head(c.text, c.cursor) + tail(c.text, c.cursor),
        forall|t: Seq<char>| #[trigger]
            shift_tokens(c.tokens, c.cursor, byte_len(t) as int) == tokens_before(c) + move_tokens(
                move_tokens(tokens_behind(c), byte_len(t) as int),
                c.cursor,
            ),
{
    let a = head(c.text, c.cursor);
    let b = tail(c.text, c.cursor);
    let slot = token_slot(c.tokens, c.cursor);
    lemma_is_offset(c.text, c.cursor);
    lemma_token_slot(c.tokens, c.cursor);
    let before = tokens_before(c);
    let behind = tokens_behind(c);
    assert forall|i: int| slot <= i < c.tokens.len() implies (#[trigger] c.tokens[i]).start
        >= c.cursor by {
        if i > slot {
            assert(c.tokens[slot].end <= c.tokens[i].start);
        }
    }
    assert forall|i: int| 0 <= i < before.len() implies {
        &&& is_offset(a, (#[trigger] before[i]).start)
        &&& is_offset(a, before[i].end)
        &&& before[i] == c.tokens[i]
    } by {
        assert(!(c.tokens[i].start < c.cursor && c.cursor < c.tokens[i].end));
        lemma_offset_split(a, b, c.tokens[i].start);
        lemma_offset_split(a, b, c.tokens[i].end);
    }
    assert forall|i: int| 0 <= i < behind.len() implies {
        &&& is_offset(b, (#[trigger] behind[i]).start)
        &&& is_offset(b, behind[i].end)
        &&& behind[i].start == c.tokens[slot + i].start - c.cursor
        &&& behind[i].end == c.tokens[slot + i].end - c.cursor
        &&& behind[i].style_end == c.tokens[slot + i].style_end - c.cursor
    } by {
        lemma_offset_split(a, b, c.tokens[slot + i].start);
        lemma_offset_split(a, b, c.tokens[slot + i].end);
    }
    assert forall|i: int, j: int| 0 <= i < j < behind.len() implies (#[trigger] behind[i]).end <= (
    #[trigger] behind[j]).start by {
        assert(c.tokens[slot + i].end <= c.tokens[slot + j].start);
    }
    assert(c.tokens =~= before + move_tokens(behind, c.cursor));
    assert forall|t: Seq<char>| #[trigger]
        shift_tokens(c.tokens, c.cursor, byte_len(t) as int) == before + move_tokens(
            move_tokens(behind, byte_len(t) as int),
            c.cursor,
        ) by {
        assert(shift_tokens(c.tokens, c.cursor, byte_len(t) as int) =~= before + move_tokens(
            move_tokens(behind, byte_len(t) as int),
            c.cursor,
        ));
    }
}

proof fn lemma_moved_fit(a: Seq<char>, b: Seq<char>, tokens: Seq<TokenView>)
    requires
        tokens_fit(b, tokens),
    ensures
        tokens_fit(a + b, move_tokens(tokens, byte_len(a) as int)),
{
    let moved = move_tokens(tokens, byte_len(a) as int);
    assert forall|i: int| 0 <= i < moved.len() implies {
        &&& is_offset(a + b, (#[trigger] moved[i]).start)
        &&& is_offset(a + b, moved[i].end)
        &&& moved[i].start <= moved[i].style_end <= moved[i].end
        &&& moved[i].start < moved[i].end
    } by {
        let t = tokens[i];
        lemma_offset_concat(a, b, t.start);
        lemma_offset_concat(a, b, t.end);
    }
    assert forall|i: int, j: int| 0 <= i < j < moved.len() implies (#[trigger] moved[i]).end <= (
    #[trigger] moved[j]).start by {
        assert(tokens[i].end <= tokens[j].start);
    }
}

/// What is typed at the cursor appears in the prompt where the cursor stands: the
/// prompt is what comes from the text before the cursor, the typed text, and
/// what comes from the text behind it.
pub proof fn law_typed_text_is_in_the_prompt(c: ComposerView, text: Seq<char>)
    requires
        c.wf(),
    ensures
        c.prompt_text() == prompt_from(head(c.text, c.cursor), 0, tokens_before(c)) + prompt_from(
            tail(c.text, c.cursor),
            0,
            tokens_behind(c),
        ),
        c.insert(text).prompt_text() == prompt_from(head(c.text, c.cursor), 0, tokens_before(c))
            + text + prompt_from(tail(c.text, c.cursor), 0, tokens_behind(c)),
{
    let a = head(c.text, c.cursor);
    let b = tail(c.text, c.cursor);
    lemma_tokens_parted(c);
    lemma_offset_ends(a);
    lemma_offset_ends(text);
    lemma_tokens_start(a, tokens_before(c));
    lemma_prompt_concat(a, b, 0, tokens_before(c), tokens_behind(c));
    let moved = move_tokens(tokens_behind(c), byte_len(text) as int);
    lemma_moved_fit(text, b, tokens_behind(c));
    lemma_prompt_concat(a, text + b, 0, tokens_before(c), moved);
    let none = Seq::<TokenView>::empty();
    assert(tokens_fit(text, none));
    lemma_prompt_concat(text, b, 0, none, tokens_behind(c));
    assert(none + moved =~= moved);
    lemma_index_at(text, 0);
    assert(text.skip(0) =~= text);
    assert(a + text + b =~= a + (text + b));
    let x = prompt_from(a, 0, tokens_before(c));
    let y = prompt_from(b, 0, tokens_behind(c));
    assert(x + (text + y) =~= x + text + y);
    assert(c.insert(text).tokens == shift_tokens(c.tokens, c.cursor, byte_len(text) as int));
}

proof fn lemma_tokens_start(text: Seq<char>, tokens: Seq<TokenView>)
    requires
        tokens_fit(text, tokens),
    ensures
        forall|i: int| 0 <= i < tokens.len() ==> 0 <= (#[trigger] tokens[i]).start,
{
    assert forall|i: int| 0 <= i < tokens.len() implies 0 <= (#[trigger] tokens[i]).start by {
        lemma_is_offset(text, tokens[i].start);
    }
}

/// The prompt with a token placed at the cursor: what the token stands for
/// appears where the cursor stands.
proof fn lemma_token_prompt(c: ComposerView, label: Seq<char>, kind: TokenKindView)
    requires
        c.wf(),
        label.len() > 0,
        !(kind is Skill),
    ensures
        c.place_token(c.cursor, label, kind).prompt_text() == prompt_from(
            head(c.text, c.cursor),
            0,
            tokens_before(c),
        ) + token_prompt(
            label,
            TokenView { start: 0, style_end: 0, end: byte_len(label) as int, kind },
        ) + prompt_from(tail(c.text, c.cursor), 0, tokens_behind(c)),
{
    let a = head(c.text, c.cursor);
    let b = tail(c.text, c.cursor);
    let n = byte_len(label) as int;
    let p = c.place_token(c.cursor, label, kind);
    let spliced = c.splice(c.cursor, c.cursor, label);
    let slot = token_slot(c.tokens, c.cursor);
    lemma_tokens_parted(c);
    lemma_byte_len_bounds(label);
    lemma_offset_ends(a);
    lemma_offset_ends(label);
    lemma_tokens_start(a, tokens_before(c));
    lemma_token_slot(c.tokens, c.cursor);
    lemma_token_slot(spliced.tokens, c.cursor);
    assert(spliced.tokens == shift_tokens(c.tokens, c.cursor, n));
    assert forall|i: int| 0 <= i < c.tokens.len() implies ((#[trigger] spliced.tokens[i]).start
        < c.cursor <==> c.tokens[i].start < c.cursor) by {}
    assert(token_slot(spliced.tokens, c.cursor) == slot) by {
        let s = token_slot(spliced.tokens, c.cursor);
        if s < slot {
            assert(c.tokens[s].start < c.cursor);
            assert(spliced.tokens[s].start < c.cursor);
        } else if slot < s {
            assert(spliced.tokens[slot].start < c.cursor);
            assert(c.tokens[slot].start < c.cursor);
        }
    }
    let own = TokenView { start: 0, style_end: n - 1, end: n, kind };
    let behind = seq![own] + move_tokens(tokens_behind(c), n);
    lemma_moved_fit(label, b, tokens_behind(c));
    assert(tokens_fit(label + b, behind)) by {
        lemma_offset_concat(label, b, 0);
        lemma_offset_concat(label, b, n);
        let moved = move_tokens(tokens_behind(c), n);
        lemma_tokens_start(b, tokens_behind(c));
        assert forall|i: int| 0 < i < behind.len() implies #[trigger] behind[i] == moved[i - 1] by {}
        assert forall|i: int, j: int| 0 <= i < j < behind.len() implies (#[trigger] behind[i]).end
            <= (#[trigger] behind[j]).start by {
            if i > 0 {
                assert(moved[i - 1].end <= moved[j - 1].start);
            } else {
                assert(moved[j - 1].start == tokens_behind(c)[j - 1].start + n);
            }
        }
    }
    assert(p.tokens =~= tokens_before(c) + move_tokens(behind, c.cursor));
    assert(a + label + b =~= a + (label + b));
    lemma_prompt_concat(a, label + b, 0, tokens_before(c), behind);
    assert(behind.drop_first() =~= move_tokens(tokens_behind(c), n));
    lemma_tokens_start(b, tokens_behind(c));
    lemma_offset_ends(b);
    lemma_prompt_behind(label, b, 0, tokens_behind(c));
    lemma_offset_concat(label, b, 0);
    lemma_three_parts(label + b, 0, 0);
    assert(slice(label + b, 0, 0) =~= seq![]);
    let x = prompt_from(a, 0, tokens_before(c));
    let y = prompt_from(b, 0, tokens_behind(c));
    let t = token_prompt(label + b, own);
    assert(prompt_from(label + b, 0, behind) =~= t + y);
    assert(x + (t + y) =~= x + t + y);
}

/// The label of an attached image is no part of the prompt.
pub proof fn law_image_labels_are_not_in_the_prompt(c: ComposerView, path: Seq<char>)
    requires
        c.wf(),
    ensures
        c.attach_image(path).prompt_text() == c.prompt_text(),
{
    if !has_image(c.images, path) {
        let label = image_label(c.next_image_number);
        reveal_strlit("[Image #");
        lemma_token_prompt(c, label, TokenKindView::Image(path));
        law_typed_text_is_in_the_prompt(c, seq![]);
        let x = prompt_from(head(c.text, c.cursor), 0, tokens_before(c));
        assert(x + seq![] =~= x);
    }
}

/// A collapsed paste stands in the prompt as if it had been typed.
pub proof fn law_pasted_text_is_written_out_in_the_prompt(c: ComposerView, text: Seq<char>)
    requires
        c.wf(),
        text.len() > 0,
    ensures
        c.attach_pasted_text(text).prompt_text() == c.insert(text).prompt_text(),
{
    let label = paste_label(c.next_paste_number, text);
    reveal_strlit("[Pasted text #");
    lemma_token_prompt(c, label, TokenKindView::PastedText(text));
    law_typed_text_is_in_the_prompt(c, text);
}

/// The token that was placed last ends at the cursor, and it is found there.
proof fn lemma_placed_token(c: ComposerView, label: Seq<char>, kind: TokenKindView)
    requires
        c.wf(),
        label.len() > 0,
    ensures
        ({
            let p = c.place_token(c.cursor, label, kind);
            let slot = token_slot(p.tokens, c.cursor);
            &&& 0 <= slot < p.tokens.len()
            &&& p.tokens[slot].start == c.cursor
            &&& p.tokens[slot].end == p.cursor
            &&& p.tokens[slot].kind == kind
            &&& token_ending_at(p.tokens, p.cursor) == Some(slot)
            &&& token_starting_at(p.tokens, c.cursor) == Some(slot)
            &&& p.tokens.remove(slot) == shift_tokens(c.tokens, c.cursor, byte_len(label) as int)
            &&& p.text == head(c.text, c.cursor) + label + tail(c.text, c.cursor)
            &&& p.cursor == c.cursor + byte_len(label)
            &&& p.cursor > c.cursor
        }),
{
    lemma_byte_len_bounds(label);
    lemma_place_token_wf(c, c.cursor, label, kind);
    let spliced = c.splice(c.cursor, c.cursor, label);
    let p = c.place_token(c.cursor, label, kind);
    let slot = token_slot(spliced.tokens, c.cursor);
    lemma_token_slot(spliced.tokens, c.cursor);
    lemma_token_slot(p.tokens, c.cursor);
    assert(p.tokens[slot].start == c.cursor);
    assert(token_slot(p.tokens, c.cursor) == slot) by {
        let s = token_slot(p.tokens, c.cursor);
        if s < slot {
            assert(p.tokens[s] == spliced.tokens[s]);
        }
    }
    assert(p.tokens.remove(slot) =~= spliced.tokens);
    lemma_token_ending_at(p.tokens, p.cursor);
    lemma_token_starting_at(p.tokens, c.cursor);
    assert(p.tokens[slot].end == p.cursor);
    if let Some(i) = token_ending_at(p.tokens, p.cursor) {
        if i < slot {
            assert(p.tokens[i].end <= p.tokens[slot].start);
        } else if slot < i {
            assert(p.tokens[slot].end <= p.tokens[i].start);
        }
    }
    if let Some(i) = token_starting_at(p.tokens, c.cursor) {
        if i < slot {
            assert(p.tokens[i].end <= p.tokens[slot].start);
        } else if slot < i {
            assert(p.tokens[slot].end <= p.tokens[i].start);
        }
    }
}

proof fn lemma_without_absent(images: Seq<Seq<char>>, path: Seq<char>)
    requires
        !has_image(images, path),
    ensures
        without_image(images.push(path), path) == images,
{
    assert(images.push(path).drop_last() =~= images);
    lemma_without_kept(images, path);
}

proof fn lemma_without_kept(images: Seq<Seq<char>>, path: Seq<char>)
    requires
        !has_image(images, path),
    ensures
        without_image(images, path) == images,
    decreases images.len(),
{
    if images.len() > 0 {
        let front = images.drop_last();
        assert(images[images.len() - 1] == images.last());
        assert(!has_image(front, path)) by {
            if has_image(front, path) {
                let i = choose|i: int| 0 <= i < front.len() && same_path(#[trigger] front[i], path);
                assert(images[i] == front[i]);
            }
        }
        lemma_without_kept(front, path);
        assert(front.push(images.last()) =~= images);
    }
}

/// One backspace takes a new image away again: the text, the tokens, the images
/// and the cursor are what they were.
pub proof fn law_backspace_removes_an_attached_image(c: ComposerView, path: Seq<char>)
    requires
        c.wf(),
        !has_image(c.images, path),
        !has_image_token(c.tokens, path),
    ensures
        ({
            let back = c.attach_image(path).backspace();
            &&& back.text == c.text
            &&& back.tokens == c.tokens
            &&& back.images == c.images
            &&& back.skills == c.skills
            &&& back.cursor == c.cursor
        }),
{
    let label = image_label(c.next_image_number);
    reveal_strlit("[Image #");
    let kind = TokenKindView::Image(path);
    lemma_is_offset(c.text, c.cursor);
    lemma_placed_token(c, label, kind);
    lemma_restored(c, label, kind);
    lemma_shift_kinds(c.tokens, c.cursor, byte_len(label) as int);
    lemma_without_absent(c.images, path);
}

/// One backspace takes a collapsed paste away again.
pub proof fn law_backspace_removes_a_pasted_text(c: ComposerView, text: Seq<char>)
    requires
        c.wf(),
        text.len() > 0,
    ensures
        ({
            let back = c.attach_pasted_text(text).backspace();
            &&& back.text == c.text
            &&& back.tokens == c.tokens
            &&& back.images == c.images
            &&& back.skills == c.skills
            &&& back.cursor == c.cursor
        }),
{
    let label = paste_label(c.next_paste_number, text);
    reveal_strlit("[Pasted text #");
    let kind = TokenKindView::PastedText(text);
    lemma_is_offset(c.text, c.cursor);
    lemma_placed_token(c, label, kind);
    lemma_restored(c, label, kind);
}

/// Taking away what was inserted at the cursor restores the text and the tokens.
pub proof fn lemma_undone(c: ComposerView, text: Seq<char>)
    requires
        c.wf(),
        text.len() > 0,
    ensures
        ({
            let p = c.insert(text);
            let n = p.splice(c.cursor, p.cursor, seq![]);
            &&& head(p.text, p.cursor) == head(c.text, c.cursor) + text
            &&& p.cursor > c.cursor
            &&& n.text == c.text
            &&& n.tokens == c.tokens
            &&& n.cursor == c.cursor
        }),
{
    let a = head(c.text, c.cursor);
    let b = tail(c.text, c.cursor);
    let p = c.insert(text);
    lemma_byte_len_bounds(text);
    lemma_tokens_parted(c);
    lemma_offset_ends(a);
    lemma_byte_len_concat(a, text);
    lemma_offset_concat(a, text + b, c.cursor);
    assert(a + text + b =~= a + (text + b));
    lemma_offset_ends(a + text);
    lemma_offset_concat(a + text, b, p.cursor);
    lemma_index_at(a, a.len() as int);
    lemma_index_at(a + text, (a + text).len() as int);
    assert((a + text).take((a + text).len() as int) =~= a + text);
    assert((a + text).skip((a + text).len() as int) =~= seq![]);
    assert(a.take(a.len() as int) =~= a);
    assert(head(p.text, c.cursor) =~= a);
    assert(head(p.text, p.cursor) =~= a + text);
    assert(tail(p.text, p.cursor) =~= b);
    assert(a + seq![] + b =~= a + b);
    let by = byte_len(text) as int;
    let shifted = shift_tokens(c.tokens, c.cursor, by);
    assert(shift_tokens(shifted, p.cursor, -by) =~= c.tokens) by {
        assert forall|i: int| 0 <= i < c.tokens.len() implies #[trigger] shift_tokens(
            shifted,
            p.cursor,
            -by,
        )[i] == c.tokens[i] by {
            assert(!(c.tokens[i].start < c.cursor && c.cursor < c.tokens[i].end));
        }
    }
    assert(byte_len(Seq::<char>::empty()) == 0);
}

/// Taking a token away that was placed at the cursor restores the text and the
/// other tokens.
proof fn lemma_restored(c: ComposerView, label: Seq<char>, kind: TokenKindView)
    requires
        c.wf(),
        label.len() > 0,
    ensures
        ({
            let p = c.place_token(c.cursor, label, kind);
            let slot = token_slot(p.tokens, c.cursor);
            let rest = ComposerView { tokens: p.tokens.remove(slot), ..p };
            let n = rest.splice(c.cursor, p.cursor, seq![]);
            &&& n.text == c.text
            &&& n.tokens == c.tokens
            &&& n.cursor == c.cursor
        }),
{
    lemma_placed_token(c, label, kind);
    lemma_undone(c, label);
}

pub proof fn lemma_last_end(tokens: Seq<TokenView>, byte: int, limit: int)
    requires
        0 <= limit,
        forall|i: int|
            0 <= i < tokens.len() ==> (#[trigger] tokens[i]).end <= limit || tokens[i].end > byte,
    ensures
        last_end_before(tokens, byte) <= limit,
    decreases tokens.len(),
{
    if tokens.len() > 0 {
        let front = tokens.drop_last();
        assert forall|i: int| 0 <= i < front.len() implies (#[trigger] front[i]).end <= limit
            || front[i].end > byte by {
            assert(front[i] == tokens[i]);
        }
        lemma_last_end(front, byte, limit);
    }
}

/// One backspace takes a typed grapheme away again, where it does not join the text
/// before the cursor: the text, the tokens, the images, the skills and the cursor
/// are what they were.
pub proof fn law_backspace_removes_a_typed_grapheme(c: ComposerView, grapheme: Seq<char>)
    requires
        c.wf(),
        grapheme.len() > 0,
        grapheme_clusters(head(c.text, c.cursor) + grapheme) == grapheme_clusters(
            head(c.text, c.cursor),
        ).push(grapheme),
    ensures
        ({
            let back = c.insert(grapheme).backspace();
            &&& back.text == c.text
            &&& back.tokens == c.tokens
            &&& back.images == c.images
            &&& back.skills == c.skills
            &&& back.cursor == c.cursor
        }),
{
    let p = c.insert(grapheme);
    lemma_undone(c, grapheme);
    lemma_is_offset(c.text, c.cursor);
    lemma_token_ending_at(p.tokens, p.cursor);
    assert forall|i: int| 0 <= i < p.tokens.len() implies (#[trigger] p.tokens[i]).end <= c.cursor
        || p.tokens[i].end > p.cursor by {
        let token = c.tokens[i];
        assert(!(token.start < c.cursor && c.cursor < token.end));
    }
    lemma_last_end(p.tokens, p.cursor, c.cursor);
    assert(p.previous_stop() == c.cursor);
}

/// The arrow keys go over a token in one step, there and back.
pub proof fn law_arrows_jump_over_a_token(c: ComposerView, index: int)
    requires
        c.wf(),
        0 <= index < c.tokens.len(),
        c.tokens[index].end == c.cursor,
    ensures
        c.move_left().cursor == c.tokens[index].start,
        c.move_left().move_right() == c.at(c.cursor),
{
    lemma_token_ending_at(c.tokens, c.cursor);
    if let Some(i) = token_ending_at(c.tokens, c.cursor) {
        if i < index {
            assert(c.tokens[i].end <= c.tokens[index].start);
        } else if index < i {
            assert(c.tokens[index].end <= c.tokens[i].start);
        }
    }
    let start = c.tokens[index].start;
    lemma_token_starting_at(c.tokens, start);
    if let Some(i) = token_starting_at(c.tokens, start) {
        if i < index {
            assert(c.tokens[i].end <= c.tokens[index].start);
        } else if index < i {
            assert(c.tokens[index].end <= c.tokens[i].start);
        }
    }
    lemma_is_offset(c.text, c.tokens[index].end);
}

} // verus!
