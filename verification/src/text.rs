//! Text as a sequence of characters, with the byte offsets of its UTF-8 form.

use vstd::prelude::*;
use vstd::string::*;
use vstd::utf8::*;

verus! {

broadcast use {vstd::seq::group_seq_axioms, vstd::string::group_string_axioms};

/// `String::push` appends one character to the text.
pub assume_specification[ String::push ](text: &mut String, ch: char)
    ensures
        final(text)@ == old(text)@.push(ch),
;

/// The number of bytes that one character takes in UTF-8.
pub open spec fn utf8_len(c: char) -> nat {
    if c as u32 <= 0x7F {
        1
    } else if c as u32 <= 0x7FF {
        2
    } else if c as u32 <= 0xFFFF {
        3
    } else {
        4
    }
}

/// The number of bytes that a text takes in UTF-8.
pub open spec fn byte_len(s: Seq<char>) -> nat
    decreases s.len(),
{
    if s.len() == 0 {
        0
    } else {
        byte_len(s.drop_last()) + utf8_len(s.last())
    }
}

pub proof fn lemma_byte_len_push(s: Seq<char>, c: char)
    ensures
        byte_len(s.push(c)) == byte_len(s) + utf8_len(c),
{
    assert(s.push(c).drop_last() =~= s);
}

pub proof fn lemma_byte_len_concat(a: Seq<char>, b: Seq<char>)
    ensures
        byte_len(a + b) == byte_len(a) + byte_len(b),
    decreases b.len(),
{
    if b.len() == 0 {
        assert(a + b =~= a);
    } else {
        lemma_byte_len_concat(a, b.drop_last());
        assert((a + b).drop_last() =~= a + b.drop_last());
        assert((a + b).last() == b.last());
    }
}

/// A non-empty text takes at least one byte for each character.
pub proof fn lemma_byte_len_bounds(s: Seq<char>)
    ensures
        s.len() <= byte_len(s) <= 4 * s.len(),
    decreases s.len(),
{
    if s.len() > 0 {
        lemma_byte_len_bounds(s.drop_last());
    }
}

/// The encoded form of a text is as long as its byte length says.
pub proof fn lemma_encoded_len(s: Seq<char>)
    ensures
        encode_utf8(s).len() == byte_len(s),
    decreases s.len(),
{
    if s.len() > 0 {
        let rest = s.drop_first();
        lemma_encoded_len(rest);
        lemma_byte_len_concat(seq![s[0]], rest);
        assert(s =~= seq![s[0]] + rest);
        char_is_scalar(s[0]);
        lemma_byte_len_push(Seq::<char>::empty(), s[0]);
        assert(seq![s[0]] =~= Seq::<char>::empty().push(s[0]));
        assert(byte_len(seq![s[0]]) == utf8_len(s[0]));
    }
}

/// The bytes of a concatenation are the bytes of its parts.
pub proof fn lemma_encode_concat(a: Seq<char>, b: Seq<char>)
    ensures
        encode_utf8(a + b) == encode_utf8(a) + encode_utf8(b),
    decreases a.len(),
{
    if a.len() == 0 {
        assert(a + b =~= b);
        assert(encode_utf8(a) + encode_utf8(b) =~= encode_utf8(b));
    } else {
        lemma_encode_concat(a.drop_first(), b);
        assert((a + b).drop_first() =~= a.drop_first() + b);
        assert((a + b)[0] == a[0]);
        assert(encode_utf8(a + b) =~= encode_utf8(a) + encode_utf8(b));
    }
}

/// The byte offset at which the `i`-th character starts.
pub open spec fn offset_at(s: Seq<char>, i: int) -> nat {
    byte_len(s.take(i))
}

/// Whether `pos` is the byte offset of a character, or the end of the text.
#[verifier::opaque]
pub open spec fn is_offset(s: Seq<char>, pos: int) -> bool {
    exists|i: int| 0 <= i <= s.len() && #[trigger] offset_at(s, i) == pos
}

/// The number of characters before the byte offset `pos`.
pub open spec fn index_at(s: Seq<char>, pos: int) -> int {
    choose|i: int| 0 <= i <= s.len() && #[trigger] offset_at(s, i) == pos
}

/// The text before the byte offset `pos`.
pub open spec fn head(s: Seq<char>, pos: int) -> Seq<char> {
    s.take(index_at(s, pos))
}

/// The text from the byte offset `pos` on.
pub open spec fn tail(s: Seq<char>, pos: int) -> Seq<char> {
    s.skip(index_at(s, pos))
}

/// The text between two byte offsets.
pub open spec fn slice(s: Seq<char>, start: int, end: int) -> Seq<char> {
    s.subrange(index_at(s, start), index_at(s, end))
}

/// Offsets grow with the index.
pub proof fn lemma_offset_mono(s: Seq<char>, i: int, j: int)
    requires
        0 <= i <= j <= s.len(),
    ensures
        offset_at(s, i) <= offset_at(s, j),
        i < j ==> offset_at(s, i) < offset_at(s, j),
        offset_at(s, j) == offset_at(s, i) + byte_len(s.subrange(i, j)),
{
    assert(s.take(j) =~= s.take(i) + s.subrange(i, j));
    lemma_byte_len_concat(s.take(i), s.subrange(i, j));
    lemma_byte_len_bounds(s.subrange(i, j));
}

pub proof fn lemma_offset_ends(s: Seq<char>)
    ensures
        offset_at(s, 0) == 0,
        offset_at(s, s.len() as int) == byte_len(s),
        is_offset(s, 0),
        is_offset(s, byte_len(s) as int),
{
    reveal(is_offset);
    assert(s.take(0) =~= Seq::<char>::empty());
    assert(s.take(s.len() as int) =~= s);
}

/// The index that belongs to an offset is unique.
pub proof fn lemma_index_at(s: Seq<char>, i: int)
    requires
        0 <= i <= s.len(),
    ensures
        is_offset(s, offset_at(s, i) as int),
        index_at(s, offset_at(s, i) as int) == i,
        head(s, offset_at(s, i) as int) == s.take(i),
        tail(s, offset_at(s, i) as int) == s.skip(i),
        0 <= offset_at(s, i) <= byte_len(s),
{
    reveal(is_offset);
    let pos = offset_at(s, i) as int;
    let j = index_at(s, pos);
    assert(0 <= j <= s.len() && offset_at(s, j) == pos);
    if i < j {
        lemma_offset_mono(s, i, j);
    } else if j < i {
        lemma_offset_mono(s, j, i);
    }
    lemma_offset_mono(s, i, s.len() as int);
    lemma_offset_ends(s);
}

/// What an offset says of the index that it belongs to.
pub proof fn lemma_is_offset(s: Seq<char>, pos: int)
    requires
        is_offset(s, pos),
    ensures
        0 <= index_at(s, pos) <= s.len(),
        offset_at(s, index_at(s, pos)) == pos,
        0 <= pos <= byte_len(s),
        s == head(s, pos) + tail(s, pos),
        byte_len(head(s, pos)) == pos,
        byte_len(tail(s, pos)) == byte_len(s) - pos,
{
    reveal(is_offset);
    let i = index_at(s, pos);
    assert(0 <= i <= s.len() && offset_at(s, i) == pos);
    lemma_index_at(s, i);
    assert(s =~= head(s, pos) + tail(s, pos));
    lemma_byte_len_concat(head(s, pos), tail(s, pos));
}

/// An offset into the first of two texts is one into both, and one into the
/// second is one into both after the length of the first.
pub proof fn lemma_offset_concat(a: Seq<char>, b: Seq<char>, pos: int)
    ensures
        is_offset(a, pos) ==> is_offset(a + b, pos) && index_at(a + b, pos) == index_at(a, pos)
            && head(a + b, pos) == head(a, pos) && tail(a + b, pos) == tail(a, pos) + b,
        is_offset(b, pos) ==> is_offset(a + b, pos + byte_len(a)) && index_at(
            a + b,
            pos + byte_len(a),
        ) == a.len() + index_at(b, pos) && head(a + b, pos + byte_len(a)) == a + head(b, pos)
            && tail(a + b, pos + byte_len(a)) == tail(b, pos),
{
    let s = a + b;
    if is_offset(a, pos) {
        lemma_is_offset(a, pos);
        let i = index_at(a, pos);
        assert(s.take(i) =~= a.take(i));
        lemma_index_at(s, i);
        assert(s.skip(i) =~= a.skip(i) + b);
    }
    if is_offset(b, pos) {
        lemma_is_offset(b, pos);
        let i = index_at(b, pos);
        assert(s.take(a.len() + i) =~= a + b.take(i));
        lemma_byte_len_concat(a, b.take(i));
        lemma_index_at(s, a.len() + i);
        assert(s.skip(a.len() + i) =~= b.skip(i));
    }
}

/// The converse: an offset into two texts joined lies in one of them.
pub proof fn lemma_offset_split(a: Seq<char>, b: Seq<char>, pos: int)
    requires
        is_offset(a + b, pos),
    ensures
        pos <= byte_len(a) ==> is_offset(a, pos),
        pos >= byte_len(a) ==> is_offset(b, pos - byte_len(a)),
{
    reveal(is_offset);
    let s = a + b;
    lemma_is_offset(s, pos);
    let i = index_at(s, pos);
    if i <= a.len() {
        assert(s.take(i) =~= a.take(i));
        assert(offset_at(a, i) == pos);
        lemma_index_at(a, i);
        lemma_offset_ends(b);
    } else {
        assert(s.take(i) =~= a + b.take(i - a.len()));
        lemma_byte_len_concat(a, b.take(i - a.len()));
        assert(offset_at(b, i - a.len()) == pos - byte_len(a));
        lemma_byte_len_bounds(b.take(i - a.len()));
    }
}

/// The length of a text in bytes.
pub fn text_len(s: &str) -> (len: usize)
    ensures
        len == byte_len(s@),
{
    proof {
        lemma_encoded_len(s@);
    }
    s.as_bytes().len()
}

proof fn lemma_boundary(s: Seq<char>, i: int)
    requires
        0 <= i <= s.len(),
    ensures
        is_char_boundary(encode_utf8(s), offset_at(s, i) as int),
        encode_utf8(s).subrange(0, offset_at(s, i) as int) == encode_utf8(s.take(i)),
        encode_utf8(s).subrange(offset_at(s, i) as int, encode_utf8(s).len() as int)
            == encode_utf8(s.skip(i)),
    decreases i,
{
    let a = s.take(i);
    let b = s.skip(i);
    assert(s =~= a + b);
    lemma_encode_concat(a, b);
    lemma_encoded_len(a);
    assert(encode_utf8(s).subrange(0, offset_at(s, i) as int) =~= encode_utf8(a));
    assert(encode_utf8(s).subrange(offset_at(s, i) as int, encode_utf8(s).len() as int)
        =~= encode_utf8(b));
    encode_utf8_valid_utf8(s);
    if i == 0 {
        assert(a =~= Seq::<char>::empty());
    } else {
        let rest = s.drop_first();
        lemma_boundary(rest, i - 1);
        encode_utf8_first_scalar(s);
        assert(pop_first_scalar(encode_utf8(s)) =~= encode_utf8(rest));
        lemma_encoded_len(seq![s[0]]);
        assert(a =~= seq![s[0]] + rest.take(i - 1));
        lemma_byte_len_concat(seq![s[0]], rest.take(i - 1));
        lemma_byte_len_push(Seq::<char>::empty(), s[0]);
        assert(seq![s[0]] =~= Seq::<char>::empty().push(s[0]));
        char_is_scalar(s[0]);
        assert(length_of_first_scalar(encode_utf8(s)) == utf8_len(s[0]));
        lemma_encoded_len(s);
        lemma_offset_mono(s, i, s.len() as int);
        lemma_offset_ends(s);
    }
}

/// Splits a text at a byte offset.
pub fn split_text(s: &str, pos: usize) -> (parts: (&str, &str))
    requires
        is_offset(s@, pos as int),
    ensures
        parts.0@ == head(s@, pos as int),
        parts.1@ == tail(s@, pos as int),
{
    proof {
        lemma_is_offset(s@, pos as int);
        lemma_boundary(s@, index_at(s@, pos as int));
    }
    let parts = s.split_at(pos);
    proof {
        encode_utf8_decode_utf8(parts.0@);
        encode_utf8_decode_utf8(parts.1@);
        encode_utf8_decode_utf8(head(s@, pos as int));
        encode_utf8_decode_utf8(tail(s@, pos as int));
    }
    parts
}

/// A byte range of a text splits the text in three.
pub proof fn lemma_three_parts(s: Seq<char>, start: int, end: int)
    requires
        is_offset(s, start),
        is_offset(s, end),
        start <= end,
    ensures
        s == head(s, start) + slice(s, start, end) + tail(s, end),
        byte_len(slice(s, start, end)) == end - start,
        byte_len(head(s, start)) == start,
        byte_len(tail(s, end)) == byte_len(s) - end,
        0 <= start <= end <= byte_len(s),
        0 <= index_at(s, start) <= index_at(s, end) <= s.len(),
{
    lemma_is_offset(s, start);
    lemma_is_offset(s, end);
    let i = index_at(s, start);
    let j = index_at(s, end);
    if j < i {
        lemma_offset_mono(s, j, i);
    }
    lemma_offset_mono(s, i, j);
    assert(s =~= head(s, start) + slice(s, start, end) + tail(s, end));
}

/// The text between two byte offsets.
pub fn slice_text(s: &str, start: usize, end: usize) -> (part: String)
    requires
        is_offset(s@, start as int),
        is_offset(s@, end as int),
        start <= end,
    ensures
        part@ == slice(s@, start as int, end as int),
{
    proof {
        lemma_three_parts(s@, start as int, end as int);
        let i = index_at(s@, start as int);
        let front = head(s@, end as int);
        assert(front.take(i) =~= s@.take(i));
        assert(offset_at(front, i) == start);
        lemma_is_offset(s@, start as int);
        lemma_index_at(front, i);
        assert(tail(front, start as int) =~= slice(s@, start as int, end as int));
    }
    let front = split_text(s, end).0;
    split_text(front, start).1.to_owned()
}

/// Two texts hold the same characters.
pub open spec fn alike(a: Seq<char>, b: Seq<char>) -> bool {
    a == b
}

/// Whether two texts hold the same characters.
pub fn same_text(a: &str, b: &str) -> (same: bool)
    ensures
        same == alike(a@, b@),
{
    a.to_owned() == b.to_owned()
}

/// The characters of a text.
pub fn chars_of(s: &str) -> (chars: Vec<char>)
    ensures
        chars@ == s@,
{
    let mut chars: Vec<char> = Vec::new();
    for c in it: s.chars()
        invariant
            chars@ == it.seq().take(it.index() as int),
            it.seq() == s@,
    {
        assert(it.seq().take(it.index() as int).push(c) =~= it.seq().take(it.index() + 1));
        chars.push(c);
    }
    assert(s@.take(s@.len() as int) =~= s@);
    chars
}

/// The text that a range of characters spells.
pub fn string_of(chars: &Vec<char>, start: usize, end: usize) -> (text: String)
    requires
        start <= end <= chars.len(),
    ensures
        text@ == chars@.subrange(start as int, end as int),
{
    let mut text = String::new();
    let mut i: usize = start;
    while i < end
        invariant
            start <= i <= end <= chars.len(),
            text@ == chars@.subrange(start as int, i as int),
        decreases end - i,
    {
        text.push(chars[i]);
        assert(chars@.subrange(start as int, i as int).push(chars@[i as int]) =~= chars@.subrange(
            start as int,
            i + 1,
        ));
        i += 1;
    }
    text
}

/// Two texts one after the other.
pub fn concat_text(a: &str, b: &str) -> (text: String)
    ensures
        text@ == a@ + b@,
{
    let mut text = a.to_owned();
    text.append(b);
    text
}

/// Whether a text is empty.
pub fn text_is_empty(s: &str) -> (empty: bool)
    ensures
        empty == (s@.len() == 0),
{
    proof {
        lemma_byte_len_bounds(s@);
    }
    text_len(s) == 0
}

/// Unicode's `White_Space` property.
pub open spec fn is_white(c: char) -> bool {
    let n = c as u32;
    ||| 0x09 <= n <= 0x0D
    ||| n == 0x20
    ||| n == 0x85
    ||| n == 0xA0
    ||| n == 0x1680
    ||| 0x2000 <= n <= 0x200A
    ||| n == 0x2028
    ||| n == 0x2029
    ||| n == 0x202F
    ||| n == 0x205F
    ||| n == 0x3000
}

pub fn char_is_white(c: char) -> (white: bool)
    ensures
        white == is_white(c),
{
    let n: u32 = c as u32;
    (0x09 <= n && n <= 0x0D) || n == 0x20 || n == 0x85 || n == 0xA0 || n == 0x1680 || (0x2000 <= n
        && n <= 0x200A) || n == 0x2028 || n == 0x2029 || n == 0x202F || n == 0x205F || n == 0x3000
}

/// Unicode's control characters (general category `Cc`).
pub open spec fn is_control_char(c: char) -> bool {
    c as u32 <= 0x1F || 0x7F <= c as u32 <= 0x9F
}

/// Whether a text holds a control character.
pub open spec fn has_control(s: Seq<char>) -> bool {
    exists|i: int| 0 <= i < s.len() && is_control_char(#[trigger] s[i])
}

pub fn text_has_control(s: &str) -> (found: bool)
    ensures
        found == has_control(s@),
{
    let chars = chars_of(s);
    let mut i: usize = 0;
    while i < chars.len()
        invariant
            i <= chars.len(),
            chars@ == s@,
            forall|j: int| 0 <= j < i ==> !is_control_char(#[trigger] s@[j]),
        decreases chars.len() - i,
    {
        let n: u32 = chars[i] as u32;
        if n <= 0x1F || (0x7F <= n && n <= 0x9F) {
            assert(is_control_char(s@[i as int]));
            return true;
        }
        i += 1;
    }
    false
}

/// A text without its leading white space.
pub open spec fn trim_start(s: Seq<char>) -> Seq<char>
    decreases s.len(),
{
    if s.len() > 0 && is_white(s[0]) {
        trim_start(s.drop_first())
    } else {
        s
    }
}

/// A text without its trailing white space.
pub open spec fn trim_end(s: Seq<char>) -> Seq<char>
    decreases s.len(),
{
    if s.len() > 0 && is_white(s.last()) {
        trim_end(s.drop_last())
    } else {
        s
    }
}

/// A text without the white space around it.
pub open spec fn trim(s: Seq<char>) -> Seq<char> {
    trim_end(trim_start(s))
}

pub fn trim_text(s: &str) -> (text: String)
    ensures
        text@ == trim(s@),
{
    let chars = chars_of(s);
    let mut start: usize = 0;
    assert(s@.skip(0) =~= s@);
    while start < chars.len() && char_is_white(chars[start])
        invariant
            start <= chars.len(),
            chars@ == s@,
            trim_start(s@.skip(start as int)) == trim_start(s@),
        decreases chars.len() - start,
    {
        assert(s@.skip(start as int).drop_first() =~= s@.skip(start + 1));
        start += 1;
    }
    let ghost body = s@.skip(start as int);
    let mut end: usize = chars.len();
    assert(body.take(end - start) =~= body);
    while start < end && char_is_white(chars[end - 1])
        invariant
            start <= end <= chars.len(),
            chars@ == s@,
            body == s@.skip(start as int),
            trim_end(body.take(end - start)) == trim_end(body),
        decreases end - start,
    {
        assert(body.take(end - start).drop_last() =~= body.take(end - 1 - start));
        end -= 1;
    }
    assert(s@.subrange(start as int, end as int) =~= body.take(end - start));
    string_of(&chars, start, end)
}

proof fn lemma_trim_start_done(s: Seq<char>)
    ensures
        trim_start(s).len() > 0 ==> !is_white(trim_start(s)[0]),
    decreases s.len(),
{
    if s.len() > 0 && is_white(s[0]) {
        lemma_trim_start_done(s.drop_first());
    }
}

proof fn lemma_trim_end_done(s: Seq<char>)
    ensures
        trim_end(s).len() > 0 ==> !is_white(trim_end(s).last()) && trim_end(s)[0] == s[0],
    decreases s.len(),
{
    if s.len() > 0 && is_white(s.last()) {
        lemma_trim_end_done(s.drop_last());
    }
}

/// Trimming a trimmed text leaves it as it is.
pub proof fn lemma_trimmed_twice(s: Seq<char>)
    ensures
        trim(trim(s)) == trim(s),
{
    lemma_trim_start_done(s);
    lemma_trim_end_done(trim_start(s));
}

/// Whether a text is nothing but white space.
pub open spec fn is_blank(s: Seq<char>) -> bool {
    trim(s).len() == 0
}

pub fn text_is_blank(s: &str) -> (blank: bool)
    ensures
        blank == is_blank(s@),
{
    let trimmed = trim_text(s);
    text_is_empty(trimmed.as_str())
}

/// A text without any trailing characters out of `stops`.
pub open spec fn trim_end_of(s: Seq<char>, stops: Seq<char>) -> Seq<char>
    decreases s.len(),
{
    if s.len() > 0 && stops.contains(s.last()) {
        trim_end_of(s.drop_last(), stops)
    } else {
        s
    }
}

/// Removes the trailing characters that are one of two.
pub fn trim_end_of_two(s: &str, first: char, second: char) -> (text: String)
    ensures
        text@ == trim_end_of(s@, seq![first, second]),
{
    let chars = chars_of(s);
    let ghost stops = seq![first, second];
    assert(stops[0] == first && stops[1] == second);
    let mut end: usize = chars.len();
    assert(s@.take(end as int) =~= s@);
    while end > 0 && (chars[end - 1] == first || chars[end - 1] == second)
        invariant
            end <= chars.len(),
            chars@ == s@,
            stops == seq![first, second],
            stops[0] == first && stops[1] == second,
            trim_end_of(s@.take(end as int), stops) == trim_end_of(s@, stops),
        decreases end,
    {
        assert(stops.contains(s@[end - 1]));
        assert(s@.take(end as int).drop_last() =~= s@.take(end - 1));
        end -= 1;
    }
    assert(s@.subrange(0, end as int) =~= s@.take(end as int));
    string_of(&chars, 0, end)
}

/// The position of the first `c` in a text.
pub open spec fn first_index(s: Seq<char>, c: char) -> Option<int>
    decreases s.len(),
{
    if s.len() == 0 {
        None
    } else if s[0] == c {
        Some(0)
    } else {
        match first_index(s.drop_first(), c) {
            Some(i) => Some(i + 1),
            None => None,
        }
    }
}

pub proof fn lemma_first_index(s: Seq<char>, c: char)
    ensures
        match first_index(s, c) {
            Some(i) => 0 <= i < s.len() && s[i] == c && (forall|j: int|
                0 <= j < i ==> s[j] != c),
            None => forall|j: int| 0 <= j < s.len() ==> s[j] != c,
        },
    decreases s.len(),
{
    if s.len() > 0 && s[0] != c {
        lemma_first_index(s.drop_first(), c);
        assert forall|j: int| 0 < j < s.len() implies s[j] == s.drop_first()[j - 1] by {}
        match first_index(s.drop_first(), c) {
            Some(i) => {
                assert forall|j: int| 0 <= j < i + 1 implies s[j] != c by {
                    if j > 0 {
                        assert(s.drop_first()[j - 1] != c);
                    }
                }
            },
            None => {
                assert forall|j: int| 0 <= j < s.len() implies s[j] != c by {
                    if j > 0 {
                        assert(s.drop_first()[j - 1] != c);
                    }
                }
            },
        }
    }
}

/// The characterisation above determines the position.
pub proof fn lemma_first_index_is(s: Seq<char>, c: char, i: int)
    requires
        0 <= i < s.len(),
        s[i] == c,
        forall|j: int| 0 <= j < i ==> s[j] != c,
    ensures
        first_index(s, c) == Some(i),
{
    lemma_first_index(s, c);
}

/// The parts of a text between the occurrences of `c`.
pub open spec fn split_on(s: Seq<char>, c: char) -> Seq<Seq<char>>
    decreases s.len(),
{
    match first_index(s, c) {
        None => seq![s],
        Some(i) => if 0 <= i < s.len() {
            seq![s.take(i)] + split_on(s.skip(i + 1), c)
        } else {
            seq![s]
        },
    }
}

/// Texts by their characters.
pub open spec fn texts(parts: Seq<String>) -> Seq<Seq<char>> {
    Seq::new(parts.len(), |i: int| parts[i]@)
}

pub proof fn lemma_texts_push(parts: Seq<String>, part: String)
    ensures
        texts(parts.push(part)) == texts(parts).push(part@),
{
    assert(texts(parts.push(part)) =~= texts(parts).push(part@));
}

pub fn split_text_on(s: &str, c: char) -> (parts: Vec<String>)
    ensures
        texts(parts@) == split_on(s@, c),
        parts.len() > 0,
{
    let chars = chars_of(s);
    let mut parts: Vec<String> = Vec::new();
    let mut start: usize = 0;
    let mut i: usize = 0;
    assert(s@.skip(0) =~= s@);
    assert(texts(parts@) + split_on(s@, c) =~= split_on(s@, c));
    while i < chars.len()
        invariant
            start <= i <= chars.len(),
            chars@ == s@,
            forall|j: int| start <= j < i ==> s@[j] != c,
            texts(parts@) + split_on(s@.skip(start as int), c) == split_on(s@, c),
        decreases chars.len() - i,
    {
        if chars[i] == c {
            let part = string_of(&chars, start, i);
            proof {
                let rest = s@.skip(start as int);
                lemma_first_index_is(rest, c, i - start);
                assert(rest.take(i - start) =~= part@);
                assert(rest.skip(i - start + 1) =~= s@.skip(i + 1));
                lemma_texts_push(parts@, part);
                assert(texts(parts@).push(part@) + split_on(s@.skip(i + 1), c) =~= texts(parts@)
                    + (seq![part@] + split_on(s@.skip(i + 1), c)));
            }
            parts.push(part);
            start = i + 1;
        }
        i += 1;
    }
    let part = string_of(&chars, start, chars.len());
    proof {
        let rest = s@.skip(start as int);
        assert(part@ =~= rest);
        lemma_first_index(rest, c);
        match first_index(rest, c) {
            Some(k) => {
                assert(s@[start + k] == c);
            },
            None => {},
        }
        lemma_texts_push(parts@, part);
        assert(texts(parts@).push(part@) =~= texts(parts@) + seq![part@]);
    }
    parts.push(part);
    parts
}

/// The characters of a text that may be absent.
pub open spec fn option_text(text: Option<String>) -> Option<Seq<char>> {
    match text {
        Some(text) => Some(text@),
        None => None,
    }
}

/// An owned copy of a text that may be absent.
pub fn own_option(text: Option<&str>) -> (copy: Option<String>)
    ensures
        match text {
            Some(text) => option_text(copy) == Some(text@),
            None => copy is None,
        },
{
    match text {
        Some(text) => Some(text.to_owned()),
        None => None,
    }
}

/// A copy of a text that may be absent.
pub fn copy_option(text: &Option<String>) -> (copy: Option<String>)
    ensures
        option_text(copy) == option_text(*text),
{
    match text {
        Some(text) => Some(text.clone()),
        None => None,
    }
}

/// Whether a text is among others.
pub fn texts_contain(parts: &Vec<String>, part: &str) -> (found: bool)
    ensures
        found == texts(parts@).contains(part@),
{
    let mut i: usize = 0;
    while i < parts.len()
        invariant
            i <= parts.len(),
            forall|j: int| 0 <= j < i ==> (#[trigger] texts(parts@)[j]) != part@,
        decreases parts.len() - i,
    {
        assert(texts(parts@)[i as int] == parts@[i as int]@);
        if same_text(parts[i].as_str(), part) {
            return true;
        }
        i += 1;
    }
    false
}

/// The same texts once more.
pub fn copy_texts(parts: &Vec<String>) -> (copy: Vec<String>)
    ensures
        texts(copy@) == texts(parts@),
{
    let mut copy: Vec<String> = Vec::new();
    let mut i: usize = 0;
    while i < parts.len()
        invariant
            i <= parts.len(),
            copy.len() == i,
            forall|j: int| 0 <= j < i ==> (#[trigger] copy@[j])@ == parts@[j]@,
        decreases parts.len() - i,
    {
        copy.push(parts[i].clone());
        i += 1;
    }
    assert(texts(copy@) =~= texts(parts@));
    copy
}

/// A line without the carriage return that belongs to its line feed.
pub open spec fn strip_return(s: Seq<char>) -> Seq<char> {
    if s.len() > 0 && s.last() == '\r' {
        s.drop_last()
    } else {
        s
    }
}

/// The lines of a text. A line ends with a line feed, or with a carriage
/// return and a line feed; the last line may lack its ending.
pub open spec fn lines_of(s: Seq<char>) -> Seq<Seq<char>>
    decreases s.len(),
{
    if s.len() == 0 {
        seq![]
    } else {
        match first_index(s, '\n') {
            None => seq![s],
            Some(i) => if 0 <= i < s.len() {
                seq![strip_return(s.take(i))] + lines_of(s.skip(i + 1))
            } else {
                seq![s]
            },
        }
    }
}

pub fn text_lines(s: &str) -> (lines: Vec<String>)
    ensures
        texts(lines@) == lines_of(s@),
{
    let chars = chars_of(s);
    let mut lines: Vec<String> = Vec::new();
    let mut start: usize = 0;
    let mut i: usize = 0;
    assert(s@.skip(0) =~= s@);
    assert(texts(lines@) + lines_of(s@) =~= lines_of(s@));
    while i < chars.len()
        invariant
            start <= i <= chars.len(),
            chars@ == s@,
            forall|j: int| start <= j < i ==> s@[j] != '\n',
            texts(lines@) + lines_of(s@.skip(start as int)) == lines_of(s@),
        decreases chars.len() - i,
    {
        if chars[i] == '\n' {
            let end: usize = if start < i && chars[i - 1] == '\r' {
                i - 1
            } else {
                i
            };
            let line = string_of(&chars, start, end);
            proof {
                let rest = s@.skip(start as int);
                lemma_first_index_is(rest, '\n', i - start);
                assert(strip_return(rest.take(i - start)) =~= line@);
                assert(rest.skip(i - start + 1) =~= s@.skip(i + 1));
                lemma_texts_push(lines@, line);
                assert(texts(lines@).push(line@) + lines_of(s@.skip(i + 1)) =~= texts(lines@)
                    + (seq![line@] + lines_of(s@.skip(i + 1))));
            }
            lines.push(line);
            start = i + 1;
        }
        i += 1;
    }
    proof {
        let rest = s@.skip(start as int);
        lemma_first_index(rest, '\n');
        match first_index(rest, '\n') {
            Some(k) => {
                assert(s@[start + k] == '\n');
            },
            None => {},
        }
    }
    if start < chars.len() {
        let line = string_of(&chars, start, chars.len());
        proof {
            let rest = s@.skip(start as int);
            assert(line@ =~= rest);
            lemma_texts_push(lines@, line);
            assert(texts(lines@).push(line@) =~= texts(lines@) + seq![line@]);
        }
        lines.push(line);
    } else {
        assert(texts(lines@) + lines_of(s@.skip(start as int)) =~= texts(lines@));
    }
    lines
}

/// The parts of a text between runs of white space.
pub open spec fn words_of(s: Seq<char>) -> Seq<Seq<char>>
    decreases s.len(),
{
    if s.len() == 0 {
        seq![]
    } else if is_white(s[0]) {
        words_of(s.drop_first())
    } else {
        let end = word_end(s);
        if 0 < end <= s.len() {
            seq![s.take(end)] + words_of(s.skip(end))
        } else {
            seq![]
        }
    }
}

/// The length of the run without white space at the start of a text.
pub open spec fn word_end(s: Seq<char>) -> int
    decreases s.len(),
{
    if s.len() == 0 || is_white(s[0]) {
        0
    } else {
        1 + word_end(s.drop_first())
    }
}

proof fn lemma_word_end(s: Seq<char>)
    ensures
        0 <= word_end(s) <= s.len(),
        s.len() > 0 && !is_white(s[0]) ==> word_end(s) > 0,
    decreases s.len(),
{
    if s.len() > 0 && !is_white(s[0]) {
        lemma_word_end(s.drop_first());
    }
}

pub fn text_words(s: &str) -> (words: Vec<String>)
    ensures
        texts(words@) == words_of(s@),
{
    let chars = chars_of(s);
    let mut words: Vec<String> = Vec::new();
    let mut i: usize = 0;
    assert(s@.skip(0) =~= s@);
    assert(texts(words@) + words_of(s@) =~= words_of(s@));
    while i < chars.len()
        invariant
            i <= chars.len(),
            chars@ == s@,
            texts(words@) + words_of(s@.skip(i as int)) == words_of(s@),
        decreases chars.len() - i,
    {
        let ghost rest = s@.skip(i as int);
        if char_is_white(chars[i]) {
            assert(rest.drop_first() =~= s@.skip(i + 1));
            i += 1;
        } else {
            let mut end: usize = i;
            assert(s@.skip(end as int) =~= rest);
            while end < chars.len() && !char_is_white(chars[end])
                invariant
                    i <= end <= chars.len(),
                    chars@ == s@,
                    rest == s@.skip(i as int),
                    end - i + word_end(s@.skip(end as int)) == word_end(rest),
                decreases chars.len() - end,
            {
                assert(s@.skip(end as int).drop_first() =~= s@.skip(end + 1));
                end += 1;
            }
            let word = string_of(&chars, i, end);
            proof {
                lemma_word_end(rest);
                assert(word_end(rest) == end - i);
                assert(rest.take(end - i) =~= word@);
                assert(rest.skip(end - i) =~= s@.skip(end as int));
                lemma_texts_push(words@, word);
                assert(texts(words@).push(word@) + words_of(s@.skip(end as int)) =~= texts(words@)
                    + (seq![word@] + words_of(s@.skip(end as int))));
            }
            words.push(word);
            i = end;
        }
    }
    assert(texts(words@) + words_of(s@.skip(i as int)) =~= texts(words@));
    words
}

/// Texts put one after the other, with a separator between them.
pub open spec fn join(parts: Seq<Seq<char>>, separator: Seq<char>) -> Seq<char>
    decreases parts.len(),
{
    if parts.len() == 0 {
        seq![]
    } else if parts.len() == 1 {
        parts[0]
    } else {
        join(parts.drop_last(), separator) + separator + parts.last()
    }
}

pub fn join_texts(parts: &Vec<String>, separator: &str) -> (text: String)
    ensures
        text@ == join(texts(parts@), separator@),
{
    let mut text = String::new();
    let mut i: usize = 0;
    assert(texts(parts@).take(0) =~= seq![]);
    while i < parts.len()
        invariant
            i <= parts.len(),
            text@ == join(texts(parts@).take(i as int), separator@),
        decreases parts.len() - i,
    {
        proof {
            let next = texts(parts@).take(i + 1);
            assert(next.drop_last() =~= texts(parts@).take(i as int));
            assert(next.last() == parts@[i as int]@);
        }
        if i > 0 {
            text.append(separator);
        }
        text.append(parts[i].as_str());
        assert(i == 0 ==> text@ =~= parts@[0]@);
        i += 1;
    }
    assert(texts(parts@).take(parts.len() as int) =~= texts(parts@));
    text
}

/// Texts put one after the other.
pub open spec fn concat(parts: Seq<Seq<char>>) -> Seq<char>
    decreases parts.len(),
{
    if parts.len() == 0 {
        seq![]
    } else {
        concat(parts.drop_last()) + parts.last()
    }
}

/// A concatenation splits where its parts do.
pub proof fn lemma_concat_split(parts: Seq<Seq<char>>, k: int)
    requires
        0 <= k <= parts.len(),
    ensures
        concat(parts) == concat(parts.take(k)) + concat(parts.skip(k)),
        concat(parts.take(k)).len() <= concat(parts).len(),
        byte_len(concat(parts.take(k))) <= byte_len(concat(parts)),
        is_offset(concat(parts), byte_len(concat(parts.take(k))) as int),
        head(concat(parts), byte_len(concat(parts.take(k))) as int) == concat(parts.take(k)),
        tail(concat(parts), byte_len(concat(parts.take(k))) as int) == concat(parts.skip(k)),
    decreases parts.len() - k,
{
    if k == parts.len() {
        assert(parts.take(k) =~= parts);
        assert(parts.skip(k) =~= seq![]);
        assert(concat(parts) =~= concat(parts) + seq![]);
    } else {
        let front = parts.drop_last();
        if k == parts.len() - 1 {
            assert(parts.take(k) =~= front);
            let last = parts.skip(k);
            assert(last.drop_last() =~= seq![]);
            reveal_with_fuel(concat, 2);
            assert(concat(last) =~= last.last());
        } else {
            lemma_concat_front(parts, k);
        }
    }
    let a = concat(parts.take(k));
    let b = concat(parts.skip(k));
    lemma_byte_len_concat(a, b);
    assert(concat(parts).take(a.len() as int) =~= a);
    assert(concat(parts).skip(a.len() as int) =~= b);
    lemma_index_at(concat(parts), a.len() as int);
}

proof fn lemma_concat_front(parts: Seq<Seq<char>>, k: int)
    requires
        0 <= k < parts.len(),
    ensures
        concat(parts) == concat(parts.take(k)) + concat(parts.skip(k)),
    decreases parts.len(),
{
    let front = parts.drop_last();
    let rest = parts.skip(k);
    if k < front.len() {
        lemma_concat_front(front, k);
        assert(front.take(k) =~= parts.take(k));
        assert(front.skip(k) =~= rest.drop_last());
        assert(rest.last() == parts.last());
        assert(concat(parts.take(k)) + concat(rest.drop_last()) + rest.last() =~= concat(
            parts.take(k),
        ) + (concat(rest.drop_last()) + rest.last()));
    } else {
        assert(front =~= parts.take(k));
        assert(rest.drop_last() =~= seq![]);
        reveal_with_fuel(concat, 2);
        assert(concat(rest) =~= rest.last());
    }
}

/// Whether a text begins with another.
pub open spec fn begins_with(s: Seq<char>, prefix: Seq<char>) -> bool {
    prefix.len() <= s.len() && s.take(prefix.len() as int) == prefix
}

fn chars_begin_with(s: &Vec<char>, start: usize, prefix: &Vec<char>) -> (found: bool)
    requires
        start <= s.len(),
    ensures
        found == begins_with(s@.skip(start as int), prefix@),
{
    if prefix.len() > s.len() - start {
        return false;
    }
    let mut i: usize = 0;
    while i < prefix.len()
        invariant
            i <= prefix.len() <= s.len() - start,
            forall|j: int| 0 <= j < i ==> s@[start + j] == #[trigger] prefix@[j],
        decreases prefix.len() - i,
    {
        if s[start + i] != prefix[i] {
            assert(s@.skip(start as int).take(prefix@.len() as int)[i as int] != prefix@[i as int]);
            return false;
        }
        i += 1;
    }
    assert(s@.skip(start as int).take(prefix@.len() as int) =~= prefix@);
    true
}

pub fn text_begins_with(s: &str, prefix: &str) -> (found: bool)
    ensures
        found == begins_with(s@, prefix@),
{
    let chars = chars_of(s);
    let start = chars_of(prefix);
    assert(s@.skip(0) =~= s@);
    chars_begin_with(&chars, 0, &start)
}

/// The rest of a text after a prefix, where it has that prefix.
pub fn text_after_prefix(s: &str, prefix: &str) -> (rest: Option<String>)
    ensures
        match rest {
            Some(rest) => begins_with(s@, prefix@) && rest@ == s@.skip(prefix@.len() as int),
            None => !begins_with(s@, prefix@),
        },
{
    let chars = chars_of(s);
    let start = chars_of(prefix);
    assert(s@.skip(0) =~= s@);
    if chars_begin_with(&chars, 0, &start) {
        assert(s@.skip(prefix@.len() as int) =~= s@.subrange(prefix@.len() as int, s@.len() as int));
        Some(string_of(&chars, start.len(), chars.len()))
    } else {
        None
    }
}

/// The first position at which a text holds another.
pub open spec fn first_match(s: Seq<char>, part: Seq<char>) -> Option<int>
    decreases s.len(),
{
    if begins_with(s, part) {
        Some(0)
    } else if s.len() == 0 {
        None
    } else {
        match first_match(s.drop_first(), part) {
            Some(i) => Some(i + 1),
            None => None,
        }
    }
}

/// Whether a text holds another.
pub open spec fn contains_text(s: Seq<char>, part: Seq<char>) -> bool {
    exists|i: int| 0 <= i <= s.len() && #[trigger] begins_with(s.skip(i), part)
}

/// The characters before the first occurrence of a part, or all of them.
pub open spec fn before_match(s: Seq<char>, part: Seq<char>) -> Seq<char> {
    match first_match(s, part) {
        Some(i) => s.take(i),
        None => s,
    }
}

proof fn lemma_first_match(s: Seq<char>, part: Seq<char>, i: int)
    requires
        0 <= i <= s.len(),
        begins_with(s.skip(i), part),
        forall|j: int| 0 <= j < i ==> !begins_with(#[trigger] s.skip(j), part),
    ensures
        first_match(s, part) == Some(i),
    decreases s.len(),
{
    assert(s.skip(0) =~= s);
    if i > 0 {
        let rest = s.drop_first();
        assert(!begins_with(s.skip(0), part));
        assert(rest.skip(i - 1) =~= s.skip(i));
        assert forall|j: int| 0 <= j < i - 1 implies !begins_with(#[trigger] rest.skip(j), part) by {
            assert(rest.skip(j) =~= s.skip(j + 1));
        }
        lemma_first_match(rest, part, i - 1);
    }
}

proof fn lemma_no_match(s: Seq<char>, part: Seq<char>)
    requires
        forall|j: int| 0 <= j <= s.len() ==> !begins_with(#[trigger] s.skip(j), part),
    ensures
        first_match(s, part) is None,
    decreases s.len(),
{
    assert(s.skip(0) =~= s);
    assert(!begins_with(s.skip(0), part));
    if s.len() > 0 {
        let rest = s.drop_first();
        assert forall|j: int| 0 <= j <= rest.len() implies !begins_with(
            #[trigger] rest.skip(j),
            part,
        ) by {
            assert(rest.skip(j) =~= s.skip(j + 1));
        }
        lemma_no_match(rest, part);
    }
}

fn find_chars(s: &Vec<char>, part: &Vec<char>) -> (found: Option<usize>)
    ensures
        match found {
            Some(i) => i <= s.len() && first_match(s@, part@) == Some(i as int) && contains_text(
                s@,
                part@,
            ),
            None => first_match(s@, part@) is None && !contains_text(s@, part@),
        },
{
    let mut i: usize = 0;
    while i < s.len()
        invariant
            i <= s.len(),
            forall|j: int| 0 <= j < i ==> !begins_with(#[trigger] s@.skip(j), part@),
        decreases s.len() - i,
    {
        if chars_begin_with(s, i, part) {
            proof {
                lemma_first_match(s@, part@, i as int);
            }
            return Some(i);
        }
        i += 1;
    }
    if chars_begin_with(s, i, part) {
        proof {
            lemma_first_match(s@, part@, i as int);
        }
        return Some(i);
    }
    proof {
        lemma_no_match(s@, part@);
    }
    None
}

pub fn text_contains(s: &str, part: &str) -> (found: bool)
    ensures
        found == contains_text(s@, part@),
{
    let chars = chars_of(s);
    let wanted = chars_of(part);
    find_chars(&chars, &wanted).is_some()
}

pub fn text_before(s: &str, part: &str) -> (text: String)
    ensures
        text@ == before_match(s@, part@),
{
    let chars = chars_of(s);
    let wanted = chars_of(part);
    match find_chars(&chars, &wanted) {
        Some(i) => {
            assert(s@.subrange(0, i as int) =~= s@.take(i as int));
            string_of(&chars, 0, i)
        },
        None => s.to_owned(),
    }
}

/// A text with each occurrence of `from` replaced, from left to right.
pub open spec fn replace_all(s: Seq<char>, from: Seq<char>, to: Seq<char>) -> Seq<char>
    decreases s.len(),
{
    if s.len() == 0 || from.len() == 0 {
        s
    } else if begins_with(s, from) {
        to + replace_all(s.skip(from.len() as int), from, to)
    } else {
        seq![s[0]] + replace_all(s.drop_first(), from, to)
    }
}

/// Replaces each occurrence of a part that is not empty.
pub fn replace_text(s: &str, from: &str, to: &str) -> (text: String)
    requires
        from@.len() > 0,
    ensures
        text@ == replace_all(s@, from@, to@),
{
    let chars = chars_of(s);
    let wanted = chars_of(from);
    let mut text = String::new();
    let mut i: usize = 0;
    assert(s@.skip(0) =~= s@);
    assert(text@ + replace_all(s@, from@, to@) =~= replace_all(s@, from@, to@));
    while i < chars.len()
        invariant
            i <= chars.len(),
            chars@ == s@,
            wanted@ == from@,
            from@.len() > 0,
            text@ + replace_all(s@.skip(i as int), from@, to@) == replace_all(s@, from@, to@),
        decreases chars.len() - i,
    {
        let ghost rest = s@.skip(i as int);
        let ghost before = text@;
        if chars_begin_with(&chars, i, &wanted) {
            text.append(to);
            proof {
                assert(rest.skip(from@.len() as int) =~= s@.skip(i + from@.len()));
                let later = replace_all(s@.skip(i + from@.len()), from@, to@);
                assert(before + (to@ + later) =~= text@ + later);
            }
            i += wanted.len();
        } else {
            text.push(chars[i]);
            proof {
                assert(rest.drop_first() =~= s@.skip(i + 1));
                let later = replace_all(s@.skip(i + 1), from@, to@);
                assert(before + (seq![rest[0]] + later) =~= text@ + later);
            }
            i += 1;
        }
    }
    assert(text@ + replace_all(s@.skip(i as int), from@, to@) =~= text@);
    text
}

/// An ASCII letter in lower case; any other character as it is.
pub open spec fn ascii_lower(c: char) -> char {
    if 'A' <= c && c <= 'Z' {
        (c as u32 + 32) as char
    } else {
        c
    }
}

/// A text with its ASCII letters in lower case.
pub open spec fn lower(s: Seq<char>) -> Seq<char> {
    Seq::new(s.len(), |i: int| ascii_lower(s[i]))
}

fn char_lower(c: char) -> (low: char)
    ensures
        low == ascii_lower(c),
{
    if 'A' <= c && c <= 'Z' {
        ((c as u8) + 32) as char
    } else {
        c
    }
}

pub fn lower_text(s: &str) -> (text: String)
    ensures
        text@ == lower(s@),
{
    let chars = chars_of(s);
    let mut text = String::new();
    let mut i: usize = 0;
    while i < chars.len()
        invariant
            i <= chars.len(),
            chars@ == s@,
            text@ == lower(s@.take(i as int)),
        decreases chars.len() - i,
    {
        text.push(char_lower(chars[i]));
        i += 1;
        assert(text@ =~= lower(s@.take(i as int)));
    }
    assert(s@.take(s@.len() as int) =~= s@);
    text
}

/// The decimal digit for a number below ten.
pub open spec fn digit(n: nat) -> char {
    ('0' as u32 + n) as char
}

/// A number in decimal.
pub open spec fn decimal(n: nat) -> Seq<char>
    decreases n,
{
    if n < 10 {
        seq![digit(n)]
    } else {
        decimal(n / 10).push(digit(n % 10))
    }
}

pub fn decimal_text(n: u64) -> (text: String)
    ensures
        text@ == decimal(n as nat),
    decreases n,
{
    let last: u8 = (n % 10) as u8;
    let ch: char = (48u8 + last) as char;
    if n < 10 {
        let mut text = String::new();
        text.push(ch);
        assert(text@ =~= seq![digit(n as nat)]);
        text
    } else {
        let mut text = decimal_text(n / 10);
        text.push(ch);
        text
    }
}

/// A large number in decimal.
pub fn wide_decimal_text(n: u128) -> (text: String)
    ensures
        text@ == decimal(n as nat),
    decreases n,
{
    let last: u8 = (n % 10) as u8;
    let ch: char = (48u8 + last) as char;
    if n < 10 {
        let mut text = String::new();
        text.push(ch);
        assert(text@ =~= seq![digit(n as nat)]);
        text
    } else {
        let mut text = wide_decimal_text(n / 10);
        text.push(ch);
        text
    }
}

/// An integer in decimal, with a minus sign where it is negative.
pub open spec fn signed_decimal(n: int) -> Seq<char> {
    if n < 0 {
        seq!['-'] + decimal((-n) as nat)
    } else {
        decimal(n as nat)
    }
}

/// The value of a run of decimal digits; nothing where it is empty or holds
/// another character.
pub open spec fn digits_value(s: Seq<char>) -> Option<nat>
    decreases s.len(),
{
    if s.len() == 0 {
        None
    } else if !('0' <= s.last() && s.last() <= '9') {
        None
    } else if s.len() == 1 {
        Some((s.last() as u32 - '0' as u32) as nat)
    } else {
        match digits_value(s.drop_last()) {
            Some(high) => Some((high * 10 + (s.last() as u32 - '0' as u32)) as nat),
            None => None,
        }
    }
}

/// The number that a text spells in decimal, with an optional plus sign, where
/// it is at most `max`.
pub open spec fn parse_decimal(s: Seq<char>, max: nat) -> Option<nat> {
    let digits = if s.len() > 0 && s[0] == '+' {
        s.drop_first()
    } else {
        s
    };
    match digits_value(digits) {
        Some(n) => if n <= max {
            Some(n)
        } else {
            None
        },
        None => None,
    }
}

proof fn lemma_digits_grow(s: Seq<char>, i: int)
    requires
        0 < i <= s.len(),
    ensures
        digits_value(s.take(i)) is None ==> digits_value(s) is None,
        digits_value(s.take(i)) matches Some(low) ==> (digits_value(s) matches Some(all) ==> low
            <= all),
    decreases s.len() - i,
{
    if i < s.len() {
        assert(s.take(i + 1).drop_last() =~= s.take(i));
        lemma_digits_grow(s, i + 1);
    } else {
        assert(s.take(i) =~= s);
    }
}

pub fn parse_number(s: &str, max: u64) -> (number: Option<u64>)
    ensures
        match number {
            Some(n) => parse_decimal(s@, max as nat) == Some(n as nat),
            None => parse_decimal(s@, max as nat) is None,
        },
{
    let chars = chars_of(s);
    let start: usize = if chars.len() > 0 && chars[0] == '+' {
        1
    } else {
        0
    };
    let ghost digits = s@.skip(start as int);
    assert(start == 0 ==> digits =~= s@);
    assert(start == 1 ==> digits =~= s@.drop_first());
    if start == chars.len() {
        return None;
    }
    let mut value: u64 = 0;
    let mut i: usize = start;
    while i < chars.len()
        invariant
            start <= i <= chars.len(),
            start < chars.len(),
            chars@ == s@,
            digits == s@.skip(start as int),
            parse_decimal(s@, max as nat) == (match digits_value(digits) {
                Some(n) => if n <= max {
                    Some(n)
                } else {
                    None
                },
                None => None,
            }),
            i == start ==> value == 0,
            i > start ==> digits_value(digits.take(i - start)) == Some(value as nat),
            value <= max,
        decreases chars.len() - i,
    {
        let c = chars[i];
        let ghost next = digits.take(i + 1 - start);
        assert(next.last() == c);
        assert(next.drop_last() =~= digits.take(i - start));
        proof {
            lemma_digits_grow(digits, i + 1 - start);
        }
        if c < '0' || '9' < c {
            return None;
        }
        let d: u64 = ((c as u8) - 48u8) as u64;
        let wide: u128 = value as u128 * 10 + d as u128;
        assert(digits_value(next) == Some(wide as nat));
        if wide > max as u128 {
            return None;
        }
        value = wide as u64;
        i += 1;
    }
    assert(digits.take(chars.len() - start) =~= digits);
    Some(value)
}

/// The same character, a number of times.
pub open spec fn repeat_char(c: char, count: nat) -> Seq<char> {
    Seq::new(count, |i: int| c)
}

pub fn repeat_text(c: char, count: usize) -> (text: String)
    ensures
        text@ == repeat_char(c, count as nat),
{
    let mut text = String::new();
    let mut i: usize = 0;
    while i < count
        invariant
            i <= count,
            text@ == repeat_char(c, i as nat),
        decreases count - i,
    {
        text.push(c);
        i += 1;
        assert(text@ =~= repeat_char(c, i as nat));
    }
    text
}

/// A text with spaces after it up to a number of characters.
pub open spec fn pad_right(s: Seq<char>, count: nat) -> Seq<char> {
    if s.len() < count {
        s + repeat_char(' ', (count - s.len()) as nat)
    } else {
        s
    }
}

pub fn pad_text(s: &str, count: usize) -> (text: String)
    ensures
        text@ == pad_right(s@, count as nat),
{
    let chars = chars_of(s);
    if chars.len() < count {
        let spaces = repeat_text(' ', count - chars.len());
        concat_text(s, spaces.as_str())
    } else {
        s.to_owned()
    }
}

} // verus!
