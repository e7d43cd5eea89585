//! File names in paths with slashes.

use vstd::prelude::*;

use crate::text::{
    chars_of, lemma_texts_push, option_text, same_text, split_on, split_text_on, string_of,
    text_is_empty, texts,
};

verus! {

/// The last component of a path that names something: neither an empty one nor
/// the current directory.
pub open spec fn last_component(parts: Seq<Seq<char>>) -> Option<Seq<char>>
    decreases parts.len(),
{
    if parts.len() == 0 {
        None
    } else if parts.last().len() == 0 || parts.last() == "."@ {
        last_component(parts.drop_last())
    } else {
        Some(parts.last())
    }
}

/// The file name of a path: its last component, unless that is the parent
/// directory.
pub open spec fn file_name(path: Seq<char>) -> Option<Seq<char>> {
    match last_component(split_on(path, '/')) {
        Some(name) => if name == ".."@ {
            None
        } else {
            Some(name)
        },
        None => None,
    }
}

pub fn path_file_name(path: &str) -> (name: Option<String>)
    ensures
        option_text(name) == file_name(path@),
{
    let parts = split_text_on(path, '/');
    let ghost all = texts(parts@);
    let mut i: usize = parts.len();
    assert(all.take(i as int) =~= all);
    while i > 0
        invariant
            i <= parts.len(),
            all == texts(parts@),
            all == split_on(path@, '/'),
            last_component(all.take(i as int)) == last_component(all),
        decreases i,
    {
        let part = parts[i - 1].as_str();
        proof {
            assert(all.take(i as int).last() == part@);
            assert(all.take(i as int).drop_last() =~= all.take(i - 1));
        }
        if !text_is_empty(part) && !same_text(part, ".") {
            if same_text(part, "..") {
                return None;
            }
            return Some(part.to_owned());
        }
        i -= 1;
    }
    None
}

/// The position of the last `c` in a text.
pub open spec fn last_index(s: Seq<char>, c: char) -> Option<int>
    decreases s.len(),
{
    if s.len() == 0 {
        None
    } else if s.last() == c {
        Some(s.len() - 1)
    } else {
        last_index(s.drop_last(), c)
    }
}

/// The extension of a path: what follows the last dot of its file name, unless
/// that dot is the first character.
pub open spec fn extension(path: Seq<char>) -> Option<Seq<char>> {
    match file_name(path) {
        Some(name) => match last_index(name, '.') {
            Some(i) => if i > 0 {
                Some(name.skip(i + 1))
            } else {
                None
            },
            None => None,
        },
        None => None,
    }
}

pub fn path_extension(path: &str) -> (extension: Option<String>)
    ensures
        option_text(extension) == self::extension(path@),
{
    match path_file_name(path) {
        Some(name) => {
            let chars = chars_of(name.as_str());
            let mut i: usize = chars.len();
            assert(name@.take(i as int) =~= name@);
            while i > 0
                invariant
                    i <= chars.len(),
                    chars@ == name@,
                    last_index(name@.take(i as int), '.') == last_index(name@, '.'),
                    file_name(path@) == Some(name@),
                decreases i,
            {
                proof {
                    assert(name@.take(i as int).last() == name@[i - 1]);
                    assert(name@.take(i as int).drop_last() =~= name@.take(i - 1));
                }
                if chars[i - 1] == '.' {
                    if i == 1 {
                        return None;
                    }
                    assert(name@.skip(i as int) =~= name@.subrange(i as int, name@.len() as int));
                    return Some(string_of(&chars, i, chars.len()));
                }
                i -= 1;
            }
            None
        },
        None => None,
    }
}

/// The parts that name something, in order.
pub open spec fn named_parts(parts: Seq<Seq<char>>) -> Seq<Seq<char>>
    decreases parts.len(),
{
    if parts.len() == 0 {
        seq![]
    } else if parts.last().len() == 0 || parts.last() == "."@ {
        named_parts(parts.drop_last())
    } else {
        named_parts(parts.drop_last()).push(parts.last())
    }
}

/// What a path starts at, given its parts: the root, the current directory where
/// it is named, or nothing in particular.
pub open spec fn path_start(parts: Seq<Seq<char>>) -> Seq<Seq<char>> {
    if parts.len() > 1 && parts[0].len() == 0 {
        seq!["/"@]
    } else if parts.len() > 0 && parts[0] == "."@ {
        seq!["."@]
    } else {
        seq![]
    }
}

/// The components of a path. Repeated and trailing slashes do not count, nor does
/// the current directory but at the start of a relative path.
#[verifier::opaque]
pub open spec fn components(path: Seq<char>) -> Seq<Seq<char>> {
    path_start(split_on(path, '/')) + named_parts(split_on(path, '/'))
}

/// Whether two paths are the same, component by component.
pub open spec fn same_path(one: Seq<char>, other: Seq<char>) -> bool {
    components(one) == components(other)
}

/// The components of a path.
pub fn path_components(path: &str) -> (found: Vec<String>)
    ensures
        texts(found@) == components(path@),
{
    reveal(components);
    let parts = split_text_on(path, '/');
    let ghost all = texts(parts@);
    let mut found: Vec<String> = Vec::new();
    assert(texts(found@) =~= seq![]);
    assert(all[0] == parts@[0]@);
    if parts.len() > 1 && text_is_empty(parts[0].as_str()) {
        found.push("/".to_owned());
        assert(texts(found@) =~= seq!["/"@]);
    } else if same_text(parts[0].as_str(), ".") {
        found.push(".".to_owned());
        assert(texts(found@) =~= seq!["."@]);
    }
    let ghost start = path_start(all);
    let mut i: usize = 0;
    assert(all.take(0) =~= seq![]);
    assert(texts(found@) =~= start + named_parts(all.take(0)));
    while i < parts.len()
        invariant
            i <= parts.len(),
            all == texts(parts@),
            texts(found@) == start + named_parts(all.take(i as int)),
        decreases parts.len() - i,
    {
        let part = parts[i].as_str();
        proof {
            assert(all.take(i + 1).last() == part@);
            assert(all.take(i + 1).drop_last() =~= all.take(i as int));
        }
        if !text_is_empty(part) && !same_text(part, ".") {
            let copy = part.to_owned();
            proof {
                lemma_texts_push(found@, copy);
                assert(start + named_parts(all.take(i as int)).push(part@) =~= (start
                    + named_parts(all.take(i as int))).push(part@));
            }
            found.push(copy);
        }
        i += 1;
    }
    assert(all.take(all.len() as int) =~= all);
    found
}

/// Whether two paths are the same.
pub fn is_same_path(one: &str, other: &str) -> (same: bool)
    ensures
        same == same_path(one@, other@),
{
    let first = path_components(one);
    let second = path_components(other);
    let ghost ours = texts(first@);
    let ghost theirs = texts(second@);
    if first.len() != second.len() {
        assert(ours.len() != theirs.len());
        return false;
    }
    let mut i: usize = 0;
    while i < first.len()
        invariant
            i <= first.len() == second.len(),
            ours == texts(first@),
            theirs == texts(second@),
            ours == components(one@),
            theirs == components(other@),
            forall|j: int| 0 <= j < i ==> #[trigger] ours[j] == theirs[j],
        decreases first.len() - i,
    {
        if !same_text(first[i].as_str(), second[i].as_str()) {
            assert(ours[i as int] != theirs[i as int]);
            return false;
        }
        assert(ours[i as int] == theirs[i as int]);
        i += 1;
    }
    assert(ours =~= theirs);
    true
}

} // verus!
