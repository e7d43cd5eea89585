//! Images that come from the clipboard or from pasted file paths.

use vstd::prelude::*;

use crate::paths::{extension, path_extension};
use crate::text::{
    chars_of, decimal, decimal_text, is_blank, lemma_texts_push, lines_of, lower, lower_text,
    replace_all, replace_text, same_text, string_of, text_is_empty, text_lines, texts,
    texts_contain, trim, trim_text, wide_decimal_text,
};

verus! {

/// A pasted path without the quotation marks around it and with plain spaces.
pub open spec fn pasted_path(text: Seq<char>) -> Seq<char> {
    let quoted = text.len() >= 2 && ((text[0] == '"' && text.last() == '"') || (text[0] == '\''
        && text.last() == '\''));
    replace_all(
        if quoted {
            text.subrange(1, text.len() - 1)
        } else {
            text
        },
        "\\ "@,
        " "@,
    )
}

/// A pasted path without the quotation marks around it and with plain spaces.
pub fn normalize_pasted_path(text: &str) -> (path: String)
    ensures
        path@ == pasted_path(text@),
{
    let chars = chars_of(text);
    let count: usize = chars.len();
    proof {
        reveal_strlit("\\ ");
    }
    if count >= 2 && ((chars[0] == '"' && chars[count - 1] == '"') || (chars[0] == '\''
        && chars[count - 1] == '\'')) {
        replace_text(string_of(&chars, 1, count - 1).as_str(), "\\ ", " ")
    } else {
        replace_text(text, "\\ ", " ")
    }
}

/// Whether an extension is that of an image.
pub open spec fn is_image_extension(extension: Seq<char>) -> bool {
    let low = lower(extension);
    low == "png"@ || low == "jpg"@ || low == "jpeg"@ || low == "webp"@ || low == "gif"@
}

/// Whether a path names an image by its extension.
pub open spec fn names_image(path: Seq<char>) -> bool {
    match extension(path) {
        Some(extension) => is_image_extension(extension),
        None => false,
    }
}

/// Whether a path names an image by its extension.
pub fn is_image_path(path: &str) -> (image: bool)
    ensures
        image == names_image(path@),
{
    match path_extension(path) {
        Some(extension) => {
            let low = lower_text(extension.as_str());
            let low = low.as_str();
            same_text(low, "png") || same_text(low, "jpg") || same_text(low, "jpeg") || same_text(
                low,
                "webp",
            ) || same_text(low, "gif")
        },
        None => false,
    }
}

/// The paths in a pasted text, one to a line that is not blank.
pub open spec fn paths_in(lines: Seq<Seq<char>>) -> Seq<Seq<char>>
    decreases lines.len(),
{
    if lines.len() == 0 {
        seq![]
    } else if is_blank(lines.last()) {
        paths_in(lines.drop_last())
    } else {
        paths_in(lines.drop_last()).push(pasted_path(trim(lines.last())))
    }
}

/// The paths in a pasted text.
pub fn pasted_paths(text: &str) -> (paths: Vec<String>)
    ensures
        texts(paths@) == paths_in(lines_of(text@)),
{
    let lines = text_lines(text);
    let ghost all = texts(lines@);
    let mut paths: Vec<String> = Vec::new();
    let mut i: usize = 0;
    assert(all.take(0) =~= seq![]);
    assert(texts(paths@) =~= seq![]);
    while i < lines.len()
        invariant
            i <= lines.len(),
            all == texts(lines@),
            texts(paths@) == paths_in(all.take(i as int)),
        decreases lines.len() - i,
    {
        proof {
            assert(all.take(i + 1).drop_last() =~= all.take(i as int));
            assert(all.take(i + 1).last() == lines@[i as int]@);
        }
        let line = trim_text(lines[i].as_str());
        if !text_is_empty(line.as_str()) {
            let path = normalize_pasted_path(line.as_str());
            proof {
                lemma_texts_push(paths@, path);
            }
            paths.push(path);
        }
        i += 1;
    }
    assert(all.take(all.len() as int) =~= all);
    paths
}

/// Whether every path is a file and an image.
pub open spec fn all_images(paths: Seq<Seq<char>>, files: Seq<Seq<char>>) -> bool {
    forall|i: int|
        0 <= i < paths.len() ==> files.contains(#[trigger] paths[i]) && names_image(paths[i])
}

/// The images that a pasted text names, given which of its paths are files. A
/// text with anything else in it names none.
pub fn image_paths_from_paste(text: &str, files: &Vec<String>) -> (images: Vec<String>)
    ensures
        texts(images@) == (if all_images(paths_in(lines_of(text@)), texts(files@)) {
            paths_in(lines_of(text@))
        } else {
            seq![]
        }),
{
    let paths = pasted_paths(text);
    let ghost all = texts(paths@);
    let mut i: usize = 0;
    while i < paths.len()
        invariant
            i <= paths.len(),
            all == texts(paths@),
            all == paths_in(lines_of(text@)),
            forall|j: int|
                0 <= j < i ==> texts(files@).contains(#[trigger] all[j]) && names_image(all[j]),
        decreases paths.len() - i,
    {
        assert(all[i as int] == paths@[i as int]@);
        if !texts_contain(files, paths[i].as_str()) || !is_image_path(paths[i].as_str()) {
            let none: Vec<String> = Vec::new();
            assert(texts(none@) =~= seq![]);
            return none;
        }
        i += 1;
    }
    paths
}

/// Why an image of the clipboard cannot be used.
#[derive(Debug, Clone, Copy, PartialEq, Eq, Structural)]
pub enum ClipboardImageError {
    DimensionsOverflow,
    InvalidDimensions,
}

/// Checks that an image of four bytes to a pixel has the size that it claims.
pub fn check_rgba_size(width: usize, height: usize, bytes: usize) -> (checked: Result<
    (),
    ClipboardImageError,
>)
    ensures
        checked == (if width * height * 4 > usize::MAX {
            Err(ClipboardImageError::DimensionsOverflow)
        } else if width == 0 || height == 0 || bytes != width * height * 4 {
            Err(ClipboardImageError::InvalidDimensions)
        } else {
            Ok(())
        }),
{
    let pixels = match width.checked_mul(height) {
        Some(pixels) => pixels,
        None => {
            return Err(ClipboardImageError::DimensionsOverflow);
        },
    };
    let expected = match pixels.checked_mul(4) {
        Some(expected) => expected,
        None => {
            return Err(ClipboardImageError::DimensionsOverflow);
        },
    };
    if width == 0 || height == 0 || bytes != expected {
        Err(ClipboardImageError::InvalidDimensions)
    } else {
        Ok(())
    }
}

impl ClipboardImageError {
    /// What the user is told.
    pub fn message(self) -> (message: String)
        ensures
            message@ == (match self {
                ClipboardImageError::DimensionsOverflow => "clipboard image dimensions overflow"@,
                ClipboardImageError::InvalidDimensions =>
                    "clipboard image has invalid RGBA dimensions"@,
            }),
    {
        match self {
            ClipboardImageError::DimensionsOverflow => {
                "clipboard image dimensions overflow".to_owned()
            },
            ClipboardImageError::InvalidDimensions => {
                "clipboard image has invalid RGBA dimensions".to_owned()
            },
        }
    }
}

/// The name of the file that an image of the clipboard is stored in.
pub fn clipboard_file_name(process: u32, timestamp: u128) -> (name: String)
    ensures
        name@ == "codex-deck-clipboard-"@ + decimal(process as nat) + "-"@ + decimal(
            timestamp as nat,
        ) + ".png"@,
{
    let mut name = "codex-deck-clipboard-".to_owned();
    name.append(decimal_text(process as u64).as_str());
    name.append("-");
    name.append(wide_decimal_text(timestamp).as_str());
    name.append(".png");
    name
}

} // verus!
