//! Targets of terminal hyperlinks.

use vstd::prelude::*;

use crate::text::{
    begins_with, concat_text, has_control, is_control_char, is_white, option_text, replace_all,
    replace_text, text_begins_with, text_has_control, trim, trim_end, trim_start, trim_text,
};

verus! {

/// Whether a target names its scheme, and the terminal may open it.
pub open spec fn has_known_scheme(target: Seq<char>) -> bool {
    ||| begins_with(target, "http://"@)
    ||| begins_with(target, "https://"@)
    ||| begins_with(target, "file://"@)
    ||| begins_with(target, "mailto:"@)
}

/// The target of a hyperlink for a destination: an absolute path as a file, or a
/// destination with a known scheme, with its spaces written out. A destination
/// with a control character has none.
pub open spec fn link_target(destination: Seq<char>) -> Option<Seq<char>> {
    let trimmed = trim(destination);
    if has_control(destination) {
        None
    } else if begins_with(trimmed, "/"@) {
        Some(replace_all("file://"@ + trimmed, " "@, "%20"@))
    } else if has_known_scheme(trimmed) {
        Some(replace_all(trimmed, " "@, "%20"@))
    } else {
        None
    }
}

/// The target of a hyperlink for a destination.
pub fn osc8_target(destination: &str) -> (target: Option<String>)
    ensures
        option_text(target) == link_target(destination@),
{
    if text_has_control(destination) {
        return None;
    }
    let trimmed = trim_text(destination);
    let trimmed = trimmed.as_str();
    let target = if text_begins_with(trimmed, "/") {
        concat_text("file://", trimmed)
    } else if text_begins_with(trimmed, "http://") || text_begins_with(trimmed, "https://")
        || text_begins_with(trimmed, "file://") || text_begins_with(trimmed, "mailto:") {
        trimmed.to_owned()
    } else {
        return None;
    };
    proof {
        reveal_strlit(" ");
    }
    Some(replace_text(target.as_str(), " ", "%20"))
}

/// Whether every character of a text is one that another text holds.
spec fn drawn_from(part: Seq<char>, whole: Seq<char>) -> bool {
    forall|i: int| 0 <= i < part.len() ==> whole.contains(#[trigger] part[i])
}

proof fn lemma_trim_start_part(s: Seq<char>)
    ensures
        drawn_from(trim_start(s), s),
    decreases s.len(),
{
    if s.len() > 0 && is_white(s[0]) {
        lemma_trim_start_part(s.drop_first());
        assert forall|i: int| 0 <= i < trim_start(s).len() implies s.contains(
            #[trigger] trim_start(s)[i],
        ) by {
            let c = trim_start(s.drop_first())[i];
            assert(s.drop_first().contains(c));
            let k = choose|k: int| 0 <= k < s.drop_first().len() && s.drop_first()[k] == c;
            assert(s[k + 1] == c);
        }
    }
}

proof fn lemma_trim_end_part(s: Seq<char>)
    ensures
        drawn_from(trim_end(s), s),
    decreases s.len(),
{
    if s.len() > 0 && is_white(s.last()) {
        lemma_trim_end_part(s.drop_last());
        assert forall|i: int| 0 <= i < trim_end(s).len() implies s.contains(
            #[trigger] trim_end(s)[i],
        ) by {
            let c = trim_end(s.drop_last())[i];
            assert(s.drop_last().contains(c));
            let k = choose|k: int| 0 <= k < s.drop_last().len() && s.drop_last()[k] == c;
            assert(s[k] == c);
        }
    }
}

proof fn lemma_trim_part(s: Seq<char>)
    ensures
        !has_control(s) ==> !has_control(trim(s)),
{
    lemma_trim_start_part(s);
    lemma_trim_end_part(trim_start(s));
    if has_control(trim(s)) {
        let i = choose|i: int| 0 <= i < trim(s).len() && is_control_char(#[trigger] trim(s)[i]);
        let c = trim(s)[i];
        assert(trim_start(s).contains(c));
        let k = choose|k: int| 0 <= k < trim_start(s).len() && trim_start(s)[k] == c;
        assert(s.contains(trim_start(s)[k]));
        let m = choose|m: int| 0 <= m < s.len() && s[m] == c;
        assert(is_control_char(s[m]));
    }
}

/// What holds of a text after its spaces are written out.
proof fn lemma_spaces_out(s: Seq<char>)
    requires
        !has_control(s),
    ensures
        !has_control(replace_all(s, " "@, "%20"@)),
        !replace_all(s, " "@, "%20"@).contains(' '),
    decreases s.len(),
{
    reveal_strlit(" ");
    reveal_strlit("%20");
    let out = replace_all(s, " "@, "%20"@);
    if s.len() > 0 {
        let rest = s.drop_first();
        assert(!has_control(rest)) by {
            if has_control(rest) {
                let i = choose|i: int| 0 <= i < rest.len() && is_control_char(#[trigger] rest[i]);
                assert(is_control_char(s[i + 1]));
            }
        }
        lemma_spaces_out(rest);
        assert(!is_control_char(s[0]));
        assert(s.skip(1) =~= rest);
        let first = if s[0] == ' ' {
            "%20"@
        } else {
            seq![s[0]]
        };
        assert(" "@ =~= seq![' ']);
        if s[0] == ' ' {
            assert(s.take(1) =~= seq![' ']);
        } else {
            assert(s.take(1)[0] == s[0]);
        }
        let later = replace_all(rest, " "@, "%20"@);
        assert(out =~= first + later);
        assert forall|i: int| 0 <= i < out.len() implies !is_control_char(#[trigger] out[i])
            && out[i] != ' ' by {
            if i >= first.len() {
                assert(out[i] == later[i - first.len()]);
                assert(!is_control_char(later[i - first.len()]));
                assert(later.contains(later[i - first.len()]));
            }
        }
    }
}

proof fn lemma_prefix_stays(s: Seq<char>, prefix: Seq<char>)
    requires
        begins_with(s, prefix),
        !prefix.contains(' '),
    ensures
        begins_with(replace_all(s, " "@, "%20"@), prefix),
    decreases prefix.len(),
{
    reveal_strlit(" ");
    let out = replace_all(s, " "@, "%20"@);
    if prefix.len() > 0 {
        assert(s[0] == s.take(prefix.len() as int)[0]);
        assert(prefix.contains(prefix[0]));
        assert(s[0] != ' ');
        assert(s.take(1)[0] == s[0]);
        assert(" "@[0] == ' ');
        let rest = s.drop_first();
        let tail = prefix.drop_first();
        assert(rest.take(tail.len() as int) =~= tail) by {
            assert forall|i: int| 0 <= i < tail.len() implies rest[i] == tail[i] by {
                assert(s.take(prefix.len() as int)[i + 1] == prefix[i + 1]);
            }
        }
        assert(!tail.contains(' ')) by {
            if tail.contains(' ') {
                let i = choose|i: int| 0 <= i < tail.len() && tail[i] == ' ';
                assert(prefix[i + 1] == ' ');
            }
        }
        lemma_prefix_stays(rest, tail);
        let later = replace_all(rest, " "@, "%20"@);
        assert(out =~= seq![s[0]] + later);
        assert(out.take(prefix.len() as int) =~= prefix) by {
            assert forall|i: int| 0 <= i < prefix.len() implies out[i] == prefix[i] by {
                if i > 0 {
                    assert(later.take(tail.len() as int)[i - 1] == tail[i - 1]);
                }
            }
        }
    } else {
        assert(out.take(0) =~= prefix);
    }
}

/// A link target never holds a control character or a space, so it cannot end the
/// escape sequence that it stands in, and it always names a known scheme.
pub proof fn law_link_targets_are_harmless(destination: Seq<char>)
    ensures
        link_target(destination) matches Some(target) ==> !has_control(target) && !target.contains(
            ' ',
        ) && has_known_scheme(target),
{
    let trimmed = trim(destination);
    if !has_control(destination) {
        lemma_trim_part(destination);
        reveal_strlit("file://");
        reveal_strlit("http://");
        reveal_strlit("https://");
        reveal_strlit("mailto:");
        if begins_with(trimmed, "/"@) {
            let full = "file://"@ + trimmed;
            assert(!has_control(full)) by {
                if has_control(full) {
                    let i = choose|i: int|
                        0 <= i < full.len() && is_control_char(#[trigger] full[i]);
                    if i >= 7 {
                        assert(is_control_char(trimmed[i - 7]));
                    }
                }
            }
            lemma_spaces_out(full);
            assert(full.take(7) =~= "file://"@);
            lemma_prefix_stays(full, "file://"@);
        } else if has_known_scheme(trimmed) {
            lemma_spaces_out(trimmed);
            if begins_with(trimmed, "http://"@) {
                lemma_prefix_stays(trimmed, "http://"@);
            } else if begins_with(trimmed, "https://"@) {
                lemma_prefix_stays(trimmed, "https://"@);
            } else if begins_with(trimmed, "file://"@) {
                lemma_prefix_stays(trimmed, "file://"@);
            } else {
                lemma_prefix_stays(trimmed, "mailto:"@);
            }
        }
    }
}

} // verus!
