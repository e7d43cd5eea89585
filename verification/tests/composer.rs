use codeck::composer::{ComposeTarget, Composer, ComposerTokenKind, SkillReference};
use codeck::paths::{is_same_path, path_components};

#[test]
fn composer_edits_cjk_and_emoji_by_grapheme() {
    let mut composer = Composer::default();
    composer.insert("你好🧠");
    composer.backspace();
    assert_eq!(composer.text, "你好");
    composer.move_left();
    composer.delete();
    assert_eq!(composer.text, "你");
}

#[test]
fn composer_moves_vertically_across_wrapped_visual_lines() {
    let mut composer = Composer::default();
    composer.insert("abcdefghij");

    assert!(composer.move_vertical(-1, 6, 2));
    assert_eq!(composer.cursor, 4);
    assert!(composer.move_vertical(1, 6, 2));
    assert_eq!(composer.cursor, composer.text.len());
}

#[test]
fn composer_treats_selected_skill_as_an_atomic_token() {
    let mut composer = Composer::default();
    composer.insert("$doc");
    composer.replace_with_skill(
        0,
        SkillReference {
            name: "documents".to_string(),
            path: "/tmp/documents/SKILL.md".to_string(),
        },
    );
    assert_eq!(composer.text, "$documents ");
    assert_eq!(composer.skills.len(), 1);
    assert_eq!(composer.tokens.len(), 1);

    composer.move_left();
    assert_eq!(composer.cursor, 0);
    composer.move_right();
    assert_eq!(composer.cursor, composer.text.len());
    composer.backspace();
    assert!(composer.text.is_empty());
    assert!(composer.skills.is_empty());
    assert!(composer.tokens.is_empty());
}

#[test]
fn composer_replaces_plain_command_text_before_the_cursor() {
    let mut composer = Composer::default();
    composer.insert("/c");

    composer.replace_plain_text_before_cursor(0, "/clear");

    assert_eq!(composer.text, "/clear");
    assert_eq!(composer.cursor, "/clear".len());
    assert!(composer.tokens.is_empty());
}

#[test]
fn composer_inserts_images_at_the_cursor_and_strips_placeholders_from_prompt() {
    let mut composer = Composer::default();
    composer.insert("before after");
    composer.cursor = "before ".len();
    let image = "/tmp/chart.png".to_string();

    assert!(composer.attach_image(image.clone()));
    assert_eq!(composer.text, "before [Image #1] after");
    assert_eq!(composer.prompt_text(), "before after");
    assert_eq!(composer.images, vec![image]);

    composer.backspace();
    assert_eq!(composer.text, "before after");
    assert!(composer.images.is_empty());
    assert!(composer.tokens.is_empty());
}

#[test]
fn composer_shifts_atomic_tokens_when_editing_before_them() {
    let mut composer = Composer::default();
    composer.attach_image("/tmp/chart.png".to_string());
    composer.cursor = 0;
    composer.insert("look ");

    assert_eq!(composer.tokens[0].start, "look ".len());
    composer.cursor = composer.tokens[0].start;
    composer.delete();
    assert_eq!(composer.text, "look ");
    assert!(composer.images.is_empty());
}

#[test]
fn composer_collapses_pasted_text_but_expands_it_for_the_prompt() {
    let mut composer = Composer::default();
    composer.insert("before after");
    composer.cursor = "before ".len();
    let pasted = "first line\nsecond line".to_string();

    assert!(composer.attach_pasted_text(pasted.clone()));
    assert_eq!(composer.text, "before [Pasted text #1 +2 lines] after");
    assert_eq!(composer.prompt_text(), format!("before {pasted}after"));

    composer.backspace();
    assert_eq!(composer.text, "before after");
    assert!(composer.tokens.is_empty());
}

#[test]
fn an_image_is_attached_only_once() {
    let mut composer = Composer::default();
    assert!(composer.attach_image("/tmp/a.png".to_string()));
    assert!(!composer.attach_image("/tmp/a.png".to_string()));
    assert!(composer.attach_image("/tmp/b.png".to_string()));
    assert_eq!(composer.text, "[Image #1] [Image #2] ");
    assert_eq!(composer.prompt_text(), "");
    assert_eq!(composer.next_image_number, 3);
}

#[test]
fn an_empty_paste_leaves_the_composer_alone() {
    let mut composer = Composer::default();
    assert!(!composer.attach_pasted_text(String::new()));
    assert!(composer.text.is_empty());
    assert!(composer.attach_pasted_text("你好".to_string()));
    assert_eq!(composer.text, "[Pasted text #1 +2 chars] ");
}

#[test]
fn a_token_is_not_entered_from_a_combining_mark() {
    let mut composer = Composer::default();
    composer.attach_image("/tmp/a.png".to_string());
    composer.insert("\u{301}x");
    composer.backspace();
    composer.backspace();
    assert_eq!(composer.text, "[Image #1] ");
    assert_eq!(composer.tokens.len(), 1);
    composer.move_left();
    assert_eq!(composer.cursor, 0);
}

#[test]
fn clearing_the_text_keeps_the_images() {
    let mut composer = Composer::default();
    composer.target = ComposeTarget::Reply;
    composer.insert("look at ");
    composer.attach_image("/tmp/a.png".to_string());
    composer.attach_pasted_text("long text".to_string());
    composer.clear_text_keep_images();
    assert_eq!(composer.text, "[Image #1] ");
    assert_eq!(composer.images, vec!["/tmp/a.png".to_string()]);
    assert_eq!(composer.tokens.len(), 1);
    assert!(matches!(&composer.tokens[0].kind, ComposerTokenKind::Image(path) if path == "/tmp/a.png"));
    assert_eq!(composer.target, ComposeTarget::Reply);
    composer.reset();
    assert!(composer.text.is_empty());
    assert!(composer.images.is_empty());
    assert_eq!(composer.target, ComposeTarget::Reply);
}

#[test]
fn vertical_moves_keep_to_their_column_and_stop_at_the_edges() {
    let mut composer = Composer::default();
    composer.insert("abcdef\nx\nabcdef");
    assert!(composer.move_vertical(-1, 40, 0));
    assert_eq!(composer.cursor, 8);
    assert!(composer.move_vertical(-1, 40, 0));
    assert_eq!(composer.cursor, 6);
    assert!(!composer.move_vertical(-1, 40, 0));
    assert_eq!(composer.cursor, 6);
    composer.move_to_start();
    assert_eq!(composer.cursor, 0);
    composer.move_to_end();
    assert_eq!(composer.cursor, 15);
    assert!(!composer.move_vertical(1, 40, 0));
}

#[test]
fn a_skill_is_listed_once_for_several_tokens() {
    let skill = SkillReference {
        name: "docs".to_string(),
        path: "/skills/docs".to_string(),
    };
    let mut composer = Composer::default();
    composer.replace_with_skill(0, skill.clone());
    let start = composer.cursor;
    composer.replace_with_skill(start, skill);
    assert_eq!(composer.text, "$docs $docs ");
    assert_eq!(composer.skills.len(), 1);
    composer.backspace();
    assert_eq!(composer.skills.len(), 1);
    composer.backspace();
    assert!(composer.skills.is_empty());
    composer.insert("ab");
    composer.replace_with_skill(
        9,
        SkillReference {
            name: "x".to_string(),
            path: "y".to_string(),
        },
    );
    assert_eq!(composer.text, "ab");
    composer.replace_plain_text_before_cursor(9, "z");
    assert_eq!(composer.text, "ab");
}

#[test]
fn one_backspace_takes_a_typed_grapheme_away() {
    let mut composer = Composer::default();
    composer.insert("before ");
    composer.attach_image("/tmp/a.png".to_string());
    composer.insert("behind");
    composer.move_to_start();
    composer.insert("你");
    for grapheme in ["x", "e\u{301}", "👨‍👩‍👧", "\n"] {
        let (text, cursor) = (composer.text.clone(), composer.cursor);
        let starts: Vec<usize> = composer.tokens.iter().map(|token| token.start).collect();
        composer.insert(grapheme);
        composer.backspace();
        assert_eq!(composer.text, text);
        assert_eq!(composer.cursor, cursor);
        assert_eq!(composer.tokens.iter().map(|token| token.start).collect::<Vec<_>>(), starts);
        assert_eq!(composer.images, vec!["/tmp/a.png".to_string()]);
    }
}

#[test]
fn images_are_compared_by_the_components_of_their_paths() {
    let mut composer = Composer::default();
    assert!(composer.attach_image("/tmp/a.png".to_string()));
    for same in ["/tmp//a.png", "/tmp/./a.png", "//tmp/a.png/", "/./tmp/a.png"] {
        assert!(!composer.attach_image(same.to_string()));
    }
    for other in ["tmp/a.png", "./tmp/a.png", "/tmp/../tmp/a.png", "/tmp/b/../a.png"] {
        assert!(composer.attach_image(other.to_string()));
    }
    assert_eq!(composer.images.len(), 5);
    assert!(is_same_path("tmp/a.png", "tmp//a.png/."));
    assert!(is_same_path("./a", ".//a/"));
    assert!(!is_same_path(".", ""));
    assert!(!is_same_path("/", ""));
    assert_eq!(path_components("/a//./b/.."), vec!["/", "a", "b", ".."]);
    assert_eq!(path_components("./a"), vec![".", "a"]);
}

#[test]
fn removing_a_token_forgets_an_image_by_its_path() {
    let mut composer = Composer::default();
    composer.attach_image("/tmp/a.png".to_string());
    composer.images[0] = "/tmp//a.png".to_string();
    composer.backspace();
    assert!(composer.images.is_empty());
    assert!(composer.text.is_empty());
}
