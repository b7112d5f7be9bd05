//! Text and JSON helpers.
use solite::json::{get_path, parse_path, set_path, Json, PathSegment};
use solite::text::{
    char_index_to_byte_index, decimal_text, has_prefix, join_text, next_word_end, parse_digits,
    parse_int, previous_word_start, repeat_char, replace_char, splice, split_text,
    to_ascii_lowercase_text, to_lowercase_text, trim_spaces,
};

#[test]
fn words_are_runs_between_spaces() {
    assert_eq!(previous_word_start("one  two", 8), 5);
    assert_eq!(previous_word_start("one  two", 5), 0);
    assert_eq!(next_word_end("one  two", 0), 3);
    assert_eq!(next_word_end("one  two", 3), 8);
    assert_eq!(next_word_end("a\u{2003}b", 1), 3);
}

#[test]
fn byte_offsets_follow_characters() {
    assert_eq!(char_index_to_byte_index("aé€😀", 0), 0);
    assert_eq!(char_index_to_byte_index("aé€😀", 2), 3);
    assert_eq!(char_index_to_byte_index("aé€😀", 4), 10);
    assert_eq!(char_index_to_byte_index("aé", 9), 3);
}

#[test]
fn lowercase_follows_unicode() {
    assert_eq!(to_lowercase_text("ÄbC"), "äbc");
    assert_eq!(to_lowercase_text("İ"), "i\u{307}");
    assert_eq!(to_ascii_lowercase_text("ÄbC"), "Äbc");
}

#[test]
fn texts_are_split_and_joined() {
    assert_eq!(split_text("a,b,,c", ','), vec!["a", "b", "", "c"]);
    assert_eq!(split_text("", ','), vec![""]);
    assert_eq!(join_text(&vec!["a".to_string(), "b".to_string()], "; "), "a; b");
    assert_eq!(splice("hello", 1, 3, "EL"), "hELlo");
    assert_eq!(replace_char("it's", '\'', "\\'"), "it\\'s");
    assert_eq!(repeat_char('x', 3), "xxx");
    assert_eq!(decimal_text(0), "0");
    assert_eq!(decimal_text(1204), "1204");
    assert!(has_prefix("class:tag", "class:") && !has_prefix("cl", "class:"));
    assert_eq!(trim_spaces("\u{a0} x y\n"), "x y");
}

#[test]
fn integers_are_read_with_their_sign() {
    assert_eq!(parse_int("-1"), Some(-1));
    assert_eq!(parse_int("+7"), Some(7));
    assert_eq!(parse_int("2147483647"), Some(2147483647));
    assert_eq!(parse_int("2147483648"), None);
    assert_eq!(parse_int("-2147483648"), Some(-2147483648));
    assert_eq!(parse_int("1x"), None);
    assert_eq!(parse_int(""), None);
    assert_eq!(parse_digits("x12", 1), Some(12));
}

#[test]
fn paths_name_keys_and_indices() {
    let path = parse_path("rows.2.name");
    assert_eq!(path.len(), 3);
    assert!(matches!(&path[0], PathSegment::Key(key) if key == "rows"));
    assert!(matches!(path[1], PathSegment::Index(2)));
    let mut tree = Json::Null;
    set_path(&mut tree, &path, Json::Bool(true));
    assert_eq!(get_path(&tree, &path), Some(Json::Bool(true)));
    assert_eq!(get_path(&tree, &parse_path("rows.0")), Some(Json::Null));
    assert_eq!(get_path(&tree, &parse_path("rows.3")), None);
    assert_eq!(tree.duplicate(), tree);
}
