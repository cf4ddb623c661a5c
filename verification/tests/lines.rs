use fix_schema::recognize::{
    classify, classify_each, search_each, Line, PatternError, COLUMN_PATTERN, TABLE_PATTERN,
};

fn search(pattern: &str, text: &str) -> Result<Option<Vec<Option<String>>>, PatternError> {
    let mut each = search_each(pattern, &vec![text.to_string()])?;
    assert_eq!(each.len(), 1);
    Ok(each.remove(0))
}

fn classify_line(text: &str) -> Result<Line, PatternError> {
    let mut each = classify_each(&vec![text.to_string()])?;
    assert_eq!(each.len(), 1);
    Ok(each.remove(0))
}

fn groups(texts: &[Option<&str>]) -> Option<Vec<Option<String>>> {
    Some(texts.iter().map(|t| t.map(|s| s.to_string())).collect())
}

fn table(name: &str) -> Line {
    Line::Table { name: name.to_string() }
}

fn column(kind: &str, name: &str, options: &str) -> Line {
    Line::Column { kind: kind.to_string(), name: name.to_string(), options: options.to_string() }
}

#[test]
fn no_match_at_all_is_another_line() {
    assert_eq!(classify(&None, &None), Line::Other);
}

#[test]
fn a_table_match_gives_the_first_group() {
    let found = groups(&[Some("create_table \"users\""), Some("users")]);
    assert_eq!(classify(&found, &None), table("users"));
}

#[test]
fn a_table_match_wins_over_a_column_match() {
    let t = groups(&[Some("create_table \"users\""), Some("users")]);
    let c = groups(&[Some("t.string \"name\""), Some("string"), Some("name"), None, None]);
    assert_eq!(classify(&t, &c), table("users"));
}

#[test]
fn a_column_match_gives_groups_one_two_and_four() {
    let c = groups(&[
        Some("t.string \"name\", limit: 255"),
        Some("string"),
        Some("name"),
        Some(", limit: 255"),
        Some("limit: 255"),
    ]);
    assert_eq!(classify(&None, &c), column("string", "name", "limit: 255"));
}

#[test]
fn absent_options_are_empty() {
    let c = groups(&[Some("t.integer \"age\""), Some("integer"), Some("age"), None, None]);
    assert_eq!(classify(&None, &c), column("integer", "age", ""));
}

#[test]
fn a_missing_group_reads_as_empty_text() {
    assert_eq!(classify(&groups(&[Some("x")]), &None), table(""));
    assert_eq!(classify(&groups(&[]), &None), table(""));
    assert_eq!(classify(&groups(&[Some("x"), None]), &None), table(""));
    assert_eq!(classify(&None, &groups(&[Some("x"), Some("k")])), column("k", "", ""));
    assert_eq!(classify(&None, &groups(&[])), column("", "", ""));
}

#[test]
fn search_reports_the_groups_of_the_leftmost_match() {
    let found = search("(a+)(b)?", "xxaab aaa").unwrap();
    assert_eq!(found, groups(&[Some("aab"), Some("aa"), Some("b")]));
    let found = search("(a+)(b)?", "xxaa aaab").unwrap();
    assert_eq!(found, groups(&[Some("aa"), Some("aa"), None]));
}

#[test]
fn search_finds_nothing_where_nothing_matches() {
    assert_eq!(search("a+", "bbb").unwrap(), None);
    assert_eq!(search(TABLE_PATTERN, "").unwrap(), None);
}

#[test]
fn search_does_not_echo_its_arguments() {
    let found = search("b", "abc").unwrap();
    assert_eq!(found, groups(&[Some("b")]));
}

#[test]
fn each_text_is_searched_in_its_turn() {
    let texts = vec!["ab".to_string(), "".to_string(), "xb".to_string(), "aab".to_string()];
    let found = search_each("(a+)?b", &texts).unwrap();
    assert_eq!(
        found,
        vec![
            groups(&[Some("ab"), Some("a")]),
            None,
            groups(&[Some("b"), None]),
            groups(&[Some("aab"), Some("aa")]),
        ]
    );
}

#[test]
fn searching_no_text_finds_nothing() {
    assert_eq!(search_each("a", &Vec::new()).unwrap(), Vec::new());
}

#[test]
fn a_broken_pattern_is_refused_even_without_text() {
    let refused = search_each("a)", &Vec::new()).unwrap_err();
    assert_eq!(refused.pattern, "a)");
}

#[test]
fn a_broken_pattern_is_refused_whatever_the_texts() {
    let texts = vec!["a)".to_string(), "".to_string()];
    assert_eq!(search_each("a)", &texts).unwrap_err().pattern, "a)");
    assert!(search_each("a\\)", &texts).is_ok());
}

#[test]
fn the_two_patterns_are_accepted() {
    assert!(search_each(TABLE_PATTERN, &Vec::new()).is_ok());
    assert!(search_each(COLUMN_PATTERN, &Vec::new()).is_ok());
    assert!(classify_each(&vec!["(".to_string(), "\\".to_string()]).is_ok());
}

#[test]
fn each_line_is_classified_in_its_turn() {
    let texts = vec![
        "create_table \"users\" do |t|".to_string(),
        "  t.string \"name\", limit: 255".to_string(),
        "end".to_string(),
        "  t.integer \"age\"".to_string(),
    ];
    assert_eq!(
        classify_each(&texts).unwrap(),
        vec![
            table("users"),
            column("string", "name", "limit: 255"),
            Line::Other,
            column("integer", "age", ""),
        ]
    );
    assert_eq!(classify_each(&Vec::new()).unwrap(), Vec::new());
}

#[test]
fn search_refuses_a_broken_pattern() {
    let refused = search("(unclosed", "text").unwrap_err();
    assert_eq!(refused.pattern, "(unclosed");
    assert!(!refused.message.is_empty());
}

#[test]
fn the_table_pattern_captures_the_name() {
    let found = search(TABLE_PATTERN, "  create_table \"users\", force: :cascade do |t|").unwrap();
    assert_eq!(found, groups(&[Some("create_table \"users\""), Some("users")]));
}

#[test]
fn the_column_pattern_captures_kind_name_and_options() {
    let found = search(COLUMN_PATTERN, "    t.string   \"name\",  limit: 255").unwrap();
    assert_eq!(
        found,
        groups(&[
            Some("t.string   \"name\",  limit: 255"),
            Some("string"),
            Some("name"),
            Some(",  limit: 255"),
            Some("limit: 255"),
        ])
    );
}

#[test]
fn a_table_declaration_is_recognised() {
    assert_eq!(classify_line("create_table \"users\"").unwrap(), table("users"));
    assert_eq!(
        classify_line("  create_table \"order_items\", force: :cascade do |t|").unwrap(),
        table("order_items")
    );
}

#[test]
fn a_column_declaration_is_recognised() {
    assert_eq!(
        classify_line("  t.string \"name\", limit: 255").unwrap(),
        column("string", "name", "limit: 255")
    );
    assert_eq!(classify_line("t.integer \"age\"").unwrap(), column("integer", "age", ""));
    assert_eq!(
        classify_line("    t.datetime \"created_at\", null: false").unwrap(),
        column("datetime", "created_at", "null: false")
    );
}

#[test]
fn white_space_before_the_options_is_dropped() {
    assert_eq!(
        classify_line("t.string \"name\",     limit: 255").unwrap(),
        column("string", "name", "limit: 255")
    );
    assert_eq!(
        classify_line("t.string \"name\",\tlimit: 255").unwrap(),
        column("string", "name", "limit: 255")
    );
}

#[test]
fn white_space_after_the_options_is_kept() {
    assert_eq!(
        classify_line("t.string \"name\", limit: 255  ").unwrap(),
        column("string", "name", "limit: 255  ")
    );
}

#[test]
fn options_are_kept_as_written() {
    assert_eq!(
        classify_line("t.string \"email\", limit: 255,   default: \"\",  null: false").unwrap(),
        column("string", "email", "limit: 255,   default: \"\",  null: false")
    );
}

#[test]
fn options_need_white_space_after_the_comma() {
    assert_eq!(
        classify_line("t.string \"name\",limit: 255").unwrap(),
        column("string", "name", "")
    );
    assert_eq!(classify_line("t.string \"name\",").unwrap(), column("string", "name", ""));
    assert_eq!(classify_line("t.string \"name\", ").unwrap(), column("string", "name", ""));
}

#[test]
fn options_of_white_space_alone_keep_its_last_character() {
    assert_eq!(classify_line("t.string \"name\",   ").unwrap(), column("string", "name", " "));
}

#[test]
fn text_that_follows_without_a_comma_is_no_option() {
    assert_eq!(
        classify_line("t.string \"name\" limit: 255").unwrap(),
        column("string", "name", "")
    );
}

#[test]
fn several_blanks_may_stand_between_kind_and_name() {
    assert_eq!(
        classify_line("t.string      \"name\"").unwrap(),
        column("string", "name", "")
    );
}

#[test]
fn other_lines_are_recognised_as_such() {
    assert_eq!(classify_line("").unwrap(), Line::Other);
    assert_eq!(classify_line("   ").unwrap(), Line::Other);
    assert_eq!(classify_line("end").unwrap(), Line::Other);
    assert_eq!(classify_line("# a comment").unwrap(), Line::Other);
    assert_eq!(
        classify_line("ActiveRecord::Schema.define(version: 20160101000000) do").unwrap(),
        Line::Other
    );
    assert_eq!(
        classify_line("  add_index \"users\", [\"email\"], name: \"index_users_on_email\"").unwrap(),
        Line::Other
    );
    assert_eq!(
        classify_line("    t.index [\"user_id\"], name: \"index_posts_on_user_id\"").unwrap(),
        Line::Other
    );
    assert_eq!(classify_line("t.string name").unwrap(), Line::Other);
    assert_eq!(classify_line("t.string\"name\"").unwrap(), Line::Other);
    assert_eq!(classify_line("create_table users").unwrap(), Line::Other);
    assert_eq!(classify_line("create_table  \"users\"").unwrap(), Line::Other);
}

#[test]
fn names_are_made_of_word_characters() {
    assert_eq!(classify_line("create_table \"my-table\"").unwrap(), Line::Other);
    assert_eq!(classify_line("create_table \"\"").unwrap(), Line::Other);
    assert_eq!(classify_line("t.string \"first name\"").unwrap(), Line::Other);
    assert_eq!(classify_line("create_table \"größe_2\"").unwrap(), table("größe_2"));
}

#[test]
fn a_line_with_both_shapes_declares_a_table() {
    assert_eq!(
        classify_line("t.string \"name\", comment: create_table \"users\"").unwrap(),
        table("users")
    );
}

#[test]
fn the_marker_may_stand_anywhere_in_the_line() {
    assert_eq!(classify_line("xx create_table \"a\" create_table \"b\"").unwrap(), table("a"));
    assert_eq!(
        classify_line("  # t.string \"name\", limit: 255").unwrap(),
        column("string", "name", "limit: 255")
    );
    assert_eq!(classify_line("last.string \"name\"").unwrap(), column("string", "name", ""));
}
