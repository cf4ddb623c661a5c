use fix_schema::column::Column;

fn column(table: &str, kind: &str, name: &str, options: &str) -> Column {
    Column {
        table: table.to_string(),
        kind: kind.to_string(),
        name: name.to_string(),
        options: options.to_string(),
    }
}

#[test]
fn string_with_limit_255_is_repaired() {
    let c = column("T", "string", "C", "limit: 255");
    assert_eq!(
        c.fix_statement(),
        Some("ALTER TABLE \"T\" ALTER COLUMN \"C\" SET DATA TYPE character varying;".to_string())
    );
}

#[test]
fn string_with_other_limit_is_left_alone() {
    let c = column("T", "string", "C", "limit: 100");
    assert_eq!(c.fix_statement(), None);
}

#[test]
fn text_with_limit_255_is_left_alone() {
    let c = column("T", "text", "C", "limit: 255");
    assert_eq!(c.fix_statement(), None);
}

#[test]
fn kind_must_be_string_exactly() {
    assert_eq!(column("T", "strings", "C", "limit: 255").fix_statement(), None);
    assert_eq!(column("T", "String", "C", "limit: 255").fix_statement(), None);
    assert_eq!(column("T", "", "C", "limit: 255").fix_statement(), None);
    assert_eq!(column("T", "strin", "C", "limit: 255").fix_statement(), None);
}

#[test]
fn limit_is_found_anywhere_in_the_options() {
    let c = column("users", "string", "email", "default: \"\", limit: 255, null: false");
    assert_eq!(
        c.fix_statement(),
        Some(
            "ALTER TABLE \"users\" ALTER COLUMN \"email\" SET DATA TYPE character varying;"
                .to_string()
        )
    );
}

#[test]
fn limit_is_searched_as_plain_text() {
    assert!(column("T", "string", "C", "limit: 2550").fix_statement().is_some());
    assert_eq!(column("T", "string", "C", "limit:255").fix_statement(), None);
    assert_eq!(column("T", "string", "C", "limit:  255").fix_statement(), None);
    assert_eq!(column("T", "string", "C", "Limit: 255").fix_statement(), None);
    assert_eq!(column("T", "string", "C", "limit: 25").fix_statement(), None);
    assert_eq!(column("T", "string", "C", "").fix_statement(), None);
}

#[test]
fn statement_names_table_and_column_as_recorded() {
    let c = column("", "string", "n", "limit: 255");
    assert_eq!(
        c.fix_statement(),
        Some("ALTER TABLE \"\" ALTER COLUMN \"n\" SET DATA TYPE character varying;".to_string())
    );
}

#[test]
fn listing_line_shows_kind_name_and_options() {
    let c = column("users", "string", "name", "limit: 255");
    assert_eq!(c.to_string(), "string 'name', limit: 255");
}

#[test]
fn listing_line_of_a_column_without_options() {
    let c = column("users", "integer", "age", "");
    assert_eq!(c.to_string(), "integer 'age', ");
}

#[test]
fn equal_columns_give_no_message() {
    let a = column("users", "string", "name", "limit: 255");
    let b = column("users", "string", "name", "limit: 255");
    assert_eq!(a.diff(&b), None);
}

#[test]
fn differing_kinds_are_reported() {
    let a = column("users", "string", "name", "limit: 255");
    let b = column("users", "text", "name", "limit: 255");
    assert_eq!(
        a.diff(&b),
        Some("Mismatching types for 'users.name': 'string' vs. 'text'".to_string())
    );
    assert_eq!(
        b.diff(&a),
        Some("Mismatching types for 'users.name': 'text' vs. 'string'".to_string())
    );
}

#[test]
fn differing_options_are_reported() {
    let a = column("users", "string", "name", "limit: 255");
    let b = column("users", "string", "name", "limit: 100, null: false");
    assert_eq!(
        a.diff(&b),
        Some(
            "Mismatching options for 'users.name':\n  'limit: 255'\n  vs.\n  'limit: 100, null: false'"
                .to_string()
        )
    );
}

#[test]
fn kind_is_compared_before_options() {
    let a = column("users", "string", "name", "limit: 255");
    let b = column("users", "text", "name", "null: false");
    assert_eq!(
        a.diff(&b),
        Some("Mismatching types for 'users.name': 'string' vs. 'text'".to_string())
    );
}

#[test]
fn options_are_compared_as_text() {
    let a = column("t", "string", "c", "null: false, limit: 255");
    let b = column("t", "string", "c", "limit: 255, null: false");
    assert_eq!(
        a.diff(&b),
        Some(
            "Mismatching options for 't.c':\n  'null: false, limit: 255'\n  vs.\n  'limit: 255, null: false'"
                .to_string()
        )
    );
    let c = column("t", "string", "c", "limit: 255 ");
    let d = column("t", "string", "c", "limit: 255");
    assert!(c.diff(&d).is_some());
}

#[test]
fn message_names_the_first_column() {
    let a = column("users", "string", "name", "");
    let b = column("people", "text", "title", "");
    assert_eq!(
        a.diff(&b),
        Some("Mismatching types for 'users.name': 'string' vs. 'text'".to_string())
    );
}

#[test]
fn a_clone_equals_its_source() {
    let a = column("users", "string", "name", "limit: 255");
    let b = a.clone();
    assert_eq!(a, b);
    assert_eq!(b.table, "users");
    assert_eq!(b.kind, "string");
    assert_eq!(b.name, "name");
    assert_eq!(b.options, "limit: 255");
}
