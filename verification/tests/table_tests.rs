use dfrs::table;
use dfrs::table::FieldAlign;
use dfrs::table::Table;

#[test]
fn test() {
    assert!(true);
}

#[test]
fn test_padding() {
    assert_eq!(
        table::Table::padding("left", 8, &table::FieldAlign::Left),
        "left    "
    );
    assert_eq!(
        table::Table::padding("right", 8, &table::FieldAlign::Right),
        "   right"
    );
    assert_eq!(
        table::Table::padding("center", 8, &table::FieldAlign::Center),
        " center "
    );
    assert_eq!(
        table::Table::padding("center", 9, &table::FieldAlign::Center),
        " center  "
    );
}

#[test]
fn test_whitespace() {
    assert_eq!(3, table::Table::whitespace(3).len());
    assert_eq!(0, table::Table::whitespace(0).len());
    assert_eq!(10, table::Table::whitespace(10).len());
    assert_eq!(13, table::Table::whitespace(13).len());
}

#[test]
fn test_table_to_string() {
    let header = vec!["Username", "age", "email"];
    let mut table = Table::new(&header);
    table.set_align(FieldAlign::Left);
    table.set_field_align("age", FieldAlign::Right);
    table.add_row(&vec!["Harry", "15", "harry@163.com"]);
    table.add_row(&vec!["Ron", "15", "ron@163.com"]);
    table.add_row(&vec!["Hermione", "15", "hermione@163.com"]);
    assert_eq!(
        table.to_string(),
        format!(
            "{}\n{}\n{}\n{}",
            "Username age email           ",
            "Harry     15 harry@163.com   ",
            "Ron       15 ron@163.com     ",
            "Hermione  15 hermione@163.com",
        )
    );
}

#[test]
fn test_table_to_string_partial() {
    let header = vec!["Username", "age", "email"];
    let mut table = Table::new(&header);
    table.set_align(FieldAlign::Left);
    table.set_field_align("age", FieldAlign::Right);
    table.add_row(&vec!["Harry", "15", "harry@163.com"]);
    table.add_row(&vec!["Ron", "15", "ron@163.com"]);
    let selected = vec!["email".to_string(), "Username".to_string()];
    assert_eq!(
        table.to_string_partial(&selected),
        format!(
            "{}\n{}\n{}",
            "email         Username",
            "harry@163.com Harry   ",
            "ron@163.com   Ron     ",
        )
    );
}

#[test]
fn test_table_partial_skips_unknown_names() {
    let header = vec!["a", "bb"];
    let mut table = Table::new(&header);
    table.add_row(&vec!["x", "yy"]);
    let selected = vec!["nope".to_string(), "bb".to_string()];
    assert_eq!(table.to_string_partial(&selected), "bb\nyy");
}

#[test]
fn test_set_field_align_unknown_name_changes_nothing() {
    let header = vec!["a", "bb"];
    let mut table = Table::new(&header);
    table.add_row(&vec!["x", "yy"]);
    let before = table.to_string();
    table.set_field_align("missing", FieldAlign::Right);
    assert_eq!(table.to_string(), before);
}

#[test]
fn test_table_is_empty() {
    let header = vec!["a"];
    let mut table = Table::new(&header);
    assert!(table.is_empty());
    table.add_row(&vec!["x"]);
    assert!(!table.is_empty());
}
