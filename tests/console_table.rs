use petri::console_table::{Alignment, ColumnCollection, ColumnOptions, CoreBuilder};

#[test]
fn test_simple_table() {
    let key_column = ColumnOptions::new("KEY")
        .alignment(Alignment::Right)
        .spacing(2);
    let value_column = ColumnOptions::new("VALUE").spacing(3);
    let note_column = ColumnOptions::new("NOTE");

    let mut builder = (key_column, value_column, note_column).into_table_builder();
    builder.push_row(
        "first".to_string(),
        "a".to_string(),
        "This is a note".to_string(),
    );
    builder.push_row(
        "second".to_string(),
        "b".to_string(),
        "This is another note".to_string(),
    );

    let table = builder.build();
    assert_eq!(
        table,
        "   KEY  VALUE   NOTE\n first  a       This is a note\nsecond  b       This is another note"
    )
}

#[test]
fn table_without_columns_is_empty() {
    let builder = CoreBuilder::new(vec![]);
    assert_eq!(builder.build(), "");
}

#[test]
fn table_title_only() {
    let builder = CoreBuilder::new(vec![ColumnOptions::new("A"), ColumnOptions::new("BB")]);
    assert_eq!(builder.build(), "A BB");
}

#[test]
fn table_wide_cell_widens_column() {
    let mut builder = CoreBuilder::new(vec![ColumnOptions::new("A"), ColumnOptions::new("B")]);
    builder.push_row(vec!["xyz".to_string(), "1".to_string()]);
    assert_eq!(builder.build(), "A   B\nxyz 1");
}
