use std::path::Path;

use petri::file_path::{Date, FilePathBuilder};

fn day() -> Date {
    Date { year: 2024, month: 3, day: 7 }
}

#[test]
fn file_writer_test_file_path_builder() {
    let mut builder = FilePathBuilder::new("/tmp", "hello", "log", day());
    let path1 = builder.make_path();
    assert_eq!(Path::new(&path1).extension().unwrap(), "log");
    assert!(Path::new(&path1)
        .file_name()
        .unwrap()
        .to_str()
        .unwrap()
        .starts_with("hello-"));

    let path2 = builder.make_path();
    assert_ne!(path1, path2);
}

#[test]
fn file_names_count_conflicts() {
    let mut builder = FilePathBuilder::new("/var/log/", "p-12", "log", day());
    assert_eq!(builder.make_path(), "/var/log/p-12-20240307.log");
    assert_eq!(builder.make_path(), "/var/log/p-12-20240307-2.log");
    assert_eq!(builder.make_path(), "/var/log/p-12-20240307-3.log");
}

#[test]
fn rotation_only_when_date_changes() {
    let mut builder = FilePathBuilder::new("logs", "x", "txt", day());
    builder.make_path();
    assert!(!builder.rotate_if_needed(day()));
    assert_eq!(builder.make_path(), "logs/x-20240307-2.txt");
    assert!(builder.rotate_if_needed(Date { year: 2024, month: 3, day: 8 }));
    assert_eq!(builder.make_path(), "logs/x-20240308.txt");
    assert!(builder.rotate_if_needed(Date { year: 2025, month: 3, day: 8 }));
}
