use feedback_ui::files::{File, FileOrFolder, Folder};
use feedback_ui::textfmt::{join_path, name_line, question_line, truncate_middle, u64_to_string};

fn file(name: &str) -> FileOrFolder {
    FileOrFolder::File(File {
        name: String::from(name),
    })
}

fn folder(name: &str, num_descendants: u64) -> FileOrFolder {
    FileOrFolder::Folder(Folder {
        name: String::from(name),
        num_descendants,
    })
}

#[test]
fn decimal_rendering() {
    assert_eq!(u64_to_string(0), "0");
    assert_eq!(u64_to_string(7), "7");
    assert_eq!(u64_to_string(42), "42");
    assert_eq!(u64_to_string(1234567890), "1234567890");
    assert_eq!(u64_to_string(u64::MAX), "18446744073709551615");
}

#[test]
fn file_question_long_and_short() {
    assert_eq!(question_line(&file("a.txt"), 17), "Delete this file?");
    assert_eq!(question_line(&file("a.txt"), 10), "Delete?");
    assert_eq!(question_line(&file("a.txt"), 16), "Delete?");
    assert_eq!(question_line(&file("a.txt"), 3), "Delete?");
}

#[test]
fn folder_question_long_and_short() {
    assert_eq!(
        question_line(&folder("stuff", 42), 31),
        "Delete folder with 42 children?"
    );
    assert_eq!(
        question_line(&folder("stuff", 42), 100),
        "Delete folder with 42 children?"
    );
    // one column short of the full wording
    assert_eq!(question_line(&folder("stuff", 42), 30), "Delete folder?");
    // exactly the short wording's length
    assert_eq!("Delete folder?".len(), 14);
    assert_eq!(question_line(&folder("stuff", 42), 14), "Delete folder?");
}

#[test]
fn joining_paths() {
    assert_eq!(
        join_path(&String::from("/a/b"), &String::from("c.txt")),
        "/a/b/c.txt"
    );
    assert_eq!(
        join_path(&String::from("/a/b/"), &String::from("c.txt")),
        "/a/b/c.txt"
    );
    assert_eq!(join_path(&String::from(""), &String::from("c.txt")), "c.txt");
}

#[test]
fn truncation_keeps_exact_width() {
    let name = "very-long-filename-that-does-not-fit";
    let cut = truncate_middle(name, 20);
    assert_eq!(cut.len(), 20);
    assert!(cut.contains("[..]"));
    assert_eq!(cut, "very-lon[..]-not-fit");
    // a name that already fits is untouched
    assert_eq!(truncate_middle("short", 20), "short");
    // widths at and below the marker's own length still fit exactly
    assert_eq!(truncate_middle(name, 4), "[..]");
    assert_eq!(truncate_middle(name, 2), "[.");
}

#[test]
fn name_line_prefers_full_path() {
    let path = String::from("/a/b");
    let name = String::from("c.txt");
    assert_eq!(name_line(&path, &name, 50), "/a/b/c.txt");
}

#[test]
fn name_line_falls_back_to_truncated_name() {
    let path = String::from("/a/b");
    let name = String::from("very-long-filename-that-does-not-fit");
    let full = "/a/b/very-long-filename-that-does-not-fit";
    let usable = 20u16;
    assert!((usable as usize) < full.len());
    let line = name_line(&path, &name, usable);
    assert_eq!(line.len(), usable as usize);
    assert!(line.contains("[..]"));
    assert_eq!(line, truncate_middle(&name, usable));
}
