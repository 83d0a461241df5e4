use storage_node::listing::{count_chunks, list_chunks, sort_logs, DirEntry, DirListing, LogFile};

fn file(name: &str) -> DirEntry {
    DirEntry::File(Some(name.to_string()))
}

fn log(name: &str, modified: i128) -> LogFile {
    LogFile { name: name.to_string(), modified }
}

#[test]
fn regular_files_are_counted() {
    let listing = DirListing::Entries(vec![file("0"), DirEntry::Other, DirEntry::File(None), file("x")]);
    assert_eq!(count_chunks(&listing), Ok(3));
    assert_eq!(count_chunks(&DirListing::Entries(vec![])), Ok(0));
}

#[test]
fn chunks_are_listed_in_order() {
    let listing = DirListing::Entries(vec![
        file("10"),
        file("2"),
        file("note.txt"),
        DirEntry::Other,
        DirEntry::File(None),
        file("2"),
        file("0"),
    ]);
    assert_eq!(list_chunks(&listing), Ok(vec![0, 2, 2, 10]));
}

#[test]
fn listings_fail_where_the_directory_does() {
    assert_eq!(count_chunks(&DirListing::Missing).unwrap_err(), "File path does not exist");
    assert_eq!(list_chunks(&DirListing::Missing).unwrap_err(), "File path does not exist");
    let denied = DirListing::ReadFailed("denied".to_string());
    assert_eq!(count_chunks(&denied).unwrap_err(), "Failed to read directory: denied");
    assert_eq!(list_chunks(&denied).unwrap_err(), "Failed to read directory: denied");
    let broken = DirListing::Entries(vec![
        file("1"),
        DirEntry::EntryFailed("gone".to_string()),
        DirEntry::TypeFailed("odd".to_string()),
    ]);
    assert_eq!(count_chunks(&broken).unwrap_err(), "Failed to read entry: gone");
    assert_eq!(list_chunks(&broken).unwrap_err(), "Failed to read entry: gone");
    let odd = DirListing::Entries(vec![DirEntry::TypeFailed("odd".to_string())]);
    assert_eq!(count_chunks(&odd).unwrap_err(), "Failed to get file type: odd");
    assert_eq!(list_chunks(&odd).unwrap_err(), "Failed to get file type: odd");
}

#[test]
fn newest_logs_come_first() {
    let files = vec![log("a", 5), log("b", 9), log("c", 5), log("d", -1), log("e", 9)];
    assert_eq!(sort_logs(&files), ["b", "e", "a", "c", "d"]);
    assert!(sort_logs(&vec![]).is_empty());
}
