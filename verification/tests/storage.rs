use storage_node::models::CHUNK_SIZE;
use storage_node::storage::{
    chunk_file, get_file_key_path, join_path, key_has_levels, key_levels, path_starts_with,
    path_stays_inside, store_chunk, write_chunk, QUIC_CHUNK_STRIDE,
};

fn write_at(file: &mut Vec<u8>, offset: usize, data: &[u8]) {
    if file.len() < offset + data.len() {
        file.resize(offset + data.len(), 0);
    }
    file[offset..offset + data.len()].copy_from_slice(data);
}

fn read_at(file: &[u8], offset: usize, limit: usize) -> Vec<u8> {
    let end = file.len().min(offset + limit);
    file[offset.min(end)..end].to_vec()
}

#[test]
fn paths_are_joined_like_the_standard_library_does() {
    for (a, b) in [("a", "b"), ("a/", "b"), ("", "b"), ("a", "/b"), ("a", "")] {
        let expected = std::path::Path::new(a).join(b);
        assert_eq!(join_path(a, b), expected.to_str().unwrap());
    }
}

#[test]
fn files_lie_two_levels_deep() {
    assert_eq!(get_file_key_path("./storage", "abcdef01"), "./storage/ab/cd/abcdef01");
    assert_eq!(chunk_file("root", "abcdef"), "root/ab/cd/abcdef/abcdef.bin");
    assert_eq!(key_levels("abcdef"), ("ab".to_string(), "cd".to_string()));
}

#[test]
fn keys_need_two_levels() {
    assert!(key_has_levels("abcd"));
    assert!(!key_has_levels("abc"));
    assert!(!key_has_levels(""));
    assert!(!key_has_levels("a\u{e9}bc"));
    assert!(key_has_levels("\u{e9}\u{e9}"));
    assert_eq!(key_levels("\u{e9}\u{e8}"), ("\u{e9}".to_string(), "\u{e8}".to_string()));
}

#[test]
fn chunks_have_their_place() {
    let plan = write_chunk("r", "abcdef", 3);
    assert_eq!(plan.dir, "r/ab/cd/abcdef");
    assert_eq!(plan.bin_path, "r/ab/cd/abcdef/abcdef.bin");
    assert_eq!(plan.meta_path, "r/ab/cd/abcdef/abcdef.meta");
    assert_eq!(plan.offset, 3 * 1_048_576);
    assert_eq!(plan.meta_line, "3\n");
    let plan = store_chunk("r", "abcdef", 3);
    assert_eq!(plan.offset, 768_000);
    assert_eq!(plan.bin_path, "r/ab/cd/abcdef/abcdef.bin");
}

#[test]
fn written_chunks_read_back() {
    let size = CHUNK_SIZE as usize;
    let mut file = Vec::new();
    let full = vec![1u8; size];
    let last = vec![2u8; 10];
    write_at(&mut file, write_chunk("r", "abcd", 1).offset as usize, &last);
    write_at(&mut file, write_chunk("r", "abcd", 0).offset as usize, &full);
    assert_eq!(read_at(&file, 0, size), full);
    assert_eq!(read_at(&file, size, size), last);
    let other = vec![3u8; size];
    write_at(&mut file, write_chunk("r", "abcd", 0).offset as usize, &other);
    assert_eq!(read_at(&file, 0, size), other);
    assert_eq!(read_at(&file, size, size), last);
}

#[test]
fn first_chunk_over_quic_reads_back() {
    let mut file = Vec::new();
    let data = vec![5u8; QUIC_CHUNK_STRIDE as usize];
    write_at(&mut file, store_chunk("r", "abcd", 0).offset as usize, &data);
    assert_eq!(read_at(&file, 0, CHUNK_SIZE as usize), data);
    let second = vec![6u8; QUIC_CHUNK_STRIDE as usize];
    write_at(&mut file, store_chunk("r", "abcd", 1).offset as usize, &second);
    assert_eq!(read_at(&file, 0, QUIC_CHUNK_STRIDE as usize), data);
}

#[test]
fn paths_lie_under_each_other_by_components() {
    let cases = [
        ("log/app", "log", true),
        ("log/../x", "log", true),
        ("/etc/passwd", "log", false),
        ("logs", "log", false),
        ("log//./app", "log", true),
        ("./log/app", "log", false),
        ("/log/app", "/log/", true),
        ("log", "log/app", false),
    ];
    for (path, base, expected) in cases {
        assert_eq!(path_starts_with(path, base), expected);
        assert_eq!(std::path::Path::new(path).starts_with(base), expected);
    }
}

#[test]
fn relative_names_lie_under_their_directory() {
    for name in ["app.log", "../other", "a/b", ""] {
        assert!(path_starts_with(&join_path("log_80", name), "log_80"));
    }
    assert!(!path_starts_with(&join_path("log_80", "/etc/passwd"), "log_80"));
}

#[test]
fn plain_names_stay_inside() {
    for name in ["app.log", "a/b", "./c", "d/./e", "f//g"] {
        let path = join_path("log_80", name);
        assert!(path_starts_with(&path, "log_80"));
        assert!(path_stays_inside(&path, "log_80"));
    }
}

#[test]
fn paths_stay_inside_by_where_they_lead() {
    let cases = [
        ("log/app", "log", true),
        ("log/d/../app", "log", true),
        ("log/d/..", "log", true),
        ("log/../log/app", "log", true),
        ("log/..", "log", false),
        ("log/../x", "log", false),
        ("log/d/../../x", "log", false),
        ("log/../../log/app", "log", false),
        ("log/../logs", "log", false),
        ("/var/log/a", "/var/log", true),
        ("/var/log/../../../var/log/a", "/var/log", true),
        ("/var/log/../x", "/var/log", false),
        ("/x/../var/log/a", "/var/log", false),
        ("./../x", ".", false),
        ("./x", ".", true),
        ("../logs/a", "../logs", true),
        ("../logs/../../logs/a", "../logs", false),
        ("../x", "", false),
        ("x", "", true),
        ("/etc/passwd", "log", false),
    ];
    for (path, dir, expected) in cases {
        assert_eq!(path_stays_inside(path, dir), expected, "{} in {}", path, dir);
    }
}
