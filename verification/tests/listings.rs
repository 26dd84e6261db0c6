use static_serve::access_log::{decimal_text, latency_text, status_is_error, AccessLogRecord};
use static_serve::category::FileCategory;
use static_serve::config::ServerConfig;
use static_serve::listing::{
    breadcrumbs, build_listing, DirRow, EntryKind, EntryMeta, FileRow, ListingData, RawEntry,
};
use static_serve::timefmt::show_time;
use static_serve::sort::{entry_le, sort};

fn entry(name: &str, kind: EntryKind, size: u64, at: i64) -> RawEntry {
    RawEntry { name: Some(name.to_string()), meta: Some(EntryMeta { kind, size, modified_at: Some(at) }) }
}

fn listing(config: &ServerConfig, path: &str, entries: Vec<RawEntry>) -> ListingData {
    build_listing(config, path, &entries).expect("listings are on")
}

fn names_of_dirs(data: &ListingData) -> Vec<String> {
    data.dirs.iter().map(|d| d.name.clone()).collect()
}

fn names_of_files(data: &ListingData) -> Vec<String> {
    data.files.iter().map(|f| f.name.clone()).collect()
}

#[test]
fn directories_come_apart_from_files_and_both_are_sorted() {
    let config = ServerConfig::new("/srv".to_string());
    let entries = vec![
        entry("b.txt", EntryKind::File, 2, 0),
        entry("A", EntryKind::Directory, 0, 0),
        entry("a.txt", EntryKind::File, 1, 0),
    ];
    let data = listing(&config, "/", entries);
    assert_eq!(names_of_dirs(&data), vec!["A"]);
    assert_eq!(names_of_files(&data), vec!["a.txt", "b.txt"]);
}

#[test]
fn the_order_of_enumeration_makes_no_difference() {
    let config = ServerConfig::new("/srv".to_string());
    let a = entry("a.txt", EntryKind::File, 1, 5);
    let b = entry("b.txt", EntryKind::File, 2, 4);
    let c = entry("C", EntryKind::Directory, 0, 3);
    let d = entry("d", EntryKind::Directory, 0, 2);
    let first = listing(&config, "/x", vec![a.clone(), b.clone(), c.clone(), d.clone()]);
    let orders = [
        vec![d.clone(), c.clone(), b.clone(), a.clone()],
        vec![b.clone(), d.clone(), a.clone(), c.clone()],
        vec![c.clone(), a.clone(), d.clone(), b.clone()],
    ];
    for order in orders {
        assert_eq!(listing(&config, "/x", order), first);
    }
}

#[test]
fn rows_carry_size_category_and_time() {
    let config = ServerConfig::new("/srv".to_string());
    let entries = vec![
        entry("song.mp3", EntryKind::File, 4096, 1_546_300_800),
        entry("src", EntryKind::Directory, 0, 86_399),
    ];
    let data = listing(&config, "/music/", entries);
    assert_eq!(
        data.files,
        vec![FileRow {
            name: "song.mp3".to_string(),
            size: 4096,
            category: FileCategory::Audio,
            modified_at: 1_546_300_800,
            modified: "2019/01/01 00:00:00".to_string(),
        }]
    );
    assert_eq!(
        data.dirs,
        vec![DirRow {
            name: "src".to_string(),
            modified_at: 86_399,
            modified: "1970/01/01 23:59:59".to_string(),
        }]
    );
}

#[test]
fn names_sort_by_their_bytes() {
    let config = ServerConfig::new("/srv".to_string());
    let entries = vec![
        entry("b", EntryKind::File, 0, 0),
        entry("ab", EntryKind::File, 0, 0),
        entry("a", EntryKind::File, 0, 0),
        entry("B", EntryKind::File, 0, 0),
        entry("é", EntryKind::File, 0, 0),
        entry("10", EntryKind::File, 0, 0),
        entry("9", EntryKind::File, 0, 0),
    ];
    let data = listing(&config, "/", entries);
    assert_eq!(names_of_files(&data), vec!["10", "9", "B", "a", "ab", "b", "é"]);
}

#[test]
fn equal_names_sort_by_time_and_ties_keep_their_order() {
    let rows = vec![
        FileRow { name: "x".to_string(), size: 3, category: FileCategory::File, modified_at: 7, modified: String::new() },
        FileRow { name: "x".to_string(), size: 1, category: FileCategory::File, modified_at: 5, modified: String::new() },
        FileRow { name: "x".to_string(), size: 2, category: FileCategory::File, modified_at: 5, modified: String::new() },
        FileRow { name: "a".to_string(), size: 4, category: FileCategory::File, modified_at: 9, modified: String::new() },
    ];
    let sizes: Vec<u64> = sort(rows).iter().map(|r| r.size).collect();
    assert_eq!(sizes, vec![4, 1, 2, 3]);
    assert_eq!(sort(Vec::<DirRow>::new()), vec![]);
}

#[test]
fn key_order() {
    assert!(entry_le("a", 0, "b", 0));
    assert!(!entry_le("b", 0, "a", 0));
    assert!(entry_le("a", 9, "ab", 0));
    assert!(!entry_le("ab", 0, "a", 9));
    assert!(entry_le("a", 1, "a", 1));
    assert!(entry_le("a", 1, "a", 2));
    assert!(!entry_le("a", 2, "a", 1));
    assert!(entry_le("", -5, "", -5));
    assert!(entry_le("Z", 0, "a", 0));
}

#[test]
fn dotted_entries_are_hidden_unless_dotfiles_are_shown() {
    let mut config = ServerConfig::new("/srv".to_string());
    let entries = vec![
        entry(".git", EntryKind::Directory, 0, 0),
        entry(".env", EntryKind::File, 1, 0),
        entry("a.b", EntryKind::File, 1, 0),
    ];
    let data = listing(&config, "/", entries.clone());
    assert!(data.dirs.is_empty());
    assert_eq!(names_of_files(&data), vec!["a.b"]);
    config.show_dotfiles = true;
    let data = listing(&config, "/", entries);
    assert_eq!(names_of_dirs(&data), vec![".git"]);
    assert_eq!(names_of_files(&data), vec![".env", "a.b"]);
}

#[test]
fn entries_that_cannot_be_read_are_passed_over() {
    let config = ServerConfig::new("/srv".to_string());
    let entries = vec![
        RawEntry { name: None, meta: Some(EntryMeta { kind: EntryKind::File, size: 1, modified_at: Some(0) }) },
        RawEntry { name: Some("no-meta".to_string()), meta: None },
        RawEntry {
            name: Some("no-time".to_string()),
            meta: Some(EntryMeta { kind: EntryKind::File, size: 1, modified_at: None }),
        },
        entry("socket", EntryKind::Other, 0, 0),
        entry("kept", EntryKind::File, 1, 0),
    ];
    let data = listing(&config, "/", entries);
    assert!(data.dirs.is_empty());
    assert_eq!(names_of_files(&data), vec!["kept"]);
}

#[test]
fn an_empty_directory_has_an_empty_listing() {
    let config = ServerConfig::new("/srv".to_string());
    let data = listing(&config, "/empty", vec![]);
    assert!(data.dirs.is_empty() && data.files.is_empty());
    assert_eq!(data.title, "empty");
}

#[test]
fn with_listings_off_there_is_no_listing() {
    let mut config = ServerConfig::new("/srv".to_string());
    config.show_index = false;
    assert_eq!(build_listing(&config, "/", &vec![entry("a", EntryKind::File, 0, 0)]), None);
}

#[test]
fn breadcrumbs_are_the_decoded_pieces() {
    assert_eq!(breadcrumbs("/a/b%20c/"), vec!["a", "b c"]);
    assert_eq!(breadcrumbs("/"), Vec::<String>::new());
    assert_eq!(breadcrumbs(""), Vec::<String>::new());
    assert_eq!(breadcrumbs("//x//"), vec!["x"]);
    assert_eq!(breadcrumbs("/ok/%ff/z"), vec!["ok", "[Parse URL Error]", "z"]);
    assert_eq!(breadcrumbs("/a%2Fb"), vec!["a/b"]);
}

#[test]
fn the_title_is_the_last_breadcrumb() {
    let config = ServerConfig::new("/srv".to_string());
    assert_eq!(listing(&config, "/", vec![]).title, "/");
    assert_eq!(listing(&config, "/docs/api%20v2/", vec![]).title, "api v2");
    assert_eq!(listing(&config, "/docs/api%20v2/", vec![]).paths, vec!["docs", "api v2"]);
}

#[test]
fn times_are_shown_in_utc() {
    assert_eq!(show_time(0), "1970/01/01 00:00:00");
    assert_eq!(show_time(1_546_300_800), "2019/01/01 00:00:00");
    assert_eq!(show_time(951_782_400 + 3_723), "2000/02/29 01:02:03");
    assert_eq!(show_time(-1), "1969/12/31 23:59:59");
}

#[test]
fn times_out_of_range_are_shown_empty() {
    assert_eq!(show_time(i64::MAX), "");
    assert_eq!(show_time(i64::MIN), "");
}

#[test]
fn decimal_numbers() {
    assert_eq!(decimal_text(0), "0");
    assert_eq!(decimal_text(7), "7");
    assert_eq!(decimal_text(10), "10");
    assert_eq!(decimal_text(404), "404");
    assert_eq!(decimal_text(u64::MAX), "18446744073709551615");
}

#[test]
fn latency_is_padded_to_five() {
    assert_eq!(latency_text(0), "  0ms");
    assert_eq!(latency_text(5), "  5ms");
    assert_eq!(latency_text(12), " 12ms");
    assert_eq!(latency_text(123), "123ms");
    assert_eq!(latency_text(1234), "1234ms");
}

#[test]
fn statuses_from_400_on_are_errors() {
    assert!(!status_is_error(200));
    assert!(!status_is_error(399));
    assert!(status_is_error(400));
    assert!(status_is_error(404));
    assert!(status_is_error(500));
}

#[test]
fn access_lines() {
    let record = AccessLogRecord {
        timestamp: 1_546_300_800,
        peer_addr: "127.0.0.1".to_string(),
        status_code: 200,
        latency_ms: 3,
        request_path: "GET /a%20b HTTP/1.1".to_string(),
    };
    assert_eq!(record.line(), "[2019/01/01 00:00:00] 127.0.0.1 | 200 |   3ms | GET /a b HTTP/1.1");
    let failed = AccessLogRecord {
        timestamp: 0,
        peer_addr: "::1".to_string(),
        status_code: 404,
        latency_ms: 1500,
        request_path: "GET /%ff HTTP/1.1".to_string(),
    };
    assert_eq!(failed.line(), "[1970/01/01 00:00:00] ::1 | 404 | 1500ms | [Parse URL Error]");
}
