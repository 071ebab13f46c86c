use logsift::file::{file_name_of, name_or_unknown, parse_log_file, time_or_unknown};
use logsift::history::{
    get_history, record_access, save_history, upgrade_legacy, HistoryError, HistoryItem,
    HISTORY_LIMIT,
};

fn item(path: &str, at: &str) -> HistoryItem {
    HistoryItem::opened(path.to_string(), at.to_string(), Some(10))
}

fn paths(history: &[HistoryItem]) -> Vec<String> {
    history.iter().map(|h| h.path.clone()).collect()
}

#[test]
fn opened_item_fields() {
    let it = HistoryItem::opened("/var/log/app.log".to_string(), "2024-01-01 10:00:00".to_string(), Some(42));
    assert_eq!(it.path, "/var/log/app.log");
    assert_eq!(it.accessed_at, "2024-01-01 10:00:00");
    assert_eq!(it.file_size, 42);
    assert_eq!(it.file_name, "app.log");
    let it = HistoryItem::opened("/".to_string(), "t".to_string(), None);
    assert_eq!(it.file_size, 0);
    assert_eq!(it.file_name, "unknown");
}

#[test]
fn file_names() {
    assert_eq!(file_name_of("/a/b/c.log"), "c.log");
    assert_eq!(file_name_of("c.log"), "c.log");
    assert_eq!(file_name_of("/a/b/.."), "unknown");
    assert_eq!(file_name_of(""), "unknown");
    assert_eq!(name_or_unknown(None), "unknown");
    assert_eq!(name_or_unknown(Some("x".to_string())), "x");
    assert_eq!(time_or_unknown(None), "Unknown");
    assert_eq!(time_or_unknown(Some("2024-01-01 00:00:00".to_string())), "2024-01-01 00:00:00");
}

#[test]
fn newest_comes_first() {
    let h = record_access(Vec::new(), item("/a", "1"));
    let h = record_access(h, item("/b", "2"));
    let h = record_access(h, item("/c", "3"));
    assert_eq!(paths(&h), vec!["/c", "/b", "/a"]);
}

#[test]
fn reopened_path_moves_to_front_once() {
    let h = vec![item("/a", "1"), item("/b", "2"), item("/a", "0"), item("/c", "3")];
    let h = record_access(h, item("/a", "9"));
    assert_eq!(paths(&h), vec!["/a", "/b", "/c"]);
    assert_eq!(h[0].accessed_at, "9");
}

#[test]
fn history_is_cut_to_the_limit() {
    assert_eq!(HISTORY_LIMIT, 20);
    let mut h = Vec::new();
    for i in 0..25 {
        h = record_access(h, item(&format!("/f{}", i), "t"));
        assert_eq!(h.len(), std::cmp::min(i + 1, 20));
    }
    assert_eq!(h[0].path, "/f24");
    assert_eq!(h[19].path, "/f5");
    let h = record_access(h, item("/f5", "again"));
    assert_eq!(h.len(), 20);
    assert_eq!(h[0].path, "/f5");
    assert_eq!(h[1].path, "/f24");
    assert_eq!(h[19].path, "/f6");
}

#[test]
fn longer_history_is_cut_too() {
    let h: Vec<HistoryItem> = (0..30).map(|i| item(&format!("/g{}", i), "t")).collect();
    let h = record_access(h, item("/new", "t"));
    assert_eq!(h.len(), 20);
    assert_eq!(h[0].path, "/new");
    assert_eq!(h[19].path, "/g18");
}

#[test]
fn unreadable_history_counts_as_empty() {
    let h = save_history(None, None, item("/a", "1"));
    assert_eq!(paths(&h), vec!["/a"]);
    let h = save_history(Some(h), None, item("/b", "2"));
    assert_eq!(paths(&h), vec!["/b", "/a"]);
}

#[test]
fn legacy_history_is_upgraded_on_save() {
    let legacy = vec![("/a".to_string(), Some(3)), ("/b".to_string(), None)];
    let h = save_history(None, Some(legacy), item("/c", "now"));
    assert_eq!(paths(&h), vec!["/c", "/a", "/b"]);
    assert_eq!(h[0].accessed_at, "now");
    assert_eq!(h[0].file_name, "c");
    assert_eq!(h[1].accessed_at, "Unknown");
    assert_eq!(h[1].file_size, 3);
    assert_eq!(h[1].file_name, "a");
    assert_eq!(h[2].accessed_at, "Unknown");
    assert_eq!(h[2].file_size, 0);
}

#[test]
fn legacy_path_opened_again_is_kept_once() {
    let legacy = vec![("/a".to_string(), None), ("/c".to_string(), None), ("/b".to_string(), None)];
    let h = save_history(None, Some(legacy), item("/c", "now"));
    assert_eq!(paths(&h), vec!["/c", "/a", "/b"]);
    assert_eq!(h[0].accessed_at, "now");
}

#[test]
fn current_history_wins_over_legacy_on_save() {
    let legacy = vec![("/old".to_string(), None)];
    let h = save_history(Some(vec![item("/a", "1")]), Some(legacy), item("/b", "2"));
    assert_eq!(paths(&h), vec!["/b", "/a"]);
}

#[test]
fn slash_path_is_named_by_what_follows_its_last_slash() {
    assert_eq!(file_name_of("/var/log/app.log"), "app.log");
    assert_eq!(file_name_of("rel/x.tar.gz"), "x.tar.gz");
    assert_eq!(file_name_of("a/b c"), "b c");
    assert_eq!(file_name_of("/top"), "top");
    assert_eq!(file_name_of("./here"), "here");
    assert_eq!(file_name_of("a/./b"), "b");
    assert_eq!(file_name_of("a/..b"), "..b");
    assert_eq!(file_name_of("no-slash_at.all"), "no-slash_at.all");
    let f = parse_log_file("/var/log/app.log".to_string(), "", 0, None).unwrap();
    assert_eq!(f.name, "app.log");
}

#[test]
fn plain_name_is_its_own_file_name() {
    for path in ["app", "log2024", "X", "unknown", "7"] {
        assert_eq!(file_name_of(path), path);
    }
}

#[test]
fn file_name_is_never_empty_and_holds_no_slash() {
    for path in ["/var/log/app.log", "logs/today/", "a//b", "a/b/.", "/", "..", "", ".", "a/.."] {
        let name = file_name_of(path);
        assert!(!name.is_empty(), "{:?}", path);
        assert!(!name.contains('/'), "{:?} {:?}", path, name);
    }
    assert_eq!(file_name_of("a//b"), "b");
}

#[test]
fn legacy_paths_are_upgraded() {
    let h = upgrade_legacy(vec![("/x/one.log".to_string(), Some(5)), ("/two".to_string(), None)]);
    assert_eq!(h.len(), 2);
    assert_eq!(h[0].path, "/x/one.log");
    assert_eq!(h[0].file_name, "one.log");
    assert_eq!(h[0].file_size, 5);
    assert_eq!(h[0].accessed_at, "Unknown");
    assert_eq!(h[1].path, "/two");
    assert_eq!(h[1].file_size, 0);
    assert_eq!(h[1].accessed_at, "Unknown");
    let l = HistoryItem::from_legacy("/p/q".to_string(), Some(1));
    assert_eq!(l.accessed_at, "Unknown");
    assert_eq!(l.file_name, "q");
}

#[test]
fn current_shape_wins_over_legacy() {
    let got = get_history(Some(vec![item("/a", "1")]), Some(vec![("/b".to_string(), None)]));
    assert_eq!(paths(&got.unwrap()), vec!["/a"]);
    let got = get_history(None, Some(vec![("/b".to_string(), Some(3))]));
    let got = got.unwrap();
    assert_eq!(paths(&got), vec!["/b"]);
    assert_eq!(got[0].accessed_at, "Unknown");
    let got = get_history(Some(Vec::new()), None);
    assert_eq!(got.unwrap().len(), 0);
}

#[test]
fn neither_shape_is_an_error() {
    match get_history(None, None) {
        Err(e) => {
            assert_eq!(e, HistoryError::Undecodable);
            assert_eq!(e.message(), "Failed to parse history file");
        }
        Ok(_) => panic!("an undecodable document gave a history"),
    }
}

#[test]
fn log_file_snapshot() {
    let f = parse_log_file(
        "/var/log/app.log".to_string(),
        "INFO one\nERROR two\n  more",
        27,
        Some("2024-01-01 10:00:00".to_string()),
    )
    .unwrap();
    assert_eq!(f.name, "app.log");
    assert_eq!(f.path, "/var/log/app.log");
    assert_eq!(f.size, 27);
    assert_eq!(f.last_modified, "2024-01-01 10:00:00");
    assert_eq!(f.entries.len(), 2);
    assert_eq!(f.entries[1].message, "ERROR two\n  more");
    let f = parse_log_file("..".to_string(), "", 0, None).unwrap();
    assert_eq!(f.name, "unknown");
    assert_eq!(f.last_modified, "Unknown");
    assert_eq!(f.entries.len(), 0);
}

#[test]
fn file_name_is_a_piece_of_the_path_or_unknown() {
    for path in ["/var/log/app.log", "logs/today/", "a/b/./", "x", "/", "..", "", "dir/.."] {
        let name = file_name_of(path);
        assert!(name == "unknown" || path.contains(name.as_str()), "{:?} {:?}", path, name);
    }
    assert_eq!(file_name_of("logs/today/"), "today");
    assert_eq!(file_name_of("a/b/./"), "b");
}
