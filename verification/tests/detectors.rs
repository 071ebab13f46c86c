use logsift::detect::Detectors;
use logsift::entry::parse_single_entry;

fn detectors() -> Detectors {
    Detectors::new().expect("the detectors compile")
}

#[test]
fn timestamp_shapes() {
    let d = detectors();
    let ts = |s: &str| d.find_timestamp(s);
    assert_eq!(ts("at 2024-01-02T03:04:05 x"), Some("2024-01-02T03:04:05".to_string()));
    assert_eq!(ts("2024-01-02 03:04:05"), Some("2024-01-02 03:04:05".to_string()));
    assert_eq!(ts("2024-01-02T03:04:05.678Z!"), Some("2024-01-02T03:04:05.678Z".to_string()));
    assert_eq!(ts("2024-01-02T03:04:05-07:30"), Some("2024-01-02T03:04:05-07:30".to_string()));
    assert_eq!(ts("2024-01-02T03:04:05+0730"), Some("2024-01-02T03:04:05".to_string()));
    assert_eq!(ts("2024-01-02T03:04:05."), Some("2024-01-02T03:04:05".to_string()));
    assert_eq!(
        ts("a 2024-01-02 03:04:05 b 2025-01-02 03:04:05"),
        Some("2024-01-02 03:04:05".to_string())
    );
    assert_eq!(ts("2024-01-02"), None);
    assert_eq!(ts("2024-1-02T03:04:05"), None);
    assert_eq!(ts("2024-01-02_03:04:05"), None);
    assert_eq!(ts(""), None);
}

#[test]
fn level_words() {
    let d = detectors();
    let lv = |s: &str| d.find_level(s);
    assert_eq!(lv("error"), Some("ERROR".to_string()));
    assert_eq!(lv("[Warn] x"), Some("WARN".to_string()));
    assert_eq!(lv("a warning, an error"), Some("WARNING".to_string()));
    assert_eq!(lv("tRaCe"), Some("TRACE".to_string()));
    assert_eq!(lv("fatal:debug"), Some("FATAL".to_string()));
    assert_eq!(lv("info_x"), None);
    assert_eq!(lv("errors"), None);
    assert_eq!(lv("xdebug"), None);
    assert_eq!(lv(""), None);
}

#[test]
fn json_fragments() {
    let d = detectors();
    assert!(d.finds_json_fragment("x {a} y"));
    assert!(d.finds_json_fragment("{{}"));
    assert!(d.finds_json_fragment("{\n}"));
    assert!(!d.finds_json_fragment("{}"));
    assert!(!d.finds_json_fragment("{ a"));
    assert!(!d.finds_json_fragment("a }"));
    assert!(!d.finds_json_fragment(""));
}

#[test]
fn boundary_is_any_signal() {
    let d = detectors();
    assert!(d.starts_entry("2024-01-02 03:04:05"));
    assert!(d.starts_entry("debug"));
    assert!(d.starts_entry("{x}"));
    assert!(!d.starts_entry("    at socket.connect"));
    assert!(!d.starts_entry(""));
}

#[test]
fn single_entry_defaults() {
    let d = detectors();
    let e = parse_single_entry(&d, "nothing to see", 7);
    assert_eq!(e.id, 7);
    assert_eq!(e.timestamp, None);
    assert_eq!(e.level, "INFO");
    assert_eq!(e.message, "nothing to see");
    assert_eq!(e.raw, "nothing to see");
    assert_eq!(e.metadata.len(), 0);
}

#[test]
fn single_entry_fields() {
    let d = detectors();
    let text = "{\"level\":\"warn\",\"at\":\"2024-03-04T05:06:07Z\",\"n\":[1,{\"k\":null}]}";
    let e = parse_single_entry(&d, text, 0);
    assert_eq!(e.timestamp.as_deref(), Some("2024-03-04T05:06:07Z"));
    assert_eq!(e.level, "WARN");
    assert_eq!(e.message, text);
    assert_eq!(e.metadata.len(), 3);
    assert_eq!(e.metadata.get("level"), Some("\"warn\"".to_string()));
    assert_eq!(e.metadata.get("n"), Some("[1,{\"k\":null}]".to_string()));
    let copy = e.duplicate();
    assert_eq!(copy.id, 0);
    assert_eq!(copy.level, "WARN");
    assert_eq!(copy.timestamp, e.timestamp);
    assert_eq!(copy.metadata.get("at"), Some("\"2024-03-04T05:06:07Z\"".to_string()));
}
