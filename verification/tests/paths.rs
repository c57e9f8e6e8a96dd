use herdr_system_notify_bridge::panes::{one_missing, pane_set, PaneMap};
use herdr_system_notify_bridge::paths::{attention_path, home, log_line, log_path, now, sock_path};

#[test]
fn home_has_a_default() {
    assert_eq!(home(Some("/home/me".to_string())), "/home/me");
    assert_eq!(home(Some(String::new())), "");
    assert_eq!(home(None), "/Users/raza.jamil");
}

#[test]
fn files_lie_below_the_home_directory() {
    assert_eq!(sock_path("/h"), "/h/.config/herdr/herdr.sock");
    assert_eq!(log_path("/h"), "/h/.config/herdr/herdr-notify-bridge.log");
    assert_eq!(attention_path("/h"), "/h/.config/herdr/last-attention-pane");
}

#[test]
fn log_lines_start_with_the_time() {
    let time = now(Some("2026-01-02 03:04:05\n".to_string()));
    assert_eq!(time, "2026-01-02 03:04:05");
    assert_eq!(log_line(&time, "hello"), "2026-01-02 03:04:05 hello\n");
    assert_eq!(now(None), "");
    assert_eq!(log_line("", "x"), " x\n");
}

#[test]
fn pane_map_keeps_one_value_per_pane() {
    let mut map: PaneMap<String> = PaneMap::new();
    map.insert("a".to_string(), "1".to_string());
    map.insert("b".to_string(), "2".to_string());
    map.insert("a".to_string(), "3".to_string());
    assert_eq!(map.len(), 2);
    assert_eq!(map.get("a").unwrap(), "3");
    assert_eq!(map.keys(), vec!["a".to_string(), "b".to_string()]);
    map.remove("a");
    map.remove("zzz");
    assert!(map.get("a").is_none());
    assert_eq!((map.key(0), map.value(0).as_str()), ("b", "2"));
    assert_eq!(map.into_entries(), vec![("b".to_string(), "2".to_string())]);
}

#[test]
fn missing_pane_is_found() {
    let all = pane_set(&vec!["a".to_string(), "b".to_string(), "a".to_string()]);
    let some = pane_set(&vec!["a".to_string()]);
    assert_eq!(all.len(), 2);
    assert_eq!(one_missing(&all, &some), Some("b".to_string()));
    assert_eq!(one_missing(&some, &all), None);
}
