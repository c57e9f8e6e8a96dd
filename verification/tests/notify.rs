use herdr_system_notify_bridge::json::read;
use herdr_system_notify_bridge::notify::{is_attention, notify, raise, Toast};
use herdr_system_notify_bridge::snapshot::Row;

fn row(status: &str, ws: &str) -> Row {
    Row { status: status.to_string(), ws: ws.to_string(), agent: "goose".to_string() }
}

fn raised(ws: &str, focused: &str) -> Option<Toast> {
    let snap = read("{\"workspaces\":[{\"workspace_id\":\"w2\",\"label\":\"backend\"}]}").ok().unwrap();
    raise("w2:p4", &row("blocked", ws), &snap, focused)
}

#[test]
fn blocked_and_done_want_attention() {
    assert!(is_attention("blocked"));
    assert!(is_attention("done"));
    for status in ["idle", "working", "unknown", "", "Blocked", "done "] {
        assert!(!is_attention(status));
    }
}

#[test]
fn notification_of_a_blocked_agent() {
    let toast = notify("w1:p4", "blocked", "goose", "backend");
    assert_eq!(toast.title, "⛔ goose needs you");
    assert_eq!(toast.subtitle, "backend");
    assert_eq!(toast.message, "→ w1:p4  (cmd+shift+J to jump)");
    assert_eq!(toast.group, "herdr-notify-w1:p4");
    assert_eq!(toast.sound, "Sosumi");
    assert_eq!(toast.record, "notified w1:p4 status=blocked agent=goose ws='backend'");
}

#[test]
fn notification_of_a_finished_agent() {
    let toast = notify("w1:p4", "done", "opencode", "w1");
    assert_eq!(toast.title, "✅ opencode finished");
    assert_eq!(toast.sound, "Glass");
}

#[test]
fn notification_of_another_status() {
    let toast = notify("w1:p4", "idle", "agent", "w1");
    assert_eq!(toast.title, "🔔 agent changed");
    assert_eq!(toast.sound, "default");
}

#[test]
fn arguments_come_in_pairs() {
    let toast = notify("p", "done", "a", "l");
    assert_eq!(
        toast.args(),
        vec![
            "-title", "✅ a finished", "-subtitle", "l", "-message", "→ p  (cmd+shift+J to jump)",
            "-group", "herdr-notify-p", "-sound", "Glass",
        ]
    );
}

#[test]
fn background_pane_raises_a_notification() {
    let toast = raised("w2", "w1").unwrap();
    assert_eq!(toast.title, "⛔ goose needs you");
    assert_eq!(toast.subtitle, "backend");
}

#[test]
fn focused_pane_raises_none() {
    assert!(raised("w2", "w2").is_none());
    assert!(raised("", "").is_none());
}
