use herdr_system_notify_bridge::event::{event_msg, read_event, Msg};
use herdr_system_notify_bridge::json::Json;

#[test]
fn status_event_carries_its_data() {
    let line = "{\"event\":\"pane.agent_status_changed\",\"data\":{\"pane_id\":\"w1:p4\"}}\n";
    assert!(matches!(read_event(line), Some(Msg::Status(data)) if data.text_at("pane_id") == Some("w1:p4")));
}

#[test]
fn status_event_without_data_is_ignored() {
    assert!(read_event("{\"event\":\"pane.agent_status_changed\"}").is_none());
}

#[test]
fn added_panes_are_reported() {
    assert!(matches!(read_event("{\"event\":\"pane_created\"}"), Some(Msg::PaneAdded)));
    assert!(matches!(read_event("{\"event\":\"pane_agent_detected\"}"), Some(Msg::PaneAdded)));
}

#[test]
fn gone_panes_are_named() {
    for kind in ["pane_closed", "pane_exited"] {
        let line = format!("{{\"event\":\"{}\",\"data\":{{\"pane_id\":\"p\"}}}}", kind);
        assert!(matches!(read_event(&line), Some(Msg::PaneGone(pane)) if pane == "p"));
        assert!(read_event(&format!("{{\"event\":\"{}\",\"data\":{{}}}}", kind)).is_none());
    }
}

#[test]
fn other_lines_are_ignored() {
    for line in [
        "", "nope", "{}", "{\"event\":7}", "{\"event\":\"pane.created\"}",
        "{\"event\":\"pane.closed\",\"data\":{\"pane_id\":\"p\"}}",
        "{\"result\":{\"type\":\"subscription_started\"}}",
    ] {
        assert!(read_event(line).is_none(), "{:?}", line);
    }
    assert!(event_msg(Json::Null).is_none());
}
