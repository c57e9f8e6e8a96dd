use herdr_system_notify_bridge::json::{read, Json};
use herdr_system_notify_bridge::state::{reconcile, status_changed, State};

fn doc(text: &str) -> Json {
    read(text).unwrap_or_else(|e| panic!("{}", e))
}

fn agents(list: &[(&str, &str, &str)], focused: &str) -> Json {
    let entries: Vec<String> = list
        .iter()
        .map(|(pane, status, ws)| {
            format!(
                "{{\"pane_id\":\"{}\",\"agent_status\":\"{}\",\"workspace_id\":\"{}\",\"agent\":\"goose\"}}",
                pane, status, ws
            )
        })
        .collect();
    doc(&format!("{{\"focused_workspace_id\":\"{}\",\"agents\":[{}]}}", focused, entries.join(",")))
}

fn event(pane: &str, status: &str) -> Json {
    doc(&format!("{{\"pane_id\":\"{}\",\"agent_status\":\"{}\",\"workspace_id\":\"w1\"}}", pane, status))
}

#[test]
fn nothing_is_known_at_first() {
    let state = State::default();
    assert!(!state.seeded);
    assert_eq!(state.prev.len(), 0);
}

#[test]
fn seeding_adopts_silently() {
    let mut state = State::default();
    let out = reconcile(&agents(&[("a", "blocked", "w1"), ("b", "idle", "w2")], "w9"), &mut state, true);
    assert_eq!(out.recovered.len(), 0);
    assert_eq!(out.live.len(), 2);
    assert_eq!(state.prev.get("a").unwrap(), "blocked");
    assert_eq!(state.prev.get("b").unwrap(), "idle");
    assert!(!state.seeded);
}

#[test]
fn missed_transitions_are_recovered() {
    let mut state = State::default();
    reconcile(&agents(&[("a", "working", "w1"), ("b", "working", "w2"), ("c", "done", "w1")], ""), &mut state, true);
    let out = reconcile(
        &agents(&[("a", "blocked", "w1"), ("b", "done", "w2"), ("c", "blocked", "w1"), ("d", "done", "w1")], "w2"),
        &mut state,
        false,
    );
    assert_eq!(out.recovered.len(), 3);
    let a = out.recovered.get("a").unwrap();
    assert_eq!((a.was.as_str(), a.status.as_str()), ("working", "blocked"));
    assert_eq!(a.toast.as_ref().unwrap().title, "⛔ goose needs you");
    let b = out.recovered.get("b").unwrap();
    assert_eq!(b.status, "done");
    assert!(b.toast.is_none());
    let d = out.recovered.get("d").unwrap();
    assert_eq!(d.was, "");
    assert!(out.recovered.get("c").is_none());
}

#[test]
fn same_snapshot_recovers_nothing_twice() {
    let mut state = State::default();
    let snap = agents(&[("a", "blocked", "w1"), ("b", "done", "w1")], "");
    assert_eq!(reconcile(&snap, &mut state, false).recovered.len(), 2);
    assert_eq!(reconcile(&snap, &mut state, false).recovered.len(), 0);
}

#[test]
fn panes_that_are_not_shown_are_forgotten() {
    let mut state = State::default();
    reconcile(&agents(&[("a", "idle", "w1"), ("b", "idle", "w1")], ""), &mut state, true);
    let out = reconcile(&agents(&[("b", "idle", "w1")], ""), &mut state, false);
    assert!(state.prev.get("a").is_none());
    assert_eq!(state.prev.len(), 1);
    assert!(out.live.get("a").is_none());
    assert!(out.live.get("b").is_some());
}

#[test]
fn status_event_enters_attention_once() {
    let mut state = State::default();
    let (pane, row) = status_changed(&event("a", "blocked"), &mut state).unwrap();
    assert_eq!(pane, "a");
    assert_eq!((row.status.as_str(), row.ws.as_str(), row.agent.as_str()), ("blocked", "w1", "agent"));
    assert!(status_changed(&event("a", "done"), &mut state).is_none());
    assert!(status_changed(&event("a", "working"), &mut state).is_none());
    assert!(status_changed(&event("a", "done"), &mut state).is_some());
}

#[test]
fn delivered_transition_is_not_recovered() {
    let mut state = State::default();
    assert!(status_changed(&event("a", "blocked"), &mut state).is_some());
    assert_eq!(reconcile(&agents(&[("a", "blocked", "w1")], ""), &mut state, false).recovered.len(), 0);
}

#[test]
fn status_event_without_a_pane_changes_nothing() {
    let mut state = State::default();
    assert!(status_changed(&doc("{\"agent_status\":\"blocked\"}"), &mut state).is_none());
    assert!(status_changed(&event("", "blocked"), &mut state).is_none());
    assert_eq!(state.prev.len(), 0);
}

#[test]
fn status_event_without_a_status_is_known_as_empty() {
    let mut state = State::default();
    assert!(status_changed(&doc("{\"pane_id\":\"a\"}"), &mut state).is_none());
    assert_eq!(state.prev.get("a").unwrap(), "");
}
