use herdr_system_notify_bridge::json::{read, Json};
use herdr_system_notify_bridge::snapshot::{
    agent_rows, focused_ws, snapshot, snapshot_of, ws_label, SNAPSHOT_REQUEST,
};

fn doc(text: &str) -> Json {
    read(text).unwrap_or_else(|e| panic!("{}", e))
}

#[test]
fn snapshot_request_is_one_line_of_json() {
    assert!(SNAPSHOT_REQUEST.ends_with('\n'));
    assert_eq!(SNAPSHOT_REQUEST.matches('\n').count(), 1);
    let request = doc(SNAPSHOT_REQUEST.trim());
    assert_eq!(request.text_at("id"), Some("snap"));
    assert_eq!(request.text_at("method"), Some("session.snapshot"));
    assert!(matches!(request.get("params"), Some(Json::Object(fields)) if fields.is_empty()));
}

#[test]
fn snapshot_is_taken_out_of_the_reply() {
    let line = " {\"id\":\"snap\",\"result\":{\"snapshot\":{\"focused_workspace_id\":\"w1\"}}}\n";
    assert_eq!(focused_ws(&snapshot(line).unwrap()), "w1");
}

#[test]
fn snapshot_is_absent_in_other_lines() {
    for line in ["", "\n", "{}", "{\"result\":{}}", "{\"result\":[]}", "{\"snapshot\":{}}", "nope"] {
        assert!(snapshot(line).is_none(), "{:?}", line);
    }
    assert!(snapshot_of(Json::Null).is_none());
}

#[test]
fn agent_rows_need_a_pane_and_a_status() {
    let snap = doc(
        "{\"agents\":[\
         {\"pane_id\":\"w1:p1\",\"agent_status\":\"idle\",\"workspace_id\":\"w1\",\"agent\":\"goose\"},\
         {\"pane_id\":\"w1:p2\"},{\"agent_status\":\"done\"},{\"pane_id\":3,\"agent_status\":\"done\"},\
         {\"pane_id\":\"w2:p1\",\"agent_status\":\"done\"},7]}",
    );
    let rows = agent_rows(&snap);
    assert_eq!(rows.len(), 2);
    let row = rows.get("w1:p1").unwrap();
    assert_eq!((row.status.as_str(), row.ws.as_str(), row.agent.as_str()), ("idle", "w1", "goose"));
    let row = rows.get("w2:p1").unwrap();
    assert_eq!((row.status.as_str(), row.ws.as_str(), row.agent.as_str()), ("done", "", "agent"));
    assert!(rows.get("w1:p2").is_none());
}

#[test]
fn later_entry_for_a_pane_counts() {
    let snap = doc(
        "{\"agents\":[{\"pane_id\":\"p\",\"agent_status\":\"idle\"},\
         {\"pane_id\":\"p\",\"agent_status\":\"done\"}]}",
    );
    let rows = agent_rows(&snap);
    assert_eq!(rows.len(), 1);
    assert_eq!(rows.get("p").unwrap().status, "done");
}

#[test]
fn agents_that_are_no_list_give_no_rows() {
    for text in ["{}", "[]", "null", "{\"agents\":{}}", "{\"agents\":\"x\"}", "{\"agents\":[]}"] {
        assert_eq!(agent_rows(&doc(text)).len(), 0);
    }
}

#[test]
fn focus_is_empty_where_it_is_not_said() {
    assert_eq!(focused_ws(&doc("{\"focused_workspace_id\":\"w7\"}")), "w7");
    assert_eq!(focused_ws(&doc("{\"focused_workspace_id\":7}")), "");
    assert_eq!(focused_ws(&doc("{}")), "");
}

#[test]
fn label_is_that_of_the_first_entry() {
    let snap = doc(
        "{\"workspaces\":[{\"workspace_id\":\"w1\",\"label\":\"one\"},{\"workspace_id\":\"w2\"},\
         {\"workspace_id\":\"w2\",\"label\":\"late\"},{\"workspace_id\":\"w1\",\"label\":\"again\"}]}",
    );
    assert_eq!(ws_label(&snap, "w1"), "one");
    assert_eq!(ws_label(&snap, "w2"), "w2");
    assert_eq!(ws_label(&snap, "w3"), "w3");
    assert_eq!(ws_label(&doc("{\"workspaces\":7}"), "w1"), "w1");
}
