use herdr_system_notify_bridge::json::{read, Json};
use herdr_system_notify_bridge::subscribe::{
    failed_index, judge_reply, lifecycle_types, read_ack, subscribe_reply, subscribe_request, Ack,
    Attempt,
};

fn doc(text: &str) -> Json {
    read(text).unwrap_or_else(|e| panic!("{}", e))
}

fn panes(list: &[&str]) -> Vec<String> {
    list.iter().map(|pane| pane.to_string()).collect()
}

fn gone(index: &str) -> String {
    format!("{{\"error\":{{\"code\":\"pane_not_found\"}},\"id\":\"sub:sub:{}:probe\"}}\n", index)
}

#[test]
fn request_without_panes() {
    assert_eq!(
        subscribe_request(&vec![]),
        "{\"id\":\"sub\",\"method\":\"events.subscribe\",\"params\":{\"subscriptions\":[\
         {\"type\":\"pane.created\"},{\"type\":\"pane.agent_detected\"},{\"type\":\"pane.closed\"},\
         {\"type\":\"pane.exited\"}]}}\n"
    );
}

#[test]
fn request_lists_the_panes_behind_the_lifecycle() {
    let line = subscribe_request(&panes(&["w1:p4", "a\n\"b\""]));
    assert_eq!(line.matches('\n').count(), 1);
    let request = doc(line.trim());
    let subs = request.get("params").and_then(|p| p.get("subscriptions")).and_then(|s| s.as_array()).unwrap();
    assert_eq!(subs.len(), 6);
    for (i, kind) in lifecycle_types().iter().enumerate() {
        assert_eq!(subs[i].text_at("type"), Some(*kind));
        assert!(subs[i].get("pane_id").is_none());
    }
    assert_eq!(subs[4].text_at("type"), Some("pane.agent_status_changed"));
    assert_eq!(subs[4].text_at("pane_id"), Some("w1:p4"));
    assert_eq!(subs[5].text_at("pane_id"), Some("a\n\"b\""));
}

#[test]
fn request_is_what_serde_json_writes() {
    let line = subscribe_request(&panes(&["w1:p4"]));
    let value: serde_json::Value = serde_json::from_str(&line).unwrap();
    assert_eq!(line, format!("{}\n", value));
}

#[test]
fn failed_index_reads_the_position() {
    assert_eq!(failed_index("sub:sub:4:probe"), Some(4));
    assert_eq!(failed_index("req:7:sub:12:probe"), Some(12));
    assert_eq!(failed_index("5:probe"), Some(5));
    assert_eq!(failed_index("sub:sub:+4:probe"), Some(4));
    assert_eq!(failed_index("sub:sub:18446744073709551615:probe"), Some(usize::MAX));
}

#[test]
fn failed_index_of_other_ids_is_none() {
    for id in [
        "", "probe", ":probe", "sub:sub:4", "sub:sub:4:probe:", "sub:sub::probe", "sub:sub:x:probe",
        "sub:sub:-1:probe", "sub:sub: 4:probe", "sub:sub:18446744073709551616:probe",
    ] {
        assert_eq!(failed_index(id), None, "{:?}", id);
    }
}

#[test]
fn failed_index_gives_back_every_position() {
    for request in ["sub", "", "a:b", ":sub:9:probe"] {
        for index in [0usize, 3, 4, 10, 1999, usize::MAX] {
            assert_eq!(failed_index(&format!("{}:sub:{}:probe", request, index)), Some(index));
        }
    }
}

#[test]
fn acknowledged_subscription_starts() {
    let reply = doc("{\"id\":\"sub\",\"result\":{\"type\":\"subscription_started\"}}");
    assert!(matches!(read_ack(&reply, 0), Ack::Started));
    let attempt = subscribe_reply(panes(&["a", "b"]), "{\"result\":{\"type\":\"subscription_started\"}}\n");
    assert!(matches!(attempt, Attempt::Started(left) if left == panes(&["a", "b"])));
}

#[test]
fn vanished_pane_is_dropped() {
    let attempt = subscribe_reply(panes(&["a", "b", "c"]), &gone("5"));
    match attempt {
        Attempt::Retry(left, pane) => {
            assert_eq!(left, panes(&["a", "c"]));
            assert_eq!(pane, "b");
        }
        _ => panic!("no retry"),
    }
}

#[test]
fn position_outside_the_panes_is_unattributable() {
    for index in ["0", "3", "6", "x"] {
        match subscribe_reply(panes(&["a", "b"]), &gone(index)) {
            Attempt::Failed(why) => {
                assert_eq!(why, format!("unattributable subscribe error: {}", gone(index).trim()))
            }
            _ => panic!("no failure"),
        }
    }
    assert!(matches!(read_ack(&doc("{\"error\":{\"code\":\"pane_not_found\"}}"), 2), Ack::Unattributable));
}

#[test]
fn other_answers_are_rejections() {
    for line in ["{}", "{\"error\":{\"code\":\"bad_request\"}}", "{\"result\":{\"type\":\"x\"}}", "[]"] {
        match subscribe_reply(panes(&["a"]), &format!("  {}\r\n", line)) {
            Attempt::Failed(why) => assert_eq!(why, format!("subscribe rejected: {}", line)),
            _ => panic!("no failure"),
        }
    }
    assert!(matches!(
        judge_reply(panes(&["a"]), &Json::Null, "null"),
        Attempt::Failed(why) if why == "subscribe rejected: null"
    ));
}

#[test]
fn answer_that_is_not_json_fails_with_the_complaint() {
    let complaint = serde_json::from_str::<serde_json::Value>("oops").unwrap_err().to_string();
    assert!(matches!(subscribe_reply(panes(&["a"]), "oops\n"), Attempt::Failed(why) if why == complaint));
}

#[test]
fn every_pane_may_vanish_once() {
    let mut left = panes(&["a", "b", "c"]);
    let mut attempts = 1;
    while let Attempt::Retry(fewer, _) = subscribe_reply(left, &gone("4")) {
        left = fewer;
        attempts += 1;
    }
    assert_eq!(attempts, 4);
}
