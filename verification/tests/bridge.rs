use herdr_system_notify_bridge::bridge::{
    after_run, run, Action, Cause, Effect, Event, Outcome, Run, BACKOFF,
};
use herdr_system_notify_bridge::event::{read_event, Msg};
use herdr_system_notify_bridge::json::{read, Json};
use herdr_system_notify_bridge::panes::pane_set;
use herdr_system_notify_bridge::state::State;

const STARTED: &str = "{\"id\":\"sub\",\"result\":{\"type\":\"subscription_started\"}}\n";

fn snap(list: &[(&str, &str, &str)], focused: &str) -> Event {
    let entries: Vec<String> = list
        .iter()
        .map(|(pane, status, ws)| {
            format!(
                "{{\"pane_id\":\"{}\",\"agent_status\":\"{}\",\"workspace_id\":\"{}\",\"agent\":\"goose\"}}",
                pane, status, ws
            )
        })
        .collect();
    let text = format!("{{\"focused_workspace_id\":\"{}\",\"agents\":[{}]}}", focused, entries.join(","));
    Event::Snapshot(Some(read(&text).unwrap_or_else(|e| panic!("{}", e))))
}

fn status(pane: &str, status: &str, ws: &str) -> Event {
    let line = format!(
        "{{\"event\":\"pane.agent_status_changed\",\"data\":{{\"pane_id\":\"{}\",\"agent_status\":\"{}\",\"workspace_id\":\"{}\",\"agent\":\"goose\"}}}}",
        pane, status, ws
    );
    Event::Message(read_event(&line).unwrap())
}

fn told(effects: &[Effect]) -> Vec<String> {
    effects
        .iter()
        .map(|effect| match effect {
            Effect::Log(line) => format!("log {}", line),
            Effect::Attention(pane) => format!("attention {}", pane),
            Effect::Show(toast) => format!("show {}", toast.title),
        })
        .collect()
}

fn streaming(state: &mut State, list: &[(&str, &str, &str)]) -> Run {
    let (at, _) = run(Run::Discovering, state, snap(list, ""));
    let (at, _) = run(at, state, Event::Reply(STARTED.to_string()));
    let (at, _) = run(at, state, snap(list, ""));
    assert!(matches!(at, Run::Streaming(_)));
    at
}

fn failure(at: &Run) -> &str {
    match at {
        Run::Ended(Outcome::Failed(why)) => why,
        _ => panic!("not failed"),
    }
}

#[test]
fn first_connection_is_silent_and_subscribes_before_the_baseline() {
    let mut state = State::default();
    let at = Run::Discovering;
    assert!(matches!(at.action(), Action::TakeSnapshot));
    let (at, effects) = run(at, &mut state, snap(&[("a", "blocked", "w1")], "w2"));
    assert!(effects.is_empty());
    assert!(matches!(at.action(), Action::Subscribe(line) if line.contains("\"pane_id\":\"a\"")));
    assert_eq!(state.prev.len(), 0);
    let (at, effects) = run(at, &mut state, Event::Reply(STARTED.to_string()));
    assert!(effects.is_empty());
    assert!(matches!(at.action(), Action::TakeSnapshot));
    let (at, effects) = run(at, &mut state, snap(&[("a", "blocked", "w1")], "w2"));
    assert_eq!(
        told(&effects),
        vec!["log seeded 1 agent panes (no toasts on first sync)", "log subscribed to 1 agent panes"]
    );
    assert!(matches!(at.action(), Action::Receive));
    assert!(state.seeded);
    assert_eq!(state.prev.get("a").unwrap(), "blocked");
}

#[test]
fn failed_snapshots_end_the_connection() {
    let mut state = State::default();
    let (at, _) = run(Run::Discovering, &mut state, Event::Snapshot(None));
    assert_eq!(failure(&at), "initial snapshot failed");
    assert!(matches!(at.action(), Action::Stop));
    let (at, _) = run(Run::Baseline(pane_set(&vec![])), &mut state, Event::Snapshot(None));
    assert_eq!(failure(&at), "baseline snapshot failed");
    assert!(!state.seeded);
}

#[test]
fn server_may_close_instead_of_answering() {
    let mut state = State::default();
    let (at, _) = run(Run::Subscribing(vec![]), &mut state, Event::Closed);
    assert_eq!(failure(&at), "server closed connection during subscribe");
    let (at, _) = run(Run::Subscribing(vec![]), &mut state, Event::Failed("refused".to_string()));
    assert_eq!(failure(&at), "refused");
}

#[test]
fn vanished_pane_is_dropped_and_the_request_repeated() {
    let mut state = State::default();
    let panes = vec!["a".to_string(), "b".to_string()];
    let line = "{\"error\":{\"code\":\"pane_not_found\"},\"id\":\"sub:sub:4:probe\"}";
    let (at, effects) = run(Run::Subscribing(panes), &mut state, Event::Reply(line.to_string()));
    assert_eq!(told(&effects), vec!["log dropping vanished pane a from subscription"]);
    match at.action() {
        Action::Subscribe(line) => {
            assert!(!line.contains("\"pane_id\":\"a\""));
            assert!(line.contains("\"pane_id\":\"b\""));
        }
        _ => panic!("no request"),
    }
}

#[test]
fn rejected_subscription_ends_the_connection() {
    let mut state = State::default();
    let (at, _) = run(Run::Subscribing(vec![]), &mut state, Event::Reply("{}\n".to_string()));
    assert_eq!(failure(&at), "subscribe rejected: {}");
}

#[test]
fn gap_around_a_reconnect_is_closed() {
    let mut state = State::default();
    let list = [("a", "working", "w1"), ("b", "working", "w2")];
    let at = streaming(&mut state, &list);
    let (at, _) = run(at, &mut state, Event::Message(Msg::Disconnected));
    assert_eq!(failure(&at), "event stream disconnected");
    let later = [("a", "blocked", "w1"), ("b", "done", "w2")];
    let (at, _) = run(Run::Discovering, &mut state, snap(&later, "w2"));
    let (at, _) = run(at, &mut state, Event::Reply(STARTED.to_string()));
    let (at, effects) = run(at, &mut state, snap(&later, "w2"));
    assert!(matches!(at, Run::Streaming(_)));
    assert_eq!(
        told(&effects),
        vec![
            "log recovered missed transition a working -> blocked",
            "attention a",
            "show ⛔ goose needs you",
            "log notified a status=blocked agent=goose ws='w1'",
            "log recovered missed transition b working -> done",
            "attention b",
            "log subscribed to 2 agent panes",
        ]
    );
}

#[test]
fn pane_between_discovery_and_baseline_asks_for_another_round() {
    let mut state = State::default();
    let (at, _) = run(Run::Discovering, &mut state, snap(&[("a", "idle", "w1")], ""));
    let (at, _) = run(at, &mut state, Event::Reply(STARTED.to_string()));
    let (at, _) = run(at, &mut state, snap(&[("a", "idle", "w1"), ("b", "idle", "w1")], ""));
    assert!(matches!(at, Run::Ended(Outcome::Resubscribe)));
    assert!(state.seeded);
}

#[test]
fn status_event_in_the_background_is_shown() {
    let mut state = State::default();
    let at = streaming(&mut state, &[("a", "working", "w1")]);
    let (at, effects) = run(at, &mut state, status("a", "blocked", "w1"));
    assert_eq!(told(&effects), vec!["attention a"]);
    assert!(matches!(at.action(), Action::TakeSnapshot));
    let (at, effects) = run(at, &mut state, snap(&[("a", "blocked", "w1")], "w2"));
    assert_eq!(
        told(&effects),
        vec!["show ⛔ goose needs you", "log notified a status=blocked agent=goose ws='w1'"]
    );
    let (at, effects) = run(at, &mut state, status("a", "done", "w1"));
    assert!(effects.is_empty());
    assert!(matches!(at.action(), Action::Receive));
}

#[test]
fn status_event_with_the_focus_is_only_noted() {
    let mut state = State::default();
    let at = streaming(&mut state, &[("a", "working", "w1")]);
    let (at, effects) = run(at, &mut state, status("a", "done", "w1"));
    assert_eq!(told(&effects), vec!["attention a"]);
    let (at, effects) = run(at, &mut state, snap(&[("a", "done", "w1")], "w1"));
    assert!(effects.is_empty());
    assert!(matches!(at, Run::Streaming(_)));
}

#[test]
fn status_event_without_a_snapshot_is_not_shown() {
    let mut state = State::default();
    let at = streaming(&mut state, &[("a", "working", "w1")]);
    let (at, _) = run(at, &mut state, status("a", "done", "w1"));
    let (at, effects) = run(at, &mut state, Event::Snapshot(None));
    assert!(effects.is_empty());
    assert!(matches!(at, Run::Streaming(_)));
}

#[test]
fn new_agent_pane_widens_the_subscription() {
    let mut state = State::default();
    let at = streaming(&mut state, &[("a", "idle", "w1")]);
    let (at, effects) = run(at, &mut state, Event::Message(Msg::PaneAdded));
    assert!(effects.is_empty());
    assert!(matches!(at, Run::Syncing(_, Cause::PaneAdded)));
    let (at, effects) = run(at, &mut state, snap(&[("a", "idle", "w1"), ("b", "idle", "w1")], ""));
    assert_eq!(told(&effects), vec!["log new agent pane b; resubscribing"]);
    assert!(matches!(at, Run::Ended(Outcome::Resubscribe)));
}

#[test]
fn pane_without_an_agent_changes_nothing() {
    let mut state = State::default();
    let at = streaming(&mut state, &[("a", "idle", "w1")]);
    let (at, _) = run(at, &mut state, Event::Message(Msg::PaneAdded));
    let (at, effects) = run(at, &mut state, snap(&[("a", "idle", "w1")], ""));
    assert!(effects.is_empty());
    assert!(matches!(at, Run::Streaming(_)));
}

#[test]
fn silence_leads_to_a_resync() {
    let mut state = State::default();
    let at = streaming(&mut state, &[("a", "working", "w1")]);
    let (at, _) = run(at, &mut state, Event::Timeout);
    assert!(matches!(at, Run::Syncing(_, Cause::Timeout)));
    let (at, effects) = run(at, &mut state, snap(&[("a", "done", "w1"), ("b", "idle", "w1")], "w1"));
    assert_eq!(
        told(&effects),
        vec![
            "log recovered missed transition a working -> done",
            "attention a",
            "log resync found unwatched agent pane b",
        ]
    );
    assert!(matches!(at, Run::Ended(Outcome::Resubscribe)));
}

#[test]
fn resync_without_a_snapshot_goes_on() {
    let mut state = State::default();
    let at = streaming(&mut state, &[("a", "working", "w1")]);
    let (at, _) = run(at, &mut state, Event::Timeout);
    let (at, effects) = run(at, &mut state, Event::Snapshot(None));
    assert!(effects.is_empty());
    assert!(matches!(at, Run::Streaming(_)));
}

#[test]
fn gone_pane_is_forgotten() {
    let mut state = State::default();
    let at = streaming(&mut state, &[("a", "done", "w1"), ("b", "idle", "w1")]);
    let (at, effects) = run(at, &mut state, Event::Message(Msg::PaneGone("a".to_string())));
    assert!(effects.is_empty());
    assert!(state.prev.get("a").is_none());
    match &at {
        Run::Streaming(watched) => {
            assert!(watched.get("a").is_none());
            assert!(watched.get("b").is_some());
        }
        _ => panic!("not streaming"),
    }
    let (_, effects) = run(at, &mut state, status("a", "done", "w1"));
    assert_eq!(told(&effects), vec!["attention a"]);
}

#[test]
fn reader_that_is_gone_ends_the_connection() {
    let mut state = State::default();
    let at = streaming(&mut state, &[]);
    let (at, _) = run(at, &mut state, Event::ReaderClosed);
    assert_eq!(failure(&at), "reader channel closed");
}

#[test]
fn events_that_are_not_awaited_change_nothing() {
    let mut state = State::default();
    let (at, effects) = run(Run::Discovering, &mut state, Event::Timeout);
    assert!(matches!(at, Run::Discovering));
    assert!(effects.is_empty());
    let at = streaming(&mut state, &[("a", "idle", "w1")]);
    let (at, effects) = run(at, &mut state, Event::Snapshot(Some(Json::Null)));
    assert!(matches!(at, Run::Streaming(_)));
    assert!(effects.is_empty());
    let (at, _) = run(Run::Ended(Outcome::Resubscribe), &mut state, Event::Failed("x".to_string()));
    assert!(matches!(at, Run::Ended(Outcome::Resubscribe)));
}

#[test]
fn errors_wait_before_the_next_connection() {
    let (line, delay) = after_run(&Outcome::Failed("reader channel closed".to_string()));
    assert_eq!(line, Some("error: reader channel closed; reconnecting in 3s".to_string()));
    assert_eq!(delay, 3);
    assert_eq!(BACKOFF, 3);
    assert_eq!(after_run(&Outcome::Resubscribe), (None, 0));
}
