//! What holds of the results of calls, in terms of what is handed to them.
use vstd::prelude::*;

use crate::bridge::{
    after_run, effects_of, run, stepped, Action, Effect, Event, Outcome, Run,
};
use crate::event::{event_msg, read_event, Msg};
use crate::json::{json_read, json_written, Json, JsonView};
use crate::laws_doc::{
    holds, lacks, last_about, law_focus_is_what_the_snapshot_says,
    law_kind_decides_the_message, law_label_is_of_the_first_entry, law_reply_holds_the_snapshot,
    law_row_is_of_the_last_entry, none_about, row_says, says, says_no,
};
use crate::laws_notify::{
    called, calls, focus_says, known_as, law_attention_is_blocked_or_done,
    law_raised_outside_the_focus, law_recovered_is_what_calls_now,
    law_status_event_is_about_its_pane, law_status_event_without_a_pane,
    law_toast_says_what_happened, toast_says,
};
use crate::laws_subscribe::{asks_for, law_request_line_asks_for_every_pane};
use crate::laws_text::{is_core, law_trimming_takes_white_space_off};
use crate::notify::{is_attention, notify, raise, Toast};
use crate::panes::PaneMap;
use crate::paths::{attention_path, home, log_line, log_path, now, sock_path};
use crate::snapshot::{
    agent_rows, focused_ws, snapshot, snapshot_label, snapshot_of, snapshot_rows, ws_label, Row,
};
use crate::state::{reconcile, status_changed, Reconciled, State};
use crate::subscribe::{ids, request, subscribe_request};
use crate::text::{trim, trimmed};

verus! {

/// The focus that is read from a snapshot is the text in its field `focused_workspace_id`, whatever
/// its other fields are, and empty where there is no such text.
pub proof fn law_focus_is_read_as_it_stands(snap: &Json, focused: Seq<char>, ws: String)
    requires
        call_ensures(focused_ws, (snap,), ws),
    ensures
        says(snap@, "focused_workspace_id"@, focused) ==> ws@ == focused,
        says_no(snap@, "focused_workspace_id"@) ==> ws@.len() == 0,
{
    law_focus_is_what_the_snapshot_says(snap@, focused);
}

/// The label that is read for a workspace is the one in the first entry with its id, and the id
/// itself where that entry has none or where there is no such entry.
pub proof fn law_label_is_read_from_the_first_entry(
    snap: &Json,
    ws: &str,
    label: String,
    entries: Seq<JsonView>,
    i: int,
    text: Seq<char>,
)
    requires
        call_ensures(ws_label, (snap, ws), label),
        holds(snap@, "workspaces"@, JsonView::Array(entries)),
        0 <= i <= entries.len(),
        forall|j: int| 0 <= j < i ==> !says(#[trigger] entries[j], "workspace_id"@, ws@),
        i < entries.len() ==> says(entries[i], "workspace_id"@, ws@),
    ensures
        i < entries.len() && says(entries[i], "label"@, text) ==> label@ == text,
        i == entries.len() || says_no(entries[i], "label"@) ==> label@ == ws@,
{
    law_label_is_of_the_first_entry(snap@, entries, i, ws@, text);
}

/// The rows that are read from a snapshot are those of the last entries about each pane, and of no
/// other pane.
pub proof fn law_rows_are_read_from_the_last_entries(
    snap: &Json,
    rows: PaneMap<Row>,
    entries: Seq<JsonView>,
    i: int,
    pane: Seq<char>,
    status: Seq<char>,
)
    requires
        call_ensures(agent_rows, (snap,), rows),
        holds(snap@, "agents"@, JsonView::Array(entries)),
    ensures
        last_about(entries, i, pane, status) ==> rows@.contains_key(pane) && row_says(
            rows@[pane],
            entries[i],
            status,
        ),
        none_about(entries, pane) ==> !rows@.contains_key(pane),
{
    law_row_is_of_the_last_entry(snap@, entries, i, pane, status);
}

/// The snapshot that is taken from a reply is the document in the field `snapshot` of its field
/// `result`, and there is none where one of these is missing. A line is read without the white space
/// around it, and one that is not JSON gives none.
pub proof fn law_snapshot_is_taken_from_the_reply(
    reply: Json,
    line: &str,
    result: JsonView,
    doc: JsonView,
    taken: Option<Json>,
    read: Option<Json>,
)
    requires
        call_ensures(snapshot_of, (reply,), taken),
        call_ensures(snapshot, (line,), read),
    ensures
        holds(reply@, "result"@, result) && holds(result, "snapshot"@, doc) ==> taken is Some
            && taken->Some_0@ == doc,
        lacks(reply@, "result"@) ==> taken is None,
        holds(reply@, "result"@, result) && lacks(result, "snapshot"@) ==> taken is None,
        json_read(trimmed(line@)) == Ok::<JsonView, Seq<char>>(reply@) && taken is Some ==> read
            is Some && read->Some_0@ == taken->Some_0@,
        json_read(trimmed(line@)) == Ok::<JsonView, Seq<char>>(reply@) && taken is None ==> read
            is None,
        json_read(trimmed(line@)) is Err ==> read is None,
{
    law_reply_holds_the_snapshot(reply@, result, doc);
}

/// The message of an event is decided by its kind. An event of a pane that was created, or that an
/// agent was detected in, is that a pane was added, whatever its other fields are.
pub proof fn law_message_is_of_the_kind(
    event: Json,
    msg: Option<Msg>,
    kind: Seq<char>,
    data: JsonView,
    pane: Seq<char>,
)
    requires
        call_ensures(event_msg, (event,), msg),
        says(event@, "event"@, kind),
    ensures
        kind == "pane_created"@ || kind == "pane_agent_detected"@ ==> msg == Some(Msg::PaneAdded),
        msg == Some(Msg::PaneAdded) ==> kind == "pane_created"@ || kind == "pane_agent_detected"@,
        kind == "pane.agent_status_changed"@ && holds(event@, "data"@, data) ==> msg is Some
            && msg->Some_0 is Status && msg->Some_0->Status_0@ == data,
        (kind == "pane_closed"@ || kind == "pane_exited"@) && holds(event@, "data"@, data) && says(
            data,
            "pane_id"@,
            pane,
        ) ==> msg is Some && msg->Some_0 is PaneGone && msg->Some_0->PaneGone_0@ == pane,
        msg is Some && msg->Some_0 is Status ==> kind == "pane.agent_status_changed"@,
        msg is Some && msg->Some_0 is PaneGone ==> kind == "pane_closed"@ || kind
            == "pane_exited"@,
        !(msg == Some(Msg::Disconnected)),
{
    law_kind_decides_the_message(event@, kind, data, pane);
}

/// The message in a line is that of the event that the line holds, without the white space around
/// it, and there is none in a line that is not JSON.
pub proof fn law_message_is_read_from_the_line(
    line: &str,
    event: Json,
    msg: Option<Msg>,
    read: Option<Msg>,
)
    requires
        call_ensures(event_msg, (event,), msg),
        call_ensures(read_event, (line,), read),
    ensures
        json_read(trimmed(line@)) == Ok::<JsonView, Seq<char>>(event@) ==> (msg is Some <==> read
            is Some) && (msg is Some ==> msg->Some_0@ == read->Some_0@),
        json_read(trimmed(line@)) is Err ==> read is None,
{
}

/// The line of a subscription request holds one document, which asks for every pane, and ends with
/// the only line feed in it.
pub proof fn law_request_line_is_one_document(panes: &Vec<String>, line: String)
    requires
        call_ensures(subscribe_request, (panes,), line),
    ensures
        line@.len() > 0,
        line@.last() == '\n',
        !line@.drop_last().contains('\n'),
        json_read(line@.drop_last()) is Ok,
        asks_for(json_read(line@.drop_last())->Ok_0, panes@.map_values(|pane: String| pane@)),
{
    reveal_strlit("\n");
    let text = json_written(request(ids(panes@)));
    assert(line@.drop_last() =~= text);
    law_request_line_asks_for_every_pane(ids(panes@), text);
}

/// What a connection does next: it takes a snapshot before it subscribes, for the baseline, to judge
/// and to compare; it subscribes with a line that asks for every pane; it waits for events on the
/// stream; and it stops at its end.
pub proof fn law_action_of_each_stage(at: &Run, action: Action, panes: Vec<String>)
    requires
        call_ensures(Run::action, (at,), action),
    ensures
        *at is Discovering || *at is Baseline || *at is Judging || *at is Syncing <==> action
            is TakeSnapshot,
        *at is Streaming <==> action is Receive,
        *at is Ended <==> action is Stop,
        *at is Subscribing <==> action is Subscribe,
        *at == Run::Subscribing(panes) ==> ({
            let line = action->Subscribe_0@;
            &&& line.len() > 0
            &&& line.last() == '\n'
            &&& !line.drop_last().contains('\n')
            &&& json_read(line.drop_last()) is Ok
            &&& asks_for(
                json_read(line.drop_last())->Ok_0,
                panes@.map_values(|pane: String| pane@),
            )
        }),
{
    reveal_strlit("\n");
    if *at == Run::Subscribing(panes) {
        let text = json_written(request(ids(panes@)));
        assert(action->Subscribe_0@.drop_last() =~= text);
        law_request_line_asks_for_every_pane(ids(panes@), text);
    }
}

/// A reconnect on purpose is neither logged nor waited for. After an error the log gets the reason,
/// and the next connection waits for three seconds.
pub proof fn law_after_the_end(outcome: &Outcome, next: (Option<String>, u64), why: String)
    requires
        call_ensures(after_run, (outcome,), next),
    ensures
        *outcome is Resubscribe ==> next.0 is None && next.1 == 0,
        *outcome == Outcome::Failed(why) ==> next.0 is Some && next.0->Some_0@ == "error: "@ + why@
            + "; reconnecting in 3s"@ && next.1 == 3,
{
}

/// A status wants attention exactly where it is `blocked` or `done`.
pub proof fn law_attention_is_tested_for(status: &str, yes: bool)
    requires
        call_ensures(is_attention, (status,), yes),
    ensures
        yes <==> status@ == "blocked"@ || status@ == "done"@,
{
    law_attention_is_blocked_or_done(status@, status@);
}

/// A notification that is made says what is handed over, and it is made exactly where the workspace
/// of the pane is not the focused one.
pub proof fn law_notification_is_raised_outside_the_focus(
    pane: &str,
    row: &Row,
    snap: &Json,
    focused: &str,
    status: &str,
    agent: &str,
    label: &str,
    made: Toast,
    raised: Option<Toast>,
)
    requires
        call_ensures(notify, (pane, status, agent, label), made),
        call_ensures(raise, (pane, row, snap, focused), raised),
    ensures
        toast_says(made@, pane@, status@, agent@, label@),
        raised is None <==> row.ws@ == focused@,
        raised is Some ==> toast_says(
            raised->Some_0@,
            pane@,
            row.status@,
            row.agent@,
            snapshot_label(snap@, row.ws@),
        ),
{
    law_toast_says_what_happened(pane@, status@, agent@, label@);
    law_raised_outside_the_focus(pane@, row@, snap@, focused@);
}

/// A trimmed text is what is left when all white space is taken off both ends, and nothing else.
pub proof fn law_trim_takes_white_space_off(text: &str, core: &str)
    requires
        call_ensures(trim, (text,), core),
    ensures
        exists|from: int, to: int| is_core(text@, core@, from, to),
{
    law_trimming_takes_white_space_off(text@);
}

/// The files of the daemon lie under the home directory, each at its own place, and the home
/// directory is the one that the environment names.
pub proof fn law_files_lie_under_home(
    dir: &str,
    sock: String,
    log: String,
    attention: String,
    var: String,
    named: String,
    unnamed: String,
)
    requires
        call_ensures(sock_path, (dir,), sock),
        call_ensures(log_path, (dir,), log),
        call_ensures(attention_path, (dir,), attention),
        call_ensures(home, (Some(var),), named),
        call_ensures(home, (None::<String>,), unnamed),
    ensures
        sock@ == dir@ + "/.config/herdr/herdr.sock"@,
        log@ == dir@ + "/.config/herdr/herdr-notify-bridge.log"@,
        attention@ == dir@ + "/.config/herdr/last-attention-pane"@,
        named@ == var@,
        unnamed@ == "/Users/raza.jamil"@,
{
}

/// A line of the log is the time without the white space around it, a space, the message and a line
/// feed.
pub proof fn law_log_lines(
    printed: String,
    time: String,
    nothing: String,
    msg: &str,
    stamp: &str,
    line: String,
)
    requires
        call_ensures(now, (Some(printed),), time),
        call_ensures(now, (None::<String>,), nothing),
        call_ensures(log_line, (stamp, msg), line),
    ensures
        exists|from: int, to: int| is_core(printed@, time@, from, to),
        nothing@.len() == 0,
        line@ == stamp@ + seq![' '] + msg@ + seq!['\n'],
{
    law_trimming_takes_white_space_off(printed@);
    reveal_strlit(" ");
    reveal_strlit("\n");
    assert(" "@ =~= seq![' ']);
    assert("\n"@ =~= seq!['\n']);
}

/// A status event changes the status of the pane that its field `pane_id` names, whole and unchanged,
/// and of no other pane. The pane that is handed back is that one, and it is handed back exactly
/// where the new status is `blocked` or `done` and the known one is neither.
pub proof fn law_status_is_changed_for_its_pane(
    data: &Json,
    state: &mut State,
    entered: Option<(String, Row)>,
    pane: Seq<char>,
    status: Seq<char>,
)
    requires
        call_ensures(status_changed, (data, state), entered),
        says(data@, "pane_id"@, pane),
        pane.len() > 0,
        says(data@, "agent_status"@, status) || (says_no(data@, "agent_status"@) && status
            == Seq::<char>::empty()),
    ensures
        final(state)@.prev == old(state)@.prev.insert(pane, status),
        final(state)@.seeded == old(state)@.seeded,
        entered is Some <==> calls(status) && !called(old(state)@.prev, pane),
        entered is Some ==> entered->Some_0.0@ == pane && row_says(
            entered->Some_0.1@,
            data@,
            status,
        ),
{
    law_status_event_is_about_its_pane(state@.prev, data@, pane, status);
}

/// A status event that names no pane changes nothing and hands nothing back.
pub proof fn law_status_without_a_pane_is_dropped(
    data: &Json,
    state: &mut State,
    entered: Option<(String, Row)>,
)
    requires
        call_ensures(status_changed, (data, state), entered),
        says_no(data@, "pane_id"@) || says(data@, "pane_id"@, Seq::<char>::empty()),
    ensures
        final(state)@ == old(state)@,
        entered is None,
{
    law_status_event_without_a_pane(state@.prev, data@);
}

/// Taking over a snapshot leaves exactly the panes known that an entry of it is about, each with the
/// status in the last entry about it. It recovers exactly the panes whose status is now `blocked` or
/// `done` and was neither, whatever it was, unless the statuses are only adopted; and a notification
/// comes with it exactly where the workspace in that entry is not the one that has the focus.
pub proof fn law_snapshot_is_taken_over(
    snap: &Json,
    state: &mut State,
    seed: bool,
    out: Reconciled,
    entries: Seq<JsonView>,
    i: int,
    pane: Seq<char>,
    status: Seq<char>,
    ws: Seq<char>,
    focused: Seq<char>,
)
    requires
        call_ensures(reconcile, (snap, state, seed), out),
        holds(snap@, "agents"@, JsonView::Array(entries)),
        focus_says(snap@, focused),
    ensures
        final(state)@.seeded == old(state)@.seeded,
        none_about(entries, pane) ==> !final(state)@.prev.contains_key(pane)
            && !out.live@.contains_key(pane) && !out.recovered@.contains_key(pane),
        last_about(entries, i, pane, status) ==> final(state)@.prev.contains_key(pane)
            && final(state)@.prev[pane] == status && out.live@.contains_key(pane),
        last_about(entries, i, pane, status) ==> (out.recovered@.contains_key(pane) <==> !seed && (
        status == "blocked"@ || status == "done"@) && !called(old(state)@.prev, pane)),
        last_about(entries, i, pane, status) && out.recovered@.contains_key(pane) ==> known_as(
            old(state)@.prev,
            pane,
            out.recovered@[pane].was,
        ) && out.recovered@[pane].status == status,
        last_about(entries, i, pane, status) && out.recovered@.contains_key(pane) && (says(
            entries[i],
            "workspace_id"@,
            ws,
        ) || (says_no(entries[i], "workspace_id"@) && ws == Seq::<char>::empty())) ==> (
        out.recovered@[pane].toast is None <==> ws == focused),
{
    law_row_is_of_the_last_entry(snap@, entries, i, pane, status);
    law_recovered_is_what_calls_now(state@.prev, snap@, pane, focused);
    assert(out.live@.dom().contains(pane) == snapshot_rows(snap@).dom().contains(pane));
}

/// Taking a connection one event further is one of its steps.
pub proof fn law_run_takes_a_step(
    at: Run,
    state: &mut State,
    event: Event,
    end: (Run, Vec<Effect>),
)
    requires
        call_ensures(run, (at, state, event), end),
    ensures
        stepped(at@, old(state)@, event@, end.0@, final(state)@, effects_of(end.1@)),
{
}

} // verus!
