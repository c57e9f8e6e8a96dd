//! What holds of the steps of a connection, in terms of the documents that it reads and the texts
//! that it shows and logs.
use vstd::prelude::*;

use crate::bridge::{
    all_recovery_effects, effects_of, recovers, recovery_effects, stepped, unwatched_log, Cause,
    Effect, EffectView, Event, EventView, Outcome, OutcomeView, Run, RunView, BACKOFF, RESYNC,
};
use crate::event::{msg_view, Msg, MsgView};
use crate::json::{json_read, Json, JsonView};
use crate::laws::law_recovered_effects;
use crate::laws_doc::{
    holds, last_about, law_row_is_of_the_last_entry, none_about, row_says, says, says_no,
};
use crate::laws_notify::{
    called, calls, focus_says, law_focused_pane_raises_nothing, law_raised_outside_the_focus,
    law_recovered_is_what_calls_now, law_status_event_is_about_its_pane,
    law_status_event_without_a_pane, lemma_same_rest, recovery_says, toast_says,
};
use crate::laws_subscribe::{
    law_answer_is_read_from_its_line, law_error_id_ends_in_the_digits,
    law_pane_not_found_is_left_out, law_pane_not_found_without_a_position,
    law_started_and_rejected, says_not_found, says_started,
};
use crate::notify::{toast_view, Toast};
use crate::panes::{distinct_keys, has_key, keys_of, lists, PaneSet};
use crate::snapshot::{snapshot_focus, snapshot_label, snapshot_rows, Row, RowView};
use crate::state::{recovered_from, statuses, Recovery, RecoveryView, State, StateView};
use crate::subscribe::{error_index, Attempt, AttemptView};
use crate::text::{digits, trimmed};

verus! {

/// A status event on the stream changes the status of the pane that its field `pane_id` names, whole
/// and unchanged, and of no other. Where the new status is `blocked` or `done` and the known one of
/// this pane is neither, this pane is noted, and it is the one to be judged.
pub proof fn law_status_event_changes_its_pane(
    watched: Set<Seq<char>>,
    state: StateView,
    data: JsonView,
    pane: Seq<char>,
    status: Seq<char>,
    next: RunView,
    after: StateView,
    effects: Seq<EffectView>,
)
    requires
        stepped(
            RunView::Streaming(watched),
            state,
            EventView::Message(MsgView::Status(data)),
            next,
            after,
            effects,
        ),
        says(data, "pane_id"@, pane),
        pane.len() > 0,
        says(data, "agent_status"@, status) || (says_no(data, "agent_status"@) && status
            == Seq::<char>::empty()),
    ensures
        after.prev == state.prev.insert(pane, status),
        after.seeded == state.seeded,
        calls(status) && !called(state.prev, pane) ==> effects == seq![
            EffectView::Attention(pane),
        ] && next is Judging && next->Judging_0 == watched && next->Judging_1 == pane && row_says(
            next->Judging_2,
            data,
            status,
        ),
        !calls(status) || called(state.prev, pane) ==> effects == Seq::<EffectView>::empty() && next
            == RunView::Streaming(watched),
{
    law_status_event_is_about_its_pane(state.prev, data, pane, status);
}

/// A status event that names no pane changes nothing.
pub proof fn law_status_event_without_a_pane_is_dropped(
    watched: Set<Seq<char>>,
    state: StateView,
    data: JsonView,
    next: RunView,
    after: StateView,
    effects: Seq<EffectView>,
)
    requires
        stepped(
            RunView::Streaming(watched),
            state,
            EventView::Message(MsgView::Status(data)),
            next,
            after,
            effects,
        ),
        says_no(data, "pane_id"@) || says(data, "pane_id"@, Seq::<char>::empty()),
    ensures
        next == RunView::Streaming(watched),
        after == state,
        effects == Seq::<EffectView>::empty(),
{
    law_status_event_without_a_pane(state.prev, data);
}

/// These effects show one notification that says this, and record it; they do nothing else.
pub open spec fn shows_only(
    effects: Seq<EffectView>,
    pane: Seq<char>,
    row: RowView,
    label: Seq<char>,
) -> bool {
    &&& effects.len() == 2
    &&& effects[0] is Show
    &&& toast_says(effects[0]->Show_0, pane, row.status, row.agent, label)
    &&& effects[1] == EffectView::Log(effects[0]->Show_0.record)
}

/// A pane that is judged is notified of exactly where the snapshot says that another workspace than
/// that of the pane has the focus, and the stream goes on with the same panes.
pub proof fn law_judged_by_the_focus(
    watched: Set<Seq<char>>,
    pane: Seq<char>,
    row: RowView,
    state: StateView,
    snap: JsonView,
    focused: Seq<char>,
    next: RunView,
    after: StateView,
    effects: Seq<EffectView>,
)
    requires
        stepped(
            RunView::Judging(watched, pane, row),
            state,
            EventView::Snapshot(Some(snap)),
            next,
            after,
            effects,
        ),
        focus_says(snap, focused),
    ensures
        next == RunView::Streaming(watched),
        after == state,
        row.ws == focused ==> effects == Seq::<EffectView>::empty(),
        row.ws != focused ==> shows_only(effects, pane, row, snapshot_label(snap, row.ws)),
{
    law_focused_pane_raises_nothing(pane, row, snap, focused);
    law_raised_outside_the_focus(pane, row, snap, snapshot_focus(snap));
}

/// A status event and the snapshot that follows it: the notification names the pane and the agent
/// that the event says, and there is one exactly where the workspace that the event says does not
/// have the focus in the snapshot.
pub proof fn law_notification_names_the_pane_of_the_event(
    watched: Set<Seq<char>>,
    state: StateView,
    data: JsonView,
    pane: Seq<char>,
    status: Seq<char>,
    ws: Seq<char>,
    agent: Seq<char>,
    judging: RunView,
    between: StateView,
    noted: Seq<EffectView>,
    snap: JsonView,
    focused: Seq<char>,
    next: RunView,
    after: StateView,
    shown: Seq<EffectView>,
)
    requires
        stepped(
            RunView::Streaming(watched),
            state,
            EventView::Message(MsgView::Status(data)),
            judging,
            between,
            noted,
        ),
        says(data, "pane_id"@, pane),
        pane.len() > 0,
        says(data, "agent_status"@, status),
        says(data, "workspace_id"@, ws),
        says(data, "agent"@, agent),
        calls(status),
        !called(state.prev, pane),
        stepped(judging, between, EventView::Snapshot(Some(snap)), next, after, shown),
        focus_says(snap, focused),
    ensures
        noted == seq![EffectView::Attention(pane)],
        after == (StateView { prev: state.prev.insert(pane, status), seeded: state.seeded }),
        next == RunView::Streaming(watched),
        ws == focused ==> shown == Seq::<EffectView>::empty(),
        ws != focused ==> shows_only(
            shown,
            pane,
            (RowView { status, ws, agent }),
            snapshot_label(snap, ws),
        ),
{
    law_status_event_changes_its_pane(watched, state, data, pane, status, judging, between, noted);
    let row = judging->Judging_2;
    law_judged_by_the_focus(watched, pane, row, between, snap, focused, next, after, shown);
}

/// A pane that went away is neither watched nor known any more, and no other pane is touched. A pane
/// that appeared asks for a comparison, and so does a silence.
pub proof fn law_lifecycle_messages(
    watched: Set<Seq<char>>,
    state: StateView,
    pane: Seq<char>,
    event: EventView,
    next: RunView,
    after: StateView,
    effects: Seq<EffectView>,
)
    requires
        stepped(RunView::Streaming(watched), state, event, next, after, effects),
        event == EventView::Message(MsgView::PaneGone(pane)) || event == EventView::Message(
            MsgView::PaneAdded,
        ) || event == EventView::Timeout,
    ensures
        effects == Seq::<EffectView>::empty(),
        after.seeded == state.seeded,
        event == EventView::Message(MsgView::PaneGone(pane)) ==> next is Streaming
            && !next->Streaming_0.contains(pane) && !after.prev.contains_key(pane) && forall|
            other: Seq<char>,
        | #![auto]
            other != pane ==> next->Streaming_0.contains(other) == watched.contains(other)
                && after.prev.contains_key(other) == state.prev.contains_key(other) && (
            state.prev.contains_key(other) ==> after.prev[other] == state.prev[other]),
        event == EventView::Message(MsgView::PaneAdded) ==> next == RunView::Syncing(
            watched,
            Cause::PaneAdded,
        ) && after == state,
        event == EventView::Timeout ==> next == RunView::Syncing(watched, Cause::Timeout) && after
            == state,
{
}

/// The panes to subscribe to are exactly those that an entry of the first snapshot is about, each
/// once, and nothing else happens.
pub proof fn law_discovery_finds_the_panes(
    state: StateView,
    snap: JsonView,
    entries: Seq<JsonView>,
    i: int,
    pane: Seq<char>,
    status: Seq<char>,
    next: RunView,
    after: StateView,
    effects: Seq<EffectView>,
)
    requires
        stepped(
            RunView::Discovering,
            state,
            EventView::Snapshot(Some(snap)),
            next,
            after,
            effects,
        ),
        holds(snap, "agents"@, JsonView::Array(entries)),
    ensures
        next is Subscribing,
        next->Subscribing_0.no_duplicates(),
        last_about(entries, i, pane, status) ==> next->Subscribing_0.contains(pane),
        none_about(entries, pane) ==> !next->Subscribing_0.contains(pane),
        after == state,
        effects == Seq::<EffectView>::empty(),
{
    law_row_is_of_the_last_entry(snap, entries, i, pane, status);
    let panes = next->Subscribing_0;
    assert(panes.to_set().contains(pane) == snapshot_rows(snap).contains_key(pane));
    assert(panes.contains(pane) == panes.to_set().contains(pane));
}

/// The panes to subscribe to are exactly the agent panes of the first snapshot, each once, whatever
/// the snapshot looks like.
pub proof fn law_discovery_goes_on(
    state: StateView,
    snap: JsonView,
    pane: Seq<char>,
    next: RunView,
    after: StateView,
    effects: Seq<EffectView>,
)
    requires
        stepped(
            RunView::Discovering,
            state,
            EventView::Snapshot(Some(snap)),
            next,
            after,
            effects,
        ),
    ensures
        next is Subscribing,
        next->Subscribing_0.no_duplicates(),
        next->Subscribing_0.contains(pane) <==> snapshot_rows(snap).contains_key(pane),
        after == state,
        effects == Seq::<EffectView>::empty(),
{
    let panes = next->Subscribing_0;
    assert(panes.to_set().contains(pane) == snapshot_rows(snap).contains_key(pane));
    assert(panes.contains(pane) == panes.to_set().contains(pane));
}

/// The answer to the subscription request: where it says that the subscription has started, exactly
/// the panes that were asked for are watched; where it names a pane that was not found, the request
/// is tried again without it; every other answer ends the connection with the reason.
pub proof fn law_answer_decides(
    panes: Seq<Seq<char>>,
    state: StateView,
    line: Seq<char>,
    reply: JsonView,
    i: int,
    head: Seq<char>,
    id: Seq<char>,
    next: RunView,
    after: StateView,
    effects: Seq<EffectView>,
)
    requires
        stepped(RunView::Subscribing(panes), state, EventView::Reply(line), next, after, effects),
        json_read(trimmed(line)) == Ok::<JsonView, Seq<char>>(reply),
    ensures
        after == state,
        says_started(reply) ==> next is Baseline && effects == Seq::<EffectView>::empty() && (
        forall|pane: Seq<char>| #[trigger]
            next->Baseline_0.contains(pane) <==> panes.contains(pane)),
        !says_started(reply) && says_not_found(reply) && 0 <= i < panes.len() && 4 + i <= usize::MAX
            && says(reply, "id"@, head + seq![':'] + digits((4 + i) as nat) + ":probe"@) ==> next
            == RunView::Subscribing(panes.take(i) + panes.skip(i + 1)) && effects == seq![
            EffectView::Log("dropping vanished pane "@ + panes[i] + " from subscription"@),
        ],
        !says_started(reply) && says_not_found(reply) && 0 <= i < panes.len() && says(
            reply,
            "id"@,
            id,
        ) && error_index(id) is Some && error_index(id)->Some_0 == 4 + i ==> next
            == RunView::Subscribing(panes.take(i) + panes.skip(i + 1)) && effects == seq![
            EffectView::Log("dropping vanished pane "@ + panes[i] + " from subscription"@),
        ],
        !says_started(reply) && says_not_found(reply) && (says_no(reply, "id"@) || (says(
            reply,
            "id"@,
            id,
        ) && (error_index(id) is None || error_index(id)->Some_0 < 4 || error_index(id)->Some_0 >= 4
            + panes.len()))) ==> next == RunView::Ended(
            OutcomeView::Failed("unattributable subscribe error: "@ + trimmed(line)),
        ) && effects == Seq::<EffectView>::empty(),
        !says_started(reply) && !says_not_found(reply) ==> next == RunView::Ended(
            OutcomeView::Failed("subscribe rejected: "@ + trimmed(line)),
        ) && effects == Seq::<EffectView>::empty(),
{
    let text = trimmed(line);
    law_answer_is_read_from_its_line(panes, line, reply, text);
    law_started_and_rejected(panes, reply, text);
    if says_started(reply) {
        assert forall|pane: Seq<char>| #[trigger]
            next->Baseline_0.contains(pane) <==> panes.contains(pane) by {
            assert(panes.to_set().contains(pane) == panes.contains(pane));
        }
    } else if says_not_found(reply) {
        if 0 <= i < panes.len() && 4 + i <= usize::MAX && says(
            reply,
            "id"@,
            head + seq![':'] + digits((4 + i) as nat) + ":probe"@,
        ) {
            law_error_id_ends_in_the_digits(head, (4 + i) as usize);
            let named = head + seq![':'] + digits((4 + i) as nat) + ":probe"@;
            law_pane_not_found_is_left_out(panes, i, reply, named, text);
        }
        if 0 <= i < panes.len() && says(reply, "id"@, id) && error_index(id) is Some && error_index(
            id,
        )->Some_0 == 4 + i {
            law_pane_not_found_is_left_out(panes, i, reply, id, text);
        }
        if says_no(reply, "id"@) || (says(reply, "id"@, id) && (error_index(id) is None
            || error_index(id)->Some_0 < 4 || error_index(id)->Some_0 >= 4 + panes.len())) {
            law_pane_not_found_without_a_position(panes, reply, id, text);
        }
    }
}

/// An answer that is not JSON ends the connection with the complaint, and so does a connection that
/// is closed in place of an answer.
pub proof fn law_no_answer_ends_the_connection(
    panes: Seq<Seq<char>>,
    state: StateView,
    line: Seq<char>,
    complaint: Seq<char>,
    event: EventView,
    next: RunView,
    after: StateView,
    effects: Seq<EffectView>,
)
    requires
        stepped(RunView::Subscribing(panes), state, event, next, after, effects),
        event == EventView::Closed || (event == EventView::Reply(line) && json_read(trimmed(line))
            == Err::<JsonView, Seq<char>>(complaint)),
    ensures
        after == state,
        effects == Seq::<EffectView>::empty(),
        next == RunView::Ended(
            OutcomeView::Failed(
                if event is Closed {
                    "server closed connection during subscribe"@
                } else {
                    complaint
                },
            ),
        ),
{
}

/// What was known of the pane: the empty text where nothing was.
pub open spec fn known(prev: Map<Seq<char>, Seq<char>>, pane: Seq<char>) -> Seq<char> {
    if prev.contains_key(pane) {
        prev[pane]
    } else {
        Seq::empty()
    }
}

/// The effect at this position stands where it belongs: a pane is noted right behind the line that
/// says how its status changed, and right in front of its notification where its workspace does not
/// have the focus; a notification stands right behind its pane, and in front of its record.
pub open spec fn in_place(
    effects: Seq<EffectView>,
    i: int,
    prev: Map<Seq<char>, Seq<char>>,
    snap: JsonView,
    focused: Seq<char>,
) -> bool {
    match effects[i] {
        EffectView::Attention(pane) => {
            let row = snapshot_rows(snap)[pane];
            &&& i > 0
            &&& effects[i - 1] == EffectView::Log(
                "recovered missed transition "@ + pane + " "@ + known(prev, pane) + " -> "@
                    + row.status,
            )
            &&& if row.ws == focused {
                i + 1 == effects.len() || effects[i + 1] is Log
            } else {
                &&& i + 2 < effects.len()
                &&& effects[i + 1] is Show
                &&& toast_says(
                    effects[i + 1]->Show_0,
                    pane,
                    row.status,
                    row.agent,
                    snapshot_label(snap, row.ws),
                )
                &&& effects[i + 2] == EffectView::Log(effects[i + 1]->Show_0.record)
            }
        },
        EffectView::Show(_) => i > 0 && effects[i - 1] is Attention,
        EffectView::Log(_) => {
            ||| i + 1 < effects.len() && effects[i + 1] is Attention
            ||| i > 0 && effects[i - 1] is Show
        },
    }
}

/// The effects tell of the panes that the snapshot shows to call and that were not known to: of each
/// of them once, of no other pane, with a line that says how the status changed, and with a
/// notification exactly where the workspace of the pane does not have the focus.
pub open spec fn tells(
    effects: Seq<EffectView>,
    prev: Map<Seq<char>, Seq<char>>,
    snap: JsonView,
    focused: Seq<char>,
) -> bool {
    &&& forall|pane: Seq<char>| #[trigger]
        effects.contains(EffectView::Attention(pane)) <==> snapshot_rows(snap).contains_key(pane)
            && calls(snapshot_rows(snap)[pane].status) && !called(prev, pane)
    &&& forall|i: int|
        0 <= i < effects.len() ==> #[trigger] in_place(effects, i, prev, snap, focused)
    &&& forall|i: int, j: int|
        0 <= i < j < effects.len() && (#[trigger] effects[i]) is Attention ==> effects[i]
            != #[trigger] effects[j]
}

proof fn lemma_all_in_place(
    order: Seq<(Seq<char>, RecoveryView)>,
    prev: Map<Seq<char>, Seq<char>>,
    snap: JsonView,
    focused: Seq<char>,
)
    requires
        distinct_keys(order),
        forall|k: int|
            0 <= k < order.len() ==> recovery_says(
                (#[trigger] order[k]).1,
                prev,
                snap,
                order[k].0,
                snapshot_rows(snap)[order[k].0],
                focused,
            ),
    ensures
        ({
            let all = all_recovery_effects(order);
            &&& forall|i: int|
                0 <= i < all.len() ==> #[trigger] in_place(all, i, prev, snap, focused)
            &&& forall|i: int|
                0 <= i < all.len() && (#[trigger] all[i]) is Attention ==> has_key(
                    order,
                    all[i]->Attention_0,
                )
            &&& forall|i: int, j: int|
                0 <= i < j < all.len() && (#[trigger] all[i]) is Attention ==> all[i]
                    != #[trigger] all[j]
            &&& all.len() > 0 ==> all[0] is Log
        }),
    decreases order.len(),
{
    let all = all_recovery_effects(order);
    if order.len() > 0 {
        let rest = order.drop_last();
        assert forall|k: int| 0 <= k < rest.len() implies recovery_says(
            (#[trigger] rest[k]).1,
            prev,
            snap,
            rest[k].0,
            snapshot_rows(snap)[rest[k].0],
            focused,
        ) by {
            assert(rest[k] == order[k]);
        }
        assert(distinct_keys(rest)) by {
            assert forall|i: int, j: int| 0 <= i < j < rest.len() implies (#[trigger] rest[i]).0
                != (#[trigger] rest[j]).0 by {
                assert(rest[i] == order[i] && rest[j] == order[j]);
            }
        }
        lemma_all_in_place(rest, prev, snap, focused);
        let before = all_recovery_effects(rest);
        let n = before.len() as int;
        let last = order[order.len() - 1];
        let told = recovery_effects(last.0, last.1);
        assert(all == before + told);
        assert(told[0] is Log && told[1] == EffectView::Attention(last.0));
        assert(all[n] == told[0] && all[n + 1] == told[1]);
        let row = snapshot_rows(snap)[last.0];
        assert(recovery_says(last.1, prev, snap, last.0, row, focused));
        assert(last.1.was =~= known(prev, last.0));
        if last.1.toast is Some {
            assert(told.len() == 4);
            assert(all[n + 2] == told[2] && all[n + 3] == told[3]);
        } else {
            assert(told.len() == 2);
        }
        assert forall|i: int| 0 <= i < all.len() implies #[trigger] in_place(
            all,
            i,
            prev,
            snap,
            focused,
        ) by {
            if i < n {
                assert(in_place(before, i, prev, snap, focused));
                assert(all[i] == before[i]);
                if i > 0 {
                    assert(all[i - 1] == before[i - 1]);
                }
                if i + 1 < n {
                    assert(all[i + 1] == before[i + 1]);
                }
                if i + 2 < n {
                    assert(all[i + 2] == before[i + 2]);
                }
            }
        }
        assert forall|i: int| 0 <= i < all.len() && (#[trigger] all[i]) is Attention implies has_key(
            order,
            all[i]->Attention_0,
        ) by {
            if i < n {
                assert(before[i] == all[i]);
                let pane = all[i]->Attention_0;
                let k = choose|k: int| 0 <= k < rest.len() && (#[trigger] rest[k]).0 == pane;
                assert(order[k].0 == pane);
            } else {
                assert(i == n + 1);
            }
        }
        assert forall|i: int, j: int|
            0 <= i < j < all.len() && (#[trigger] all[i]) is Attention implies all[i]
            != #[trigger] all[j] by {
            if j < n {
                assert(before[i] == all[i] && before[j] == all[j]);
            } else if i < n {
                assert(before[i] == all[i]);
                let pane = all[i]->Attention_0;
                let k = choose|k: int| 0 <= k < rest.len() && (#[trigger] rest[k]).0 == pane;
                assert(order[k].0 == pane && order[k].0 != last.0);
            }
        }
        if n > 0 {
            assert(all[0] == before[0]);
        }
    }
}

/// What is recovered from a snapshot tells of exactly the panes that call now and did not before.
pub proof fn law_recovered_tells(
    effects: Seq<EffectView>,
    prev: Map<Seq<char>, Seq<char>>,
    snap: JsonView,
    focused: Seq<char>,
)
    requires
        recovers(effects, recovered_from(prev, snap, false)),
        focus_says(snap, focused),
    ensures
        tells(effects, prev, snap, focused),
{
    let recovered = recovered_from(prev, snap, false);
    law_recovered_effects(effects, recovered);
    assert forall|pane: Seq<char>| #[trigger]
        effects.contains(EffectView::Attention(pane)) <==> snapshot_rows(snap).contains_key(pane)
            && calls(snapshot_rows(snap)[pane].status) && !called(prev, pane) by {
        law_recovered_is_what_calls_now(prev, snap, pane, focused);
    }
    let order = choose|order: Seq<(Seq<char>, RecoveryView)>| #[trigger]
        lists(order, recovered) && effects == all_recovery_effects(order);
    assert forall|k: int| 0 <= k < order.len() implies recovery_says(
        (#[trigger] order[k]).1,
        prev,
        snap,
        order[k].0,
        snapshot_rows(snap)[order[k].0],
        focused,
    ) by {
        law_recovered_is_what_calls_now(prev, snap, order[k].0, focused);
        assert(recovered.contains_key(order[k].0));
    }
    lemma_all_in_place(order, prev, snap, focused);
}

/// The state after a snapshot knows exactly the panes that it shows, each with the status that it
/// shows.
pub open spec fn knows_the_rows(after: StateView, snap: JsonView) -> bool {
    &&& forall|pane: Seq<char>| #[trigger]
        after.prev.contains_key(pane) <==> snapshot_rows(snap).contains_key(pane)
    &&& forall|pane: Seq<char>|
        snapshot_rows(snap).contains_key(pane) ==> #[trigger] after.prev[pane]
            == snapshot_rows(snap)[pane].status
}

/// Every pane that the snapshot shows is watched.
pub open spec fn all_watched(watched: Set<Seq<char>>, snap: JsonView) -> bool {
    forall|pane: Seq<char>| #[trigger]
        snapshot_rows(snap).contains_key(pane) ==> watched.contains(pane)
}

proof fn lemma_all_watched(watched: Set<Seq<char>>, snap: JsonView)
    ensures
        all_watched(watched, snap) <==> snapshot_rows(snap).dom().subset_of(watched),
{
    let live = snapshot_rows(snap).dom();
    if all_watched(watched, snap) {
        assert forall|pane: Seq<char>| live.contains(pane) implies watched.contains(pane) by {
            assert(snapshot_rows(snap).contains_key(pane));
        }
    }
    if live.subset_of(watched) {
        assert forall|pane: Seq<char>| #[trigger]
            snapshot_rows(snap).contains_key(pane) implies watched.contains(pane) by {
            assert(live.contains(pane));
        }
    }
}

/// The baseline takes over the statuses of the snapshot. The first one tells of no pane; every later
/// one tells of what changed in the gap. The log says how many panes are subscribed to, and the
/// stream starts exactly where every pane that the snapshot shows is watched.
pub proof fn law_baseline_takes_the_snapshot_over(
    watched: Set<Seq<char>>,
    state: StateView,
    snap: JsonView,
    focused: Seq<char>,
    next: RunView,
    after: StateView,
    effects: Seq<EffectView>,
)
    requires
        stepped(
            RunView::Baseline(watched),
            state,
            EventView::Snapshot(Some(snap)),
            next,
            after,
            effects,
        ),
        focus_says(snap, focused),
    ensures
        after.seeded,
        knows_the_rows(after, snap),
        all_watched(watched, snap) ==> next == RunView::Streaming(watched),
        !all_watched(watched, snap) ==> next == RunView::Ended(OutcomeView::Resubscribe),
        effects.len() > 0,
        effects.last() == EffectView::Log(
            "subscribed to "@ + digits(watched.len()) + " agent panes"@,
        ),
        state.seeded ==> tells(effects.drop_last(), state.prev, snap, focused),
        !state.seeded ==> effects.len() == 2 && effects[0] == EffectView::Log(
            "seeded "@ + digits(snapshot_rows(snap).dom().len())
                + " agent panes (no toasts on first sync)"@,
        ),
{
    lemma_all_watched(watched, snap);
    assert(after.prev == statuses(snapshot_rows(snap)));
    if state.seeded {
        let told = effects.len() - 1;
        assert(effects.skip(told)[0] == effects.last());
        assert(effects.drop_last() =~= effects.take(told));
        law_recovered_tells(effects.take(told), state.prev, snap, focused);
    } else {
        let told = effects.len() - 2;
        assert(effects.skip(told)[0] == effects[told]);
        assert(effects.skip(told)[1] == effects[told + 1]);
        let front = effects.take(told);
        let recovered = recovered_from(state.prev, snap, true);
        assert(recovers(front, recovered));
        let order = choose|order: Seq<(Seq<char>, RecoveryView)>| #[trigger]
            lists(order, recovered) && front == all_recovery_effects(order);
        if order.len() > 0 {
            law_recovered_is_what_calls_now(state.prev, snap, order[0].0, focused);
            assert(recovered.contains_key(order[0].0));
        }
        assert(front.len() == 0);
    }
}

/// This is the line for a pane that is not watched.
pub open spec fn is_unwatched_line(line: Seq<char>, cause: Cause, pane: Seq<char>) -> bool {
    match cause {
        Cause::PaneAdded => line == "new agent pane "@ + pane + "; resubscribing"@,
        Cause::Timeout => line == "resync found unwatched agent pane "@ + pane,
    }
}

/// A comparison takes over the statuses of the snapshot and tells of what the stream did not
/// deliver. The stream goes on exactly where every pane that the snapshot shows is watched; else the
/// last line of the log names one that is not.
pub proof fn law_comparison_takes_the_snapshot_over(
    watched: Set<Seq<char>>,
    cause: Cause,
    state: StateView,
    snap: JsonView,
    focused: Seq<char>,
    next: RunView,
    after: StateView,
    effects: Seq<EffectView>,
)
    requires
        stepped(
            RunView::Syncing(watched, cause),
            state,
            EventView::Snapshot(Some(snap)),
            next,
            after,
            effects,
        ),
        focus_says(snap, focused),
    ensures
        after.seeded == state.seeded,
        knows_the_rows(after, snap),
        all_watched(watched, snap) ==> next == RunView::Streaming(watched) && tells(
            effects,
            state.prev,
            snap,
            focused,
        ),
        !all_watched(watched, snap) ==> next == RunView::Ended(OutcomeView::Resubscribe)
            && effects.len() > 0 && effects.last() is Log && tells(
            effects.drop_last(),
            state.prev,
            snap,
            focused,
        ) && exists|pane: Seq<char>| #[trigger]
            snapshot_rows(snap).contains_key(pane) && !watched.contains(pane) && is_unwatched_line(
                effects.last()->Log_0,
                cause,
                pane,
            ),
{
    lemma_all_watched(watched, snap);
    assert(after.prev == statuses(snapshot_rows(snap)));
    if all_watched(watched, snap) {
        law_recovered_tells(effects, state.prev, snap, focused);
    } else {
        law_recovered_tells(effects.drop_last(), state.prev, snap, focused);
        let live = snapshot_rows(snap).dom();
        let pane = choose|pane: Seq<char>| #[trigger]
            live.contains(pane) && !watched.contains(pane) && effects.last() == EffectView::Log(
                unwatched_log(cause, pane),
            );
        assert(snapshot_rows(snap).contains_key(pane));
    }
}

/// Some effect shows a notification of this pane.
pub open spec fn shown_of(effects: Seq<EffectView>, pane: Seq<char>) -> bool {
    exists|i: int|
        0 <= i < effects.len() && (#[trigger] effects[i]) is Show && effects[i]->Show_0.group
            == "herdr-notify-"@ + pane
}

proof fn lemma_shown(
    effects: Seq<EffectView>,
    prev: Map<Seq<char>, Seq<char>>,
    snap: JsonView,
    focused: Seq<char>,
    pane: Seq<char>,
)
    requires
        tells(effects, prev, snap, focused),
    ensures
        shown_of(effects, pane) <==> effects.contains(EffectView::Attention(pane)) && snapshot_rows(
            snap,
        )[pane].ws != focused,
{
    if shown_of(effects, pane) {
        let i = choose|i: int|
            0 <= i < effects.len() && (#[trigger] effects[i]) is Show && effects[i]->Show_0.group
                == "herdr-notify-"@ + pane;
        assert(in_place(effects, i, prev, snap, focused));
        let other = effects[i - 1]->Attention_0;
        assert(in_place(effects, i - 1, prev, snap, focused));
        lemma_same_rest("herdr-notify-"@, other, pane);
        assert(effects[i - 1] == EffectView::Attention(pane));
    }
    if effects.contains(EffectView::Attention(pane)) && snapshot_rows(snap)[pane].ws != focused {
        let i = choose|i: int|
            0 <= i < effects.len() && effects[i] == EffectView::Attention(pane);
        assert(in_place(effects, i, prev, snap, focused));
        assert(effects[i + 1] is Show);
    }
}

/// What a snapshot says of a pane decides, at a later baseline and at a comparison alike: the status
/// in the last entry about the pane is known afterwards; the pane is noted exactly where that status
/// is `blocked` or `done` and the known one was neither; and it is notified of exactly where, besides,
/// the workspace in that entry is not the one that the snapshot says to have the focus.
pub proof fn law_snapshot_decides_on_its_entries(
    run: RunView,
    watched: Set<Seq<char>>,
    cause: Cause,
    state: StateView,
    snap: JsonView,
    entries: Seq<JsonView>,
    i: int,
    pane: Seq<char>,
    status: Seq<char>,
    ws: Seq<char>,
    focused: Seq<char>,
    next: RunView,
    after: StateView,
    effects: Seq<EffectView>,
)
    requires
        (run == RunView::Baseline(watched) && state.seeded) || run == RunView::Syncing(
            watched,
            cause,
        ),
        stepped(run, state, EventView::Snapshot(Some(snap)), next, after, effects),
        holds(snap, "agents"@, JsonView::Array(entries)),
        last_about(entries, i, pane, status),
        says(entries[i], "workspace_id"@, ws) || (says_no(entries[i], "workspace_id"@) && ws
            == Seq::<char>::empty()),
        focus_says(snap, focused),
    ensures
        after.prev.contains_key(pane) && after.prev[pane] == status,
        effects.contains(EffectView::Attention(pane)) <==> calls(status) && !called(
            state.prev,
            pane,
        ),
        shown_of(effects, pane) <==> calls(status) && !called(state.prev, pane) && ws != focused,
{
    law_row_is_of_the_last_entry(snap, entries, i, pane, status);
    if run is Baseline {
        law_baseline_takes_the_snapshot_over(watched, state, snap, focused, next, after, effects);
        lemma_one_more_line(effects, pane);
        lemma_shown(effects.drop_last(), state.prev, snap, focused, pane);
    } else {
        law_comparison_takes_the_snapshot_over(
            watched,
            cause,
            state,
            snap,
            focused,
            next,
            after,
            effects,
        );
        if all_watched(watched, snap) {
            lemma_shown(effects, state.prev, snap, focused, pane);
        } else {
            lemma_one_more_line(effects, pane);
            lemma_shown(effects.drop_last(), state.prev, snap, focused, pane);
        }
    }
}

proof fn lemma_one_more_line(effects: Seq<EffectView>, pane: Seq<char>)
    requires
        effects.len() > 0,
        effects.last() is Log,
    ensures
        effects.contains(EffectView::Attention(pane)) == effects.drop_last().contains(
            EffectView::Attention(pane),
        ),
        shown_of(effects, pane) == shown_of(effects.drop_last(), pane),
{
    let front = effects.drop_last();
    if effects.contains(EffectView::Attention(pane)) {
        let i = choose|i: int|
            0 <= i < effects.len() && effects[i] == EffectView::Attention(pane);
        assert(front[i] == effects[i]);
    }
    if front.contains(EffectView::Attention(pane)) {
        let i = choose|i: int| 0 <= i < front.len() && front[i] == EffectView::Attention(pane);
        assert(effects[i] == front[i]);
    }
    if shown_of(effects, pane) {
        let i = choose|i: int|
            0 <= i < effects.len() && (#[trigger] effects[i]) is Show && effects[i]->Show_0.group
                == "herdr-notify-"@ + pane;
        assert(front[i] == effects[i]);
    }
    if shown_of(front, pane) {
        let i = choose|i: int|
            0 <= i < front.len() && (#[trigger] front[i]) is Show && front[i]->Show_0.group
                == "herdr-notify-"@ + pane;
        assert(effects[i] == front[i]);
    }
}

/// An error ends a connection with its reason, at any point; a connection that has ended stays as it
/// is. Neither changes what is carried over, and nothing is shown, noted or logged.
pub proof fn law_errors_end_the_connection(
    run: RunView,
    state: StateView,
    event: EventView,
    why: Seq<char>,
    next: RunView,
    after: StateView,
    effects: Seq<EffectView>,
)
    requires
        stepped(run, state, event, next, after, effects),
        run is Ended || event == EventView::Failed(why),
    ensures
        after == state,
        effects == Seq::<EffectView>::empty(),
        run is Ended ==> next == run,
        !(run is Ended) ==> next == RunView::Ended(OutcomeView::Failed(why)),
{
}

/// A snapshot that could not be had ends a connection that has no baseline yet, with the reason, and
/// leaves one that has as it was.
pub proof fn law_missing_snapshot(
    run: RunView,
    watched: Set<Seq<char>>,
    pane: Seq<char>,
    row: RowView,
    cause: Cause,
    state: StateView,
    next: RunView,
    after: StateView,
    effects: Seq<EffectView>,
)
    requires
        stepped(run, state, EventView::Snapshot(None), next, after, effects),
    ensures
        after == state,
        effects == Seq::<EffectView>::empty(),
        run is Discovering ==> next == RunView::Ended(
            OutcomeView::Failed("initial snapshot failed"@),
        ),
        run is Baseline ==> next == RunView::Ended(
            OutcomeView::Failed("baseline snapshot failed"@),
        ),
        run == RunView::Judging(watched, pane, row) ==> next == RunView::Streaming(watched),
        run == RunView::Syncing(watched, cause) ==> next == RunView::Streaming(watched),
{
}

/// A stream that ends, or whose reader is gone, ends the connection with the reason.
pub proof fn law_end_of_the_stream(
    watched: Set<Seq<char>>,
    state: StateView,
    event: EventView,
    next: RunView,
    after: StateView,
    effects: Seq<EffectView>,
)
    requires
        stepped(RunView::Streaming(watched), state, event, next, after, effects),
        event is ReaderClosed || event == EventView::Message(MsgView::Disconnected),
    ensures
        after == state,
        effects == Seq::<EffectView>::empty(),
        next == RunView::Ended(
            OutcomeView::Failed(
                if event is ReaderClosed {
                    "reader channel closed"@
                } else {
                    "event stream disconnected"@
                },
            ),
        ),
{
}

/// The event is one that a connection at this point waits for.
pub open spec fn is_awaited(run: RunView, event: EventView) -> bool {
    match event {
        EventView::Failed(_) => true,
        EventView::Snapshot(_) => run is Discovering || run is Baseline || run is Judging
            || run is Syncing,
        EventView::Reply(_) | EventView::Closed => run is Subscribing,
        EventView::Message(_) | EventView::Timeout | EventView::ReaderClosed => run is Streaming,
    }
}

/// An event that a connection does not wait for changes nothing, and nothing is done.
pub proof fn law_other_events_change_nothing(
    run: RunView,
    state: StateView,
    event: EventView,
    next: RunView,
    after: StateView,
    effects: Seq<EffectView>,
)
    requires
        stepped(run, state, event, next, after, effects),
        !is_awaited(run, event),
    ensures
        next == run,
        after == state,
        effects == Seq::<EffectView>::empty(),
{
}

/// The list of a map holds each of its keys at one position and no other keys, with their values.
pub proof fn law_list_of_a_map(
    order: Seq<(Seq<char>, RecoveryView)>,
    map: Map<Seq<char>, RecoveryView>,
    key: Seq<char>,
    i: int,
    j: int,
)
    requires
        lists(order, map),
    ensures
        map.contains_key(key) <==> keys_of(order).contains(key),
        0 <= i < order.len() ==> keys_of(order)[i] == order[i].0 && map[order[i].0] == order[i].1,
        0 <= i < order.len() && 0 <= j < order.len() && i != j ==> order[i].0 != order[j].0,
        keys_of(order).len() == order.len(),
{
    if map.contains_key(key) {
        assert(has_key(order, key));
        let k = choose|k: int| 0 <= k < order.len() && (#[trigger] order[k]).0 == key;
        assert(keys_of(order)[k] == key);
    }
    if keys_of(order).contains(key) {
        let k = choose|k: int| 0 <= k < keys_of(order).len() && keys_of(order)[k] == key;
        assert(map.contains_key(order[k].0));
    }
}

/// The views of the values that steps take and give hold the parts of these values, each under its
/// own name.
pub proof fn law_views_keep_the_parts(
    state: State,
    row: Row,
    toast: Toast,
    recovery: Recovery,
    pane: String,
    data: Json,
    watched: PaneSet,
    panes: Vec<String>,
    cause: Cause,
)
    ensures
        state@.prev == state.prev@ && state@.seeded == state.seeded,
        row@.status == row.status@ && row@.ws == row.ws@ && row@.agent == row.agent@,
        toast@.title == toast.title@ && toast@.subtitle == toast.subtitle@ && toast@.message
            == toast.message@ && toast@.group == toast.group@ && toast@.sound == toast.sound@
            && toast@.record == toast.record@,
        toast_view(Some(toast)) == Some(toast@) && toast_view(None) is None,
        recovery@.was == recovery.was@ && recovery@.status == recovery.status@,
        recovery.toast == Some(toast) ==> recovery@.toast == Some(toast@),
        recovery.toast is None ==> recovery@.toast is None,
        Msg::Status(data)@ == MsgView::Status(data@),
        Msg::PaneAdded@ == MsgView::PaneAdded,
        Msg::PaneGone(pane)@ == MsgView::PaneGone(pane@),
        Msg::Disconnected@ == MsgView::Disconnected,
        msg_view(Some(Msg::PaneGone(pane))) == Some(MsgView::PaneGone(pane@)),
        msg_view(Some(Msg::Status(data))) == Some(MsgView::Status(data@)),
        msg_view(Some(Msg::PaneAdded)) == Some(MsgView::PaneAdded) && msg_view(None) is None,
        Outcome::Resubscribe@ == OutcomeView::Resubscribe,
        Outcome::Failed(pane)@ == OutcomeView::Failed(pane@),
        Run::Discovering@ == RunView::Discovering,
        Run::Subscribing(panes)@ == RunView::Subscribing(panes@.map_values(|id: String| id@)),
        Run::Baseline(watched)@ == RunView::Baseline(watched@.dom()),
        Run::Streaming(watched)@ == RunView::Streaming(watched@.dom()),
        Run::Judging(watched, pane, row)@ == RunView::Judging(watched@.dom(), pane@, row@),
        Run::Syncing(watched, cause)@ == RunView::Syncing(watched@.dom(), cause),
        Run::Ended(Outcome::Failed(pane))@ == RunView::Ended(OutcomeView::Failed(pane@)),
        Run::Ended(Outcome::Resubscribe)@ == RunView::Ended(OutcomeView::Resubscribe),
        Event::Snapshot(Some(data))@ == EventView::Snapshot(Some(data@)),
        Event::Snapshot(None)@ == EventView::Snapshot(None),
        Event::Reply(pane)@ == EventView::Reply(pane@),
        Event::Closed@ == EventView::Closed,
        Event::Failed(pane)@ == EventView::Failed(pane@),
        Event::Message(Msg::Status(data))@ == EventView::Message(MsgView::Status(data@)),
        Event::Timeout@ == EventView::Timeout,
        Event::ReaderClosed@ == EventView::ReaderClosed,
        Attempt::Started(panes)@ == AttemptView::Started(panes@.map_values(|id: String| id@)),
        Attempt::Retry(panes, pane)@ == AttemptView::Retry(
            panes@.map_values(|id: String| id@),
            pane@,
        ),
        Attempt::Failed(pane)@ == AttemptView::Failed(pane@),
{
}

/// The effects that a step gives are viewed one by one, in their order.
pub proof fn law_effects_are_viewed_in_order(
    effects: Seq<Effect>,
    line: String,
    pane: String,
    toast: Toast,
)
    ensures
        effects_of(effects).len() == effects.len(),
        forall|i: int| 0 <= i < effects.len() ==> #[trigger] effects_of(effects)[i] == effects[i]@,
        Effect::Log(line)@ == EffectView::Log(line@),
        Effect::Attention(pane)@ == EffectView::Attention(pane@),
        Effect::Show(toast)@ == EffectView::Show(toast@),
{
}

/// The pause after an error is as long as the log says, and a silence is a minute long.
pub proof fn law_pauses()
    ensures
        RESYNC == 60,
        "; reconnecting in 3s"@ == "; reconnecting in "@ + digits(BACKOFF as nat) + "s"@,
{
    reveal_strlit("; reconnecting in 3s");
    reveal_strlit("; reconnecting in ");
    reveal_strlit("s");
    assert("; reconnecting in 3s"@ =~= "; reconnecting in "@ + seq!['3'] + "s"@);
    assert(digits(BACKOFF as nat) =~= seq!['3']);
}

} // verus!
