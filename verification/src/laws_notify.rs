//! What holds of the attention transitions and the notifications, in terms of the statuses, the
//! documents and the texts that are shown.
use vstd::prelude::*;

use crate::json::JsonView;
use crate::laws_doc::{row_says, says, says_no};
use crate::notify::{args_of, enters, raised, toast_of, wants_attention, ToastView};
use crate::snapshot::{snapshot_focus, snapshot_label, snapshot_rows, RowView};
use crate::state::{
    event_enters, last_status, prev_after, recovered_from, status_row, statuses, RecoveryView,
};

verus! {

/// An agent in this status waits for an answer or has finished.
pub open spec fn calls(status: Seq<char>) -> bool {
    status == "blocked"@ || status == "done"@
}

/// The pane is known to be in a status that calls.
pub open spec fn called(prev: Map<Seq<char>, Seq<char>>, pane: Seq<char>) -> bool {
    prev.contains_key(pane) && calls(prev[pane])
}

/// This is what is known of the pane: nothing, and then the text is empty, or this status.
pub open spec fn known_as(
    prev: Map<Seq<char>, Seq<char>>,
    pane: Seq<char>,
    status: Seq<char>,
) -> bool {
    if prev.contains_key(pane) {
        prev[pane] == status
    } else {
        status == Seq::<char>::empty()
    }
}

/// A change is an attention transition exactly where the new status is `blocked` or `done` and the
/// old one is neither, whatever the old one is.
pub proof fn law_attention_is_blocked_or_done(was: Seq<char>, status: Seq<char>)
    ensures
        wants_attention(status) <==> status == "blocked"@ || status == "done"@,
        enters(was, status) <==> (status == "blocked"@ || status == "done"@) && was != "blocked"@
            && was != "done"@,
        was == "idle"@ || was == "working"@ || was == "unknown"@ || was.len() == 0 ==> enters(
            was,
            "blocked"@,
        ) && enters(was, "done"@),
        !enters(was, "idle"@) && !enters(was, "working"@) && !enters(was, Seq::<char>::empty()),
{
    reveal_strlit("blocked");
    reveal_strlit("done");
    reveal_strlit("idle");
    reveal_strlit("working");
    reveal_strlit("unknown");
    assert("blocked"@.len() == 7 && "done"@.len() == 4 && "idle"@.len() == 4);
    assert("working"@.len() == 7 && "unknown"@.len() == 7);
    assert("done"@[0] == 'd' && "idle"@[0] == 'i');
    assert("blocked"@[0] == 'b' && "working"@[0] == 'w' && "unknown"@[0] == 'u');
}

/// The notification says what an agent of this name did in this pane, in a workspace of this label.
pub open spec fn toast_says(
    toast: ToastView,
    pane: Seq<char>,
    status: Seq<char>,
    agent: Seq<char>,
    label: Seq<char>,
) -> bool {
    &&& status == "blocked"@ ==> toast.title == "⛔ "@ + agent + " needs you"@ && toast.sound
        == "Sosumi"@
    &&& status == "done"@ ==> toast.title == "✅ "@ + agent + " finished"@ && toast.sound
        == "Glass"@
    &&& !calls(status) ==> toast.title == "🔔 "@ + agent + " changed"@ && toast.sound
        == "default"@
    &&& toast.subtitle == label
    &&& toast.message == "→ "@ + pane + "  (cmd+shift+J to jump)"@
    &&& toast.group == "herdr-notify-"@ + pane
    &&& toast.record == "notified "@ + pane + " status="@ + status + " agent="@ + agent + " ws='"@
        + label + "'"@
}

/// A notification names the pane, the agent, what it did and the workspace, and says how to jump to
/// it.
pub proof fn law_toast_says_what_happened(
    pane: Seq<char>,
    status: Seq<char>,
    agent: Seq<char>,
    label: Seq<char>,
)
    ensures
        toast_says(toast_of(pane, status, agent, label), pane, status, agent, label),
{
    let toast = toast_of(pane, status, agent, label);
    reveal_strlit("blocked");
    reveal_strlit("done");
    assert("blocked"@.len() == 7 && "done"@.len() == 4);
    reveal_strlit(" ");
    reveal_strlit("⛔");
    reveal_strlit("⛔ ");
    reveal_strlit("✅");
    reveal_strlit("✅ ");
    reveal_strlit("🔔");
    reveal_strlit("🔔 ");
    reveal_strlit("needs you");
    reveal_strlit(" needs you");
    reveal_strlit("finished");
    reveal_strlit(" finished");
    reveal_strlit("changed");
    reveal_strlit(" changed");
    assert("⛔"@ + " "@ =~= "⛔ "@);
    assert("✅"@ + " "@ =~= "✅ "@);
    assert("🔔"@ + " "@ =~= "🔔 "@);
    assert(" "@ + "needs you"@ =~= " needs you"@);
    assert(" "@ + "finished"@ =~= " finished"@);
    assert(" "@ + "changed"@ =~= " changed"@);
    assert(status == "blocked"@ ==> toast.title =~= "⛔ "@ + agent + (" "@ + "needs you"@));
    assert(status == "done"@ ==> toast.title =~= "✅ "@ + agent + (" "@ + "finished"@));
    assert(!calls(status) ==> toast.title =~= "🔔 "@ + agent + (" "@ + "changed"@));
    reveal_strlit("  (");
    reveal_strlit("cmd+shift+J");
    reveal_strlit(" to jump)");
    reveal_strlit("  (cmd+shift+J to jump)");
    assert("  ("@ + "cmd+shift+J"@ + " to jump)"@ =~= "  (cmd+shift+J to jump)"@);
    assert(toast.message =~= "→ "@ + pane + ("  ("@ + "cmd+shift+J"@ + " to jump)"@));
}

/// Notifications of two panes are of two groups, so that neither takes the place of the other, and
/// those of one pane are of one group.
pub proof fn law_one_group_per_pane(pane: Seq<char>, other: Seq<char>, one: RowView, two: RowView)
    ensures
        toast_of(pane, one.status, one.agent, one.ws).group == toast_of(
            other,
            two.status,
            two.agent,
            two.ws,
        ).group <==> pane == other,
{
    lemma_same_rest("herdr-notify-"@, pane, other);
}

pub proof fn lemma_same_rest(head: Seq<char>, a: Seq<char>, b: Seq<char>)
    ensures
        head + a == head + b <==> a == b,
{
    if head + a == head + b {
        assert((head + a).len() == (head + b).len());
        assert forall|i: int| 0 <= i < a.len() implies a[i] == b[i] by {
            assert((head + a)[head.len() + i] == a[i]);
            assert((head + b)[head.len() + i] == b[i]);
        }
        assert(a =~= b);
    }
}

/// The arguments hand each part of the notification over behind the option that it belongs to, and
/// hold nothing else.
pub proof fn law_args_name_every_part(toast: ToastView)
    ensures
        args_of(toast).len() == 10,
        args_of(toast)[0] == "-title"@ && args_of(toast)[1] == toast.title,
        args_of(toast)[2] == "-subtitle"@ && args_of(toast)[3] == toast.subtitle,
        args_of(toast)[4] == "-message"@ && args_of(toast)[5] == toast.message,
        args_of(toast)[6] == "-group"@ && args_of(toast)[7] == toast.group,
        args_of(toast)[8] == "-sound"@ && args_of(toast)[9] == toast.sound,
{
}

/// A pane whose workspace has the focus raises no notification, and every other pane raises the one
/// that says what its row says, with the label of its workspace.
pub proof fn law_raised_outside_the_focus(
    pane: Seq<char>,
    row: RowView,
    snap: JsonView,
    focused: Seq<char>,
)
    ensures
        raised(pane, row, snap, focused) is None <==> row.ws == focused,
        row.ws != focused ==> toast_says(
            raised(pane, row, snap, focused)->Some_0,
            pane,
            row.status,
            row.agent,
            snapshot_label(snap, row.ws),
        ),
{
    law_toast_says_what_happened(pane, row.status, row.agent, snapshot_label(snap, row.ws));
}

/// The snapshot says that this workspace has the focus: the empty text where it says none.
pub open spec fn focus_says(snap: JsonView, focused: Seq<char>) -> bool {
    says(snap, "focused_workspace_id"@, focused) || (says_no(snap, "focused_workspace_id"@)
        && focused == Seq::<char>::empty())
}

/// A pane in the workspace that the snapshot says to have the focus raises no notification on this
/// snapshot, whatever else the snapshot says, and a pane in another workspace raises one.
pub proof fn law_focused_pane_raises_nothing(
    pane: Seq<char>,
    row: RowView,
    snap: JsonView,
    focused: Seq<char>,
)
    requires
        focus_says(snap, focused),
    ensures
        raised(pane, row, snap, snapshot_focus(snap)) is None <==> row.ws == focused,
{
    reveal_strlit("");
    assert(""@ =~= Seq::<char>::empty());
}

/// The pane that a status event is about is the text in its field `pane_id`, whole and unchanged,
/// and the status is the one in its field `agent_status`: no other pane changes, and the event is an
/// attention transition exactly where that status calls and the known one of that pane did not.
pub proof fn law_status_event_is_about_its_pane(
    prev: Map<Seq<char>, Seq<char>>,
    data: JsonView,
    pane: Seq<char>,
    status: Seq<char>,
)
    requires
        says(data, "pane_id"@, pane),
        pane.len() > 0,
        says(data, "agent_status"@, status) || (says_no(data, "agent_status"@) && status
            == Seq::<char>::empty()),
    ensures
        prev_after(prev, data) == prev.insert(pane, status),
        event_enters(prev, data) <==> calls(status) && !called(prev, pane),
        status_row(data).0 == pane,
        row_says(status_row(data).1, data, status),
{
    lemma_nothing_calls();
}

proof fn lemma_nothing_calls()
    ensures
        ""@ == Seq::<char>::empty(),
        !calls(Seq::<char>::empty()),
        !calls(""@),
{
    reveal_strlit("");
    reveal_strlit("blocked");
    reveal_strlit("done");
    assert(""@ =~= Seq::<char>::empty());
    assert("blocked"@.len() == 7 && "done"@.len() == 4);
}

/// A status event that says no pane changes nothing and is no attention transition.
pub proof fn law_status_event_without_a_pane(prev: Map<Seq<char>, Seq<char>>, data: JsonView)
    requires
        says_no(data, "pane_id"@) || says(data, "pane_id"@, Seq::<char>::empty()),
    ensures
        prev_after(prev, data) == prev,
        !event_enters(prev, data),
{
    lemma_nothing_calls();
}

/// The statuses that a snapshot leaves are those of its rows.
pub proof fn law_statuses_are_those_of_the_rows(rows: Map<Seq<char>, RowView>, pane: Seq<char>)
    ensures
        statuses(rows).contains_key(pane) <==> rows.contains_key(pane),
        rows.contains_key(pane) ==> statuses(rows)[pane] == rows[pane].status,
{
}

/// What is known of a pane is its status where there is one, and else nothing.
pub proof fn law_last_status_is_what_is_known(prev: Map<Seq<char>, Seq<char>>, pane: Seq<char>)
    ensures
        known_as(prev, pane, last_status(prev, pane)),
{
    lemma_nothing_calls();
}

/// The recovered transition of a pane goes from what was known of it to what its row says, and the
/// notification with it is due exactly where its workspace does not have the focus.
pub open spec fn recovery_says(
    recovery: RecoveryView,
    prev: Map<Seq<char>, Seq<char>>,
    snap: JsonView,
    pane: Seq<char>,
    row: RowView,
    focused: Seq<char>,
) -> bool {
    &&& known_as(prev, pane, recovery.was)
    &&& recovery.status == row.status
    &&& recovery.toast is None <==> row.ws == focused
    &&& recovery.toast is Some ==> toast_says(
        recovery.toast->Some_0,
        pane,
        row.status,
        row.agent,
        snapshot_label(snap, row.ws),
    )
}

/// A snapshot recovers exactly the panes whose row calls and that were not known to call: one that
/// was idle, working, in any other status or not known at all. Nothing is recovered where the
/// statuses are only adopted.
pub proof fn law_recovered_is_what_calls_now(
    prev: Map<Seq<char>, Seq<char>>,
    snap: JsonView,
    pane: Seq<char>,
    focused: Seq<char>,
)
    requires
        focus_says(snap, focused),
    ensures
        recovered_from(prev, snap, false).contains_key(pane) <==> snapshot_rows(snap).contains_key(
            pane,
        ) && calls(snapshot_rows(snap)[pane].status) && !called(prev, pane),
        recovered_from(prev, snap, false).contains_key(pane) ==> recovery_says(
            recovered_from(prev, snap, false)[pane],
            prev,
            snap,
            pane,
            snapshot_rows(snap)[pane],
            focused,
        ),
        !recovered_from(prev, snap, true).contains_key(pane),
{
    lemma_nothing_calls();
    let row = snapshot_rows(snap)[pane];
    law_toast_says_what_happened(pane, row.status, row.agent, snapshot_label(snap, row.ws));
}

} // verus!
