//! What holds of the daemon as a whole.
use vstd::prelude::*;

use crate::bridge::{
    all_recovery_effects, baseline_logs, recovers, recovery_effects, stepped, Cause, EffectView,
    EventView, OutcomeView, RunView,
};
use crate::event::MsgView;
use crate::json::{json_read, JsonView};
use crate::notify::{enters, toast_of, wants_attention, ToastView};
use crate::panes::{has_key, lists};
use crate::snapshot::{snapshot_focus, snapshot_label, snapshot_rows, RowView};
use crate::state::{
    event_enters, last_status, prev_after, recovered_from, recoveries, status_row, statuses,
    RecoveryView, StateView,
};
use crate::subscribe::{
    ack_of, attempt_after, attempt_on, batch, error_index, lifecycle, pane_entry, AttemptView,
    LIFECYCLE_COUNT,
};
use crate::text::{
    after_last, digits, digits_value, is_digit, number_in, trimmed, without_plus,
};

verus! {

/// A number is read back from its decimal digits.
pub proof fn law_digits_read_back(n: nat)
    ensures
        number_in(digits(n)) == Some(n),
{
    lemma_digits(n);
    assert(digits(n)[0] != '+');
    assert(without_plus(digits(n)) == digits(n));
}

proof fn lemma_digits(n: nat)
    ensures
        digits(n).len() > 0,
        forall|i: int| 0 <= i < digits(n).len() ==> is_digit(#[trigger] digits(n)[i]),
        digits_value(digits(n)) == n,
    decreases n,
{
    if n < 10 {
        assert(digits(n).drop_last() =~= Seq::empty());
        assert(digits_value(digits(n)) == n) by {
            reveal_with_fuel(digits_value, 2);
        }
    } else {
        lemma_digits(n / 10);
        assert(digits(n).drop_last() =~= digits(n / 10));
    }
}

proof fn lemma_after_last(head: Seq<char>, tail: Seq<char>, mark: char)
    requires
        head.len() > 0,
        head.last() == mark,
        forall|i: int| 0 <= i < tail.len() ==> tail[i] != mark,
    ensures
        after_last(head + tail, mark) == tail,
    decreases tail.len(),
{
    let s = head + tail;
    if tail.len() == 0 {
        assert(s =~= head);
        assert(tail =~= Seq::empty());
    } else {
        assert(s.last() == tail.last());
        assert(s.drop_last() =~= head + tail.drop_last());
        lemma_after_last(head, tail.drop_last(), mark);
        assert(tail.drop_last().push(tail.last()) =~= tail);
    }
}

/// The id of an error about a subscription.
pub open spec fn error_id(request: Seq<char>, index: nat) -> Seq<char> {
    request + ":sub:"@ + digits(index) + ":probe"@
}

/// The id of an error gives back the position that it was made from, whatever the request was
/// called.
pub proof fn law_error_id_names_its_position(request: Seq<char>, index: usize)
    ensures
        error_index(error_id(request, index as nat)) == Some(index),
{
    let id = error_id(request, index as nat);
    let head = request + ":sub:"@;
    let tail = digits(index as nat);
    let ending = ":probe"@;
    reveal_strlit(":sub:");
    assert(head.last() == ':');
    lemma_digits(index as nat);
    lemma_after_last(head, tail, ':');
    law_digits_read_back(index as nat);
    let start = id.len() - ending.len();
    assert(id.skip(start) =~= ending);
    assert(id.take(start) =~= head + tail);
}

/// The subscription of the i-th pane stands behind the lifecycle subscriptions, at position i
/// after them.
pub proof fn law_batch_position(panes: Seq<Seq<char>>, i: int)
    requires
        0 <= i < panes.len(),
    ensures
        lifecycle().len() == LIFECYCLE_COUNT,
        batch(panes).len() == LIFECYCLE_COUNT + panes.len(),
        batch(panes)[LIFECYCLE_COUNT + i] == pane_entry(panes[i]),
{
}

/// An answer that reports the subscription of a pane as not found drops this pane and no other,
/// and the request is tried again: one pane that is gone does not cost the subscription.
pub proof fn law_vanished_pane_is_dropped(
    panes: Seq<Seq<char>>,
    i: int,
    request: Seq<char>,
    reply: JsonView,
    text: Seq<char>,
)
    requires
        0 <= i < panes.len(),
        LIFECYCLE_COUNT + i <= usize::MAX,
        reply.text_within("result"@, "type"@) != Some("subscription_started"@),
        reply.text_within("error"@, "code"@) == Some("pane_not_found"@),
        reply.text_field("id"@) == Some(error_id(request, (LIFECYCLE_COUNT + i) as nat)),
    ensures
        attempt_after(panes, reply, text) == AttemptView::Retry(panes.remove(i), panes[i]),
{
    law_error_id_names_its_position(request, (LIFECYCLE_COUNT + i) as usize);
}

/// The panes that are left when each of these answers in turn asks for another attempt.
pub open spec fn after_replies(panes: Seq<Seq<char>>, lines: Seq<Seq<char>>) -> Option<
    Seq<Seq<char>>,
>
    decreases lines.len(),
{
    if lines.len() == 0 {
        Some(panes)
    } else {
        match after_replies(panes, lines.drop_last()) {
            Some(left) => match attempt_on(left, lines.last()) {
                AttemptView::Retry(fewer, _) => Some(fewer),
                _ => None,
            },
            None => None,
        }
    }
}

/// Each further attempt goes on with one pane less, all of them from the first attempt: for n panes
/// there are at most n + 1 attempts.
pub proof fn law_attempts_are_bounded(panes: Seq<Seq<char>>, lines: Seq<Seq<char>>)
    requires
        after_replies(panes, lines) is Some,
    ensures
        after_replies(panes, lines)->Some_0.len() + lines.len() == panes.len(),
        after_replies(panes, lines)->Some_0.to_set().subset_of(panes.to_set()),
    decreases lines.len(),
{
    if lines.len() > 0 {
        law_attempts_are_bounded(panes, lines.drop_last());
        let left = after_replies(panes, lines.drop_last())->Some_0;
        let reply = json_read(trimmed(lines.last()))->Ok_0;
        let i = ack_of(reply, left.len())->Vanished_0 as int;
        let fewer = left.remove(i);
        assert(after_replies(panes, lines) == Some(fewer));
        assert forall|pane: Seq<char>| fewer.to_set().contains(pane) implies left.to_set().contains(
            pane,
        ) by {
            let j = choose|j: int| 0 <= j < fewer.len() && fewer[j] == pane;
            assert(left[if j < i {
                j
            } else {
                j + 1
            }] == pane);
        }
    }
}

proof fn lemma_all_effects(order: Seq<(Seq<char>, RecoveryView)>, effect: EffectView)
    ensures
        all_recovery_effects(order).contains(effect) <==> exists|i: int|
            0 <= i < order.len() && recovery_effects(
                (#[trigger] order[i]).0,
                order[i].1,
            ).contains(effect),
    decreases order.len(),
{
    let all = all_recovery_effects(order);
    if order.len() > 0 {
        let n = order.len() - 1;
        let rest = order.drop_last();
        let before = all_recovery_effects(rest);
        let last = recovery_effects(order[n].0, order[n].1);
        lemma_all_effects(rest, effect);
        assert(all == before + last);
        if all.contains(effect) {
            let k = choose|k: int| 0 <= k < all.len() && all[k] == effect;
            if k < before.len() {
                assert(before[k] == effect);
                let i = choose|i: int|
                    0 <= i < rest.len() && recovery_effects(
                        (#[trigger] rest[i]).0,
                        rest[i].1,
                    ).contains(effect);
                assert(order[i] == rest[i]);
            } else {
                assert(last[k - before.len()] == effect);
            }
        }
        if exists|i: int|
            0 <= i < order.len() && recovery_effects(
                (#[trigger] order[i]).0,
                order[i].1,
            ).contains(effect) {
            let i = choose|i: int|
                0 <= i < order.len() && recovery_effects(
                    (#[trigger] order[i]).0,
                    order[i].1,
                ).contains(effect);
            if i < n {
                assert(rest[i] == order[i]);
                let k = choose|k: int| 0 <= k < before.len() && before[k] == effect;
                assert(all[k] == effect);
            } else {
                let k = choose|k: int| 0 <= k < last.len() && last[k] == effect;
                assert(all[before.len() + k] == effect);
            }
        }
    }
}

/// The effects of recovered transitions note every pane that one belongs to and no other, and show
/// the notifications of these transitions and no other.
pub proof fn law_recovered_effects(
    effects: Seq<EffectView>,
    recovered: Map<Seq<char>, RecoveryView>,
)
    requires
        recovers(effects, recovered),
    ensures
        forall|pane: Seq<char>| #[trigger]
            effects.contains(EffectView::Attention(pane)) <==> recovered.contains_key(pane),
        forall|toast: ToastView| #[trigger]
            effects.contains(EffectView::Show(toast)) <==> exists|pane: Seq<char>| #[trigger]
                recovered.contains_key(pane) && recovered[pane].toast == Some(toast),
{
    let order = choose|order: Seq<(Seq<char>, RecoveryView)>| #[trigger]
        lists(order, recovered) && effects == all_recovery_effects(order);
    assert forall|pane: Seq<char>| #[trigger]
        effects.contains(EffectView::Attention(pane)) <==> recovered.contains_key(pane) by {
        let effect = EffectView::Attention(pane);
        lemma_all_effects(order, effect);
        if effects.contains(effect) {
            let i = choose|i: int|
                0 <= i < order.len() && recovery_effects(
                    (#[trigger] order[i]).0,
                    order[i].1,
                ).contains(effect);
            assert(recovered.contains_key(order[i].0));
        }
        if recovered.contains_key(pane) {
            assert(has_key(order, pane));
            let i = choose|i: int| 0 <= i < order.len() && (#[trigger] order[i]).0 == pane;
            assert(recovery_effects(order[i].0, order[i].1)[1] == effect);
        }
    }
    assert forall|toast: ToastView| #[trigger]
        effects.contains(EffectView::Show(toast)) <==> exists|pane: Seq<char>| #[trigger]
            recovered.contains_key(pane) && recovered[pane].toast == Some(toast) by {
        let effect = EffectView::Show(toast);
        lemma_all_effects(order, effect);
        if effects.contains(effect) {
            let i = choose|i: int|
                0 <= i < order.len() && recovery_effects(
                    (#[trigger] order[i]).0,
                    order[i].1,
                ).contains(effect);
            assert(recovered.contains_key(order[i].0));
            assert(recovered[order[i].0].toast == Some(toast));
        }
        if exists|pane: Seq<char>| #[trigger]
            recovered.contains_key(pane) && recovered[pane].toast == Some(toast) {
            let pane = choose|pane: Seq<char>| #[trigger]
                recovered.contains_key(pane) && recovered[pane].toast == Some(toast);
            assert(has_key(order, pane));
            let i = choose|i: int| 0 <= i < order.len() && (#[trigger] order[i]).0 == pane;
            assert(recovery_effects(order[i].0, order[i].1)[2] == effect);
        }
    }
}

/// Whether a snapshot shows an attention transition of a pane, given the statuses known before.
pub open spec fn transition_in(
    prev: Map<Seq<char>, Seq<char>>,
    snap: JsonView,
    pane: Seq<char>,
) -> bool {
    let rows = snapshot_rows(snap);
    rows.contains_key(pane) && enters(last_status(prev, pane), rows[pane].status)
}

/// Whether a snapshot shows that the workspace of a pane does not have the focus.
pub open spec fn in_background(snap: JsonView, pane: Seq<char>) -> bool {
    snapshot_rows(snap)[pane].ws != snapshot_focus(snap)
}

/// The notification of a pane as a snapshot shows it.
pub open spec fn toast_in(snap: JsonView, pane: Seq<char>) -> ToastView {
    let row = snapshot_rows(snap)[pane];
    toast_of(pane, row.status, row.agent, snapshot_label(snap, row.ws))
}

/// These effects note every pane of which the snapshot shows an attention transition, and show the
/// notification of every such pane that is in the background, and no other panes and notifications.
pub open spec fn notifies_exactly(
    effects: Seq<EffectView>,
    prev: Map<Seq<char>, Seq<char>>,
    snap: JsonView,
) -> bool {
    &&& forall|pane: Seq<char>| #[trigger]
        effects.contains(EffectView::Attention(pane)) <==> transition_in(prev, snap, pane)
    &&& forall|toast: ToastView| #[trigger]
        effects.contains(EffectView::Show(toast)) <==> exists|pane: Seq<char>| #[trigger]
            transition_in(prev, snap, pane) && in_background(snap, pane) && toast == toast_in(
                snap,
                pane,
            )
}

proof fn lemma_recoveries_notify(
    effects: Seq<EffectView>,
    prev: Map<Seq<char>, Seq<char>>,
    snap: JsonView,
)
    requires
        recovers(effects, recoveries(prev, snap)),
    ensures
        notifies_exactly(effects, prev, snap),
{
    let recovered = recoveries(prev, snap);
    law_recovered_effects(effects, recovered);
    assert forall|pane: Seq<char>| #[trigger]
        recovered.contains_key(pane) <==> transition_in(prev, snap, pane) by {}
    assert forall|toast: ToastView| #[trigger]
        effects.contains(EffectView::Show(toast)) <==> exists|pane: Seq<char>| #[trigger]
            transition_in(prev, snap, pane) && in_background(snap, pane) && toast == toast_in(
                snap,
                pane,
            ) by {
        if effects.contains(EffectView::Show(toast)) {
            let pane = choose|pane: Seq<char>| #[trigger]
                recovered.contains_key(pane) && recovered[pane].toast == Some(toast);
            assert(transition_in(prev, snap, pane));
        }
        if exists|pane: Seq<char>| #[trigger]
            transition_in(prev, snap, pane) && in_background(snap, pane) && toast == toast_in(
                snap,
                pane,
            ) {
            let pane = choose|pane: Seq<char>| #[trigger]
                transition_in(prev, snap, pane) && in_background(snap, pane) && toast == toast_in(
                    snap,
                    pane,
                );
            assert(recovered.contains_key(pane));
        }
    }
}

proof fn lemma_tail_is_logs(
    effects: Seq<EffectView>,
    told: int,
    prev: Map<Seq<char>, Seq<char>>,
    snap: JsonView,
)
    requires
        0 <= told <= effects.len(),
        notifies_exactly(effects.take(told), prev, snap),
        forall|i: int| told <= i < effects.len() ==> (#[trigger] effects[i]) is Log,
    ensures
        notifies_exactly(effects, prev, snap),
{
    let front = effects.take(told);
    assert forall|effect: EffectView| !(effect is Log) implies effects.contains(effect)
        == front.contains(effect) by {
        if effects.contains(effect) {
            let k = choose|k: int| 0 <= k < effects.len() && effects[k] == effect;
            assert(front[k] == effect);
        }
        if front.contains(effect) {
            let k = choose|k: int| 0 <= k < front.len() && front[k] == effect;
            assert(effects[k] == effect);
        }
    }
    assert forall|pane: Seq<char>| #[trigger]
        effects.contains(EffectView::Attention(pane)) <==> transition_in(prev, snap, pane) by {
        assert(effects.contains(EffectView::Attention(pane)) == front.contains(
            EffectView::Attention(pane),
        ));
    }
    assert forall|toast: ToastView| #[trigger]
        effects.contains(EffectView::Show(toast)) <==> exists|pane: Seq<char>| #[trigger]
            transition_in(prev, snap, pane) && in_background(snap, pane) && toast == toast_in(
                snap,
                pane,
            ) by {
        assert(effects.contains(EffectView::Show(toast)) == front.contains(
            EffectView::Show(toast),
        ));
    }
}

/// A transition that falls into the gap around a reconnect is not lost: the baseline snapshot of the
/// next connection notifies of exactly the attention transitions between the statuses carried over
/// and the snapshot, those in the background with a notification.
pub proof fn law_gap_is_closed(
    watched: Set<Seq<char>>,
    state: StateView,
    snap: JsonView,
    next: RunView,
    after: StateView,
    effects: Seq<EffectView>,
)
    requires
        state.seeded,
        stepped(
            RunView::Baseline(watched),
            state,
            EventView::Snapshot(Some(snap)),
            next,
            after,
            effects,
        ),
    ensures
        notifies_exactly(effects, state.prev, snap),
{
    let live = snapshot_rows(snap).dom();
    let logs = baseline_logs(state.seeded, live.len(), watched.len());
    let told = effects.len() - logs.len();
    lemma_recoveries_notify(effects.take(told), state.prev, snap);
    assert forall|i: int| told <= i < effects.len() implies (#[trigger] effects[i]) is Log by {
        assert(effects[i] == effects.skip(told)[i - told]);
    }
    lemma_tail_is_logs(effects, told, state.prev, snap);
}

/// The first baseline is silent: it notes no pane and shows no notification, whatever the snapshot
/// says, and its statuses are adopted.
pub proof fn law_first_baseline_is_silent(
    watched: Set<Seq<char>>,
    state: StateView,
    snap: JsonView,
    next: RunView,
    after: StateView,
    effects: Seq<EffectView>,
)
    requires
        !state.seeded,
        stepped(
            RunView::Baseline(watched),
            state,
            EventView::Snapshot(Some(snap)),
            next,
            after,
            effects,
        ),
    ensures
        forall|i: int| 0 <= i < effects.len() ==> (#[trigger] effects[i]) is Log,
        after == (StateView { prev: statuses(snapshot_rows(snap)), seeded: true }),
{
    let live = snapshot_rows(snap).dom();
    let logs = baseline_logs(state.seeded, live.len(), watched.len());
    let told = effects.len() - logs.len();
    let front = effects.take(told);
    assert(recovers(front, Map::<Seq<char>, RecoveryView>::empty()));
    let order = choose|order: Seq<(Seq<char>, RecoveryView)>| #[trigger]
        lists(order, Map::<Seq<char>, RecoveryView>::empty()) && front == all_recovery_effects(
            order,
        );
    assert(order.len() == 0) by {
        if order.len() > 0 {
            assert(Map::<Seq<char>, RecoveryView>::empty().contains_key(order[0].0));
        }
    }
    assert(front.len() == 0);
    assert forall|i: int| 0 <= i < effects.len() implies (#[trigger] effects[i]) is Log by {
        assert(effects[i] == effects.skip(told)[i - told]);
    }
}

/// The comparison with a snapshot, after a pane appeared or after a silence, notifies of exactly the
/// attention transitions that the stream did not deliver.
pub proof fn law_resync_recovers(
    watched: Set<Seq<char>>,
    cause: Cause,
    state: StateView,
    snap: JsonView,
    next: RunView,
    after: StateView,
    effects: Seq<EffectView>,
)
    requires
        stepped(
            RunView::Syncing(watched, cause),
            state,
            EventView::Snapshot(Some(snap)),
            next,
            after,
            effects,
        ),
    ensures
        notifies_exactly(effects, state.prev, snap),
{
    if snapshot_rows(snap).dom().subset_of(watched) {
        lemma_recoveries_notify(effects, state.prev, snap);
    } else {
        let told = effects.len() - 1;
        assert(effects.drop_last() =~= effects.take(told));
        lemma_recoveries_notify(effects.take(told), state.prev, snap);
        lemma_tail_is_logs(effects, told, state.prev, snap);
    }
}

/// A status event, and the snapshot that follows it where it is an attention transition: the pane is
/// noted in any case, and the notification is shown exactly where the pane is in the background.
pub proof fn law_status_event_notifies(
    watched: Set<Seq<char>>,
    state: StateView,
    data: JsonView,
    judging: RunView,
    between: StateView,
    noted: Seq<EffectView>,
    snap: JsonView,
    next: RunView,
    after: StateView,
    shown: Seq<EffectView>,
)
    requires
        event_enters(state.prev, data),
        stepped(
            RunView::Streaming(watched),
            state,
            EventView::Message(MsgView::Status(data)),
            judging,
            between,
            noted,
        ),
        stepped(judging, between, EventView::Snapshot(Some(snap)), next, after, shown),
    ensures
        noted == seq![EffectView::Attention(status_row(data).0)],
        ({
            let (pane, row) = status_row(data);
            let toast = toast_of(pane, row.status, row.agent, snapshot_label(snap, row.ws));
            shown == if row.ws != snapshot_focus(snap) {
                seq![EffectView::Show(toast), EffectView::Log(toast.record)]
            } else {
                Seq::<EffectView>::empty()
            }
        }),
        next == RunView::Streaming(watched),
{
}

/// A pane is noted exactly when its known status goes from one that does not want attention to one
/// that does, by an event or by a snapshot, whether it is in the background or not. The first
/// baseline is left out: it notes no pane.
pub proof fn law_noted_when_the_known_status_enters(
    run: RunView,
    state: StateView,
    event: EventView,
    next: RunView,
    after: StateView,
    effects: Seq<EffectView>,
    pane: Seq<char>,
)
    requires
        stepped(run, state, event, next, after, effects),
        run is Baseline ==> state.seeded,
    ensures
        effects.contains(EffectView::Attention(pane)) <==> enters(
            last_status(state.prev, pane),
            last_status(after.prev, pane),
        ),
{
    lemma_unknown_is_quiet();
    match (run, event) {
        (RunView::Baseline(watched), EventView::Snapshot(Some(snap))) => {
            law_gap_is_closed(watched, state, snap, next, after, effects);
            lemma_adopted_status(snap, pane);
        },
        (RunView::Syncing(watched, cause), EventView::Snapshot(Some(snap))) => {
            law_resync_recovers(watched, cause, state, snap, next, after, effects);
            lemma_adopted_status(snap, pane);
        },
        (RunView::Streaming(_), EventView::Message(MsgView::Status(data))) => {
            if event_enters(state.prev, data) {
                assert(effects[0] == EffectView::Attention(status_row(data).0));
            }
        },
        (RunView::Subscribing(panes), EventView::Reply(line)) => {
            assert(forall|i: int| 0 <= i < effects.len() ==> (#[trigger] effects[i]) is Log);
        },
        _ => {},
    }
}

proof fn lemma_unknown_is_quiet()
    ensures
        !wants_attention(""@),
{
    reveal_strlit("");
    reveal_strlit("blocked");
    reveal_strlit("done");
    assert(""@.len() == 0 && "blocked"@.len() == 7 && "done"@.len() == 4);
}

proof fn lemma_adopted_status(snap: JsonView, pane: Seq<char>)
    ensures
        last_status(statuses(snapshot_rows(snap)), pane) == if snapshot_rows(snap).contains_key(
            pane,
        ) {
            snapshot_rows(snap)[pane].status
        } else {
            ""@
        },
{
}

/// A pane is judged only because it wants attention.
pub proof fn law_judged_for_attention(
    run: RunView,
    state: StateView,
    event: EventView,
    next: RunView,
    after: StateView,
    effects: Seq<EffectView>,
)
    requires
        stepped(run, state, event, next, after, effects),
        run is Judging ==> wants_attention(run->Judging_2.status),
    ensures
        next is Judging ==> wants_attention(next->Judging_2.status),
{
}

/// The workspace in a row does not have the focus, and the notification is that of the row.
pub open spec fn toast_of_background(
    toast: ToastView,
    pane: Seq<char>,
    row: RowView,
    snap: JsonView,
) -> bool {
    &&& row.ws != snapshot_focus(snap)
    &&& wants_attention(row.status)
    &&& toast == toast_of(pane, row.status, row.agent, snapshot_label(snap, row.ws))
}

/// A notification is shown only on a snapshot, and only of a pane that wants attention in a
/// workspace without the focus in that snapshot.
pub proof fn law_shown_only_in_the_background(
    run: RunView,
    state: StateView,
    event: EventView,
    next: RunView,
    after: StateView,
    effects: Seq<EffectView>,
    toast: ToastView,
)
    requires
        stepped(run, state, event, next, after, effects),
        run is Judging ==> wants_attention(run->Judging_2.status),
        effects.contains(EffectView::Show(toast)),
    ensures
        event is Snapshot && event->Snapshot_0 is Some,
        exists|pane: Seq<char>, row: RowView| #[trigger]
            toast_of_background(toast, pane, row, event->Snapshot_0->Some_0),
{
    match (run, event) {
        (RunView::Baseline(watched), EventView::Snapshot(Some(snap))) => {
            if state.seeded {
                law_gap_is_closed(watched, state, snap, next, after, effects);
                lemma_shown_row(effects, state.prev, snap, toast);
            } else {
                law_first_baseline_is_silent(watched, state, snap, next, after, effects);
            }
        },
        (RunView::Syncing(watched, cause), EventView::Snapshot(Some(snap))) => {
            law_resync_recovers(watched, cause, state, snap, next, after, effects);
            lemma_shown_row(effects, state.prev, snap, toast);
        },
        (RunView::Judging(watched, pane, row), EventView::Snapshot(Some(snap))) => {
            assert(toast_of_background(toast, pane, row, snap));
        },
        _ => {
            assert(forall|i: int| 0 <= i < effects.len() ==> !((#[trigger] effects[i]) is Show));
        },
    }
}

proof fn lemma_shown_row(
    effects: Seq<EffectView>,
    prev: Map<Seq<char>, Seq<char>>,
    snap: JsonView,
    toast: ToastView,
)
    requires
        notifies_exactly(effects, prev, snap),
        effects.contains(EffectView::Show(toast)),
    ensures
        exists|pane: Seq<char>, row: RowView| #[trigger]
            toast_of_background(toast, pane, row, snap),
{
    let pane = choose|pane: Seq<char>| #[trigger]
        transition_in(prev, snap, pane) && in_background(snap, pane) && toast == toast_in(
            snap,
            pane,
        );
    assert(toast_of_background(toast, pane, snapshot_rows(snap)[pane], snap));
}

/// A status event that is no attention transition has no effect but that the status is known.
pub proof fn law_other_status_events_are_silent(
    watched: Set<Seq<char>>,
    state: StateView,
    data: JsonView,
    next: RunView,
    after: StateView,
    effects: Seq<EffectView>,
)
    requires
        !event_enters(state.prev, data),
        stepped(
            RunView::Streaming(watched),
            state,
            EventView::Message(MsgView::Status(data)),
            next,
            after,
            effects,
        ),
    ensures
        next == RunView::Streaming(watched),
        effects == Seq::<EffectView>::empty(),
        after.prev == prev_after(state.prev, data),
{
}

/// A pane that is known to want attention does not give rise to a second notification while it goes
/// on wanting it, neither by an event nor by a snapshot.
pub proof fn law_known_attention_is_quiet(
    prev: Map<Seq<char>, Seq<char>>,
    pane: Seq<char>,
    data: JsonView,
    snap: JsonView,
)
    requires
        wants_attention(last_status(prev, pane)),
    ensures
        status_row(data).0 == pane ==> !event_enters(prev, data),
        !transition_in(prev, snap, pane),
{
}

/// A transition that the stream delivered is not recovered a second time: after the event, no
/// snapshot shows a transition of the pane.
pub proof fn law_delivered_is_not_recovered(
    prev: Map<Seq<char>, Seq<char>>,
    data: JsonView,
    snap: JsonView,
)
    requires
        event_enters(prev, data),
    ensures
        !transition_in(prev_after(prev, data), snap, status_row(data).0),
{
}

/// A transition that a snapshot showed is not recovered a second time: with the statuses of a
/// snapshot adopted, no later snapshot shows a transition of a pane that wanted attention in it, and
/// the same snapshot shows none at all.
pub proof fn law_recovered_is_not_recovered_again(first: JsonView, later: JsonView)
    ensures
        forall|pane: Seq<char>|
            snapshot_rows(first).contains_key(pane) && wants_attention(
                (#[trigger] snapshot_rows(first)[pane]).status,
            ) ==> !transition_in(statuses(snapshot_rows(first)), later, pane),
        recovered_from(statuses(snapshot_rows(first)), first, false) == Map::<
            Seq<char>,
            RecoveryView,
        >::empty(),
{
    assert(recovered_from(statuses(snapshot_rows(first)), first, false) =~= Map::<
        Seq<char>,
        RecoveryView,
    >::empty());
}

/// A pane that went away is forgotten: it is not watched, no status of it is known, and an attention
/// status of a pane with its id is a transition again.
pub proof fn law_gone_pane_is_forgotten(
    watched: Set<Seq<char>>,
    state: StateView,
    pane: Seq<char>,
    next: RunView,
    after: StateView,
    effects: Seq<EffectView>,
    status: Seq<char>,
)
    requires
        stepped(
            RunView::Streaming(watched),
            state,
            EventView::Message(MsgView::PaneGone(pane)),
            next,
            after,
            effects,
        ),
    ensures
        next is Streaming && !next->Streaming_0.contains(pane),
        !after.prev.contains_key(pane),
        wants_attention(status) ==> enters(last_status(after.prev, pane), status),
{
    lemma_unknown_is_quiet();
}

/// How far a connection has come.
pub open spec fn progress(run: RunView) -> int {
    match run {
        RunView::Discovering => 0,
        RunView::Subscribing(_) => 1,
        RunView::Baseline(_) => 2,
        RunView::Streaming(_) | RunView::Judging(_, _, _) | RunView::Syncing(_, _) => 3,
        RunView::Ended(_) => 4,
    }
}

/// A connection never goes back, and the statuses stay as they are until the subscription is live
/// and the baseline was taken.
pub proof fn law_connection_goes_forward(
    run: RunView,
    state: StateView,
    event: EventView,
    next: RunView,
    after: StateView,
    effects: Seq<EffectView>,
)
    requires
        stepped(run, state, event, next, after, effects),
    ensures
        progress(run) <= progress(next),
        run is Discovering || run is Subscribing ==> after == state,
        next is Baseline ==> run is Subscribing || run is Baseline,
        next is Streaming ==> progress(run) >= 2,
{
}

/// A record of a connection: where it stood, what was carried, and the events in between.
pub open spec fn recorded(
    runs: Seq<RunView>,
    states: Seq<StateView>,
    events: Seq<EventView>,
    effects: Seq<Seq<EffectView>>,
) -> bool {
    &&& runs.len() == events.len() + 1
    &&& states.len() == runs.len()
    &&& effects.len() == events.len()
    &&& forall|i: int|
        0 <= i < events.len() ==> stepped(
            runs[i],
            states[i],
            #[trigger] events[i],
            runs[i + 1],
            states[i + 1],
            effects[i],
        )
}

/// Once a subscription is live nothing is subscribed on its connection again, and the baseline
/// snapshot is taken after the subscription: of two moments of a connection the later is never
/// behind the earlier.
pub proof fn law_one_subscription_per_connection(
    runs: Seq<RunView>,
    states: Seq<StateView>,
    events: Seq<EventView>,
    effects: Seq<Seq<EffectView>>,
    i: int,
    j: int,
)
    requires
        recorded(runs, states, events, effects),
        0 <= i <= j < runs.len(),
    ensures
        progress(runs[i]) <= progress(runs[j]),
        progress(runs[i]) >= 2 ==> !(runs[j] is Discovering) && !(runs[j] is Subscribing),
    decreases j - i,
{
    if i < j {
        law_one_subscription_per_connection(runs, states, events, effects, i, j - 1);
        assert(stepped(
            runs[j - 1],
            states[j - 1],
            events[j - 1],
            runs[j],
            states[j],
            effects[j - 1],
        ));
    }
}

/// The statuses known when the last connection ended are those that the baseline snapshot of this
/// one is compared with, whatever happened in between.
pub proof fn law_statuses_are_carried_to_the_baseline(
    runs: Seq<RunView>,
    states: Seq<StateView>,
    events: Seq<EventView>,
    effects: Seq<Seq<EffectView>>,
    j: int,
)
    requires
        recorded(runs, states, events, effects),
        0 <= j < runs.len(),
        progress(runs[j]) <= 2,
    ensures
        states[j] == states[0],
    decreases j,
{
    if j > 0 {
        assert(stepped(
            runs[j - 1],
            states[j - 1],
            events[j - 1],
            runs[j],
            states[j],
            effects[j - 1],
        ));
        law_statuses_are_carried_to_the_baseline(runs, states, events, effects, j - 1);
    }
}

/// A new agent pane is picked up at once: the message that a pane was added, and a snapshot that
/// shows an agent pane that is not watched, end the connection for a wider subscription.
pub proof fn law_new_agent_pane_is_picked_up(
    watched: Set<Seq<char>>,
    state: StateView,
    syncing: RunView,
    between: StateView,
    none: Seq<EffectView>,
    snap: JsonView,
    pane: Seq<char>,
    next: RunView,
    after: StateView,
    effects: Seq<EffectView>,
)
    requires
        stepped(
            RunView::Streaming(watched),
            state,
            EventView::Message(MsgView::PaneAdded),
            syncing,
            between,
            none,
        ),
        stepped(syncing, between, EventView::Snapshot(Some(snap)), next, after, effects),
        snapshot_rows(snap).contains_key(pane),
        !watched.contains(pane),
    ensures
        next == RunView::Ended(OutcomeView::Resubscribe),
{
    assert(snapshot_rows(snap).dom().contains(pane));
}

/// Events are awaited only with every agent pane of the last snapshot watched: an agent pane without
/// a subscription ends the connection, so that the next one can subscribe to it.
pub proof fn law_no_agent_pane_stays_unwatched(
    run: RunView,
    state: StateView,
    snap: JsonView,
    next: RunView,
    after: StateView,
    effects: Seq<EffectView>,
)
    requires
        run is Baseline || run is Syncing,
        stepped(run, state, EventView::Snapshot(Some(snap)), next, after, effects),
    ensures
        ({
            let live = snapshot_rows(snap).dom();
            let watched = match run {
                RunView::Baseline(watched) => watched,
                RunView::Syncing(watched, _) => watched,
                _ => Set::empty(),
            };
            &&& next is Streaming <==> live.subset_of(watched)
            &&& next is Streaming ==> next->Streaming_0 == watched
            &&& !(next is Streaming) ==> next == RunView::Ended(
                OutcomeView::Resubscribe,
            )
        }),
        after.prev.dom() == snapshot_rows(snap).dom(),
{
    assert(statuses(snapshot_rows(snap)).dom() =~= snapshot_rows(snap).dom());
}

} // verus!
