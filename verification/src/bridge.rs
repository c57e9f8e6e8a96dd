//! The life of a connection, from the first snapshot to the reconnect: which event leads to which
//! decision.
use vstd::prelude::*;

use crate::event::{Msg, MsgView};
use crate::json::{json_written, reads_as, Json, JsonView};
use crate::notify::{raise, raised, toast_view, Toast, ToastView};
use crate::panes::{
    keys_of, lemma_lists_len, lists, one_missing, pane_set, PaneMap, PaneSet,
};
use crate::snapshot::{agent_rows, focused_ws, snapshot_focus, snapshot_rows, Row, RowView};
use crate::state::{
    event_enters, prev_after, reconcile, recovered_from, status_changed, status_row, statuses,
    Recovery, RecoveryView, State, StateView,
};
use crate::subscribe::{
    attempt_on, ids, request, subscribe_reply, subscribe_request, Attempt, AttemptView,
};
use crate::text::{digits, push_number};

verus! {

/// How a connection ends.
pub enum Outcome {
    /// On purpose, to widen the subscription.
    Resubscribe,
    /// Because of an error.
    Failed(String),
}

/// How a connection ends.
pub enum OutcomeView {
    Resubscribe,
    Failed(Seq<char>),
}

impl View for Outcome {
    type V = OutcomeView;

    open spec fn view(&self) -> OutcomeView {
        match self {
            Outcome::Resubscribe => OutcomeView::Resubscribe,
            Outcome::Failed(why) => OutcomeView::Failed(why@),
        }
    }
}

/// Why the panes are compared with a snapshot.
pub enum Cause {
    /// A pane appeared or gained an agent.
    PaneAdded,
    /// Nothing was heard for a while.
    Timeout,
}

/// Where a connection stands.
pub enum Run {
    /// The panes to subscribe to are not known yet.
    Discovering,
    /// These panes are to be subscribed to.
    Subscribing(Vec<String>),
    /// These panes are subscribed to; the baseline snapshot is missing.
    Baseline(PaneSet),
    /// Events of these panes are awaited.
    Streaming(PaneSet),
    /// A pane wants attention; a snapshot has to tell whether it is in the background.
    Judging(PaneSet, String, Row),
    /// The panes are to be compared with a snapshot.
    Syncing(PaneSet, Cause),
    /// The connection is over.
    Ended(Outcome),
}

/// Where a connection stands.
#[verifier::ext_equal]
pub enum RunView {
    Discovering,
    Subscribing(Seq<Seq<char>>),
    Baseline(Set<Seq<char>>),
    Streaming(Set<Seq<char>>),
    Judging(Set<Seq<char>>, Seq<char>, RowView),
    Syncing(Set<Seq<char>>, Cause),
    Ended(OutcomeView),
}

impl View for Run {
    type V = RunView;

    open spec fn view(&self) -> RunView {
        match self {
            Run::Discovering => RunView::Discovering,
            Run::Subscribing(panes) => RunView::Subscribing(ids(panes@)),
            Run::Baseline(watched) => RunView::Baseline(watched@.dom()),
            Run::Streaming(watched) => RunView::Streaming(watched@.dom()),
            Run::Judging(watched, pane, row) => RunView::Judging(watched@.dom(), pane@, row@),
            Run::Syncing(watched, cause) => RunView::Syncing(watched@.dom(), *cause),
            Run::Ended(outcome) => RunView::Ended(outcome@),
        }
    }
}

/// What happens to a connection.
pub enum Event {
    /// A snapshot was asked for: here it is, or it could not be had.
    Snapshot(Option<Json>),
    /// The server answered the subscription request with this line.
    Reply(String),
    /// The server closed the connection instead of answering.
    Closed,
    /// Reading or writing failed.
    Failed(String),
    /// A message came from the event stream.
    Message(Msg),
    /// No message came for a while.
    Timeout,
    /// The reader of the event stream is gone.
    ReaderClosed,
}

/// What happens to a connection.
pub enum EventView {
    Snapshot(Option<JsonView>),
    Reply(Seq<char>),
    Closed,
    Failed(Seq<char>),
    Message(MsgView),
    Timeout,
    ReaderClosed,
}

impl View for Event {
    type V = EventView;

    open spec fn view(&self) -> EventView {
        match self {
            Event::Snapshot(snap) => EventView::Snapshot(
                match snap {
                    Some(snap) => Some(snap@),
                    None => None,
                },
            ),
            Event::Reply(line) => EventView::Reply(line@),
            Event::Closed => EventView::Closed,
            Event::Failed(why) => EventView::Failed(why@),
            Event::Message(msg) => EventView::Message(msg@),
            Event::Timeout => EventView::Timeout,
            Event::ReaderClosed => EventView::ReaderClosed,
        }
    }
}

/// What is to be done to learn of the next event.
pub enum Action {
    /// Ask for a snapshot, on a connection of its own.
    TakeSnapshot,
    /// Send this line on a fresh connection and read the answer.
    Subscribe(String),
    /// Wait for a message from the event stream.
    Receive,
    /// Leave the connection.
    Stop,
}

/// Something to be done on the way.
pub enum Effect {
    /// Write this to the log.
    Log(String),
    /// Note that this pane is the one that last wanted attention.
    Attention(String),
    /// Show this notification.
    Show(Toast),
}

/// Something to be done on the way.
pub enum EffectView {
    Log(Seq<char>),
    Attention(Seq<char>),
    Show(ToastView),
}

impl View for Effect {
    type V = EffectView;

    open spec fn view(&self) -> EffectView {
        match self {
            Effect::Log(line) => EffectView::Log(line@),
            Effect::Attention(pane) => EffectView::Attention(pane@),
            Effect::Show(toast) => EffectView::Show(toast@),
        }
    }
}

/// What these effects are.
pub open spec fn effects_of(effects: Seq<Effect>) -> Seq<EffectView> {
    effects.map_values(|effect: Effect| effect@)
}

/// The effects of a notification: it is shown and recorded.
pub open spec fn toast_effects(toast: Option<ToastView>) -> Seq<EffectView> {
    match toast {
        Some(toast) => seq![EffectView::Show(toast), EffectView::Log(toast.record)],
        None => Seq::empty(),
    }
}

/// The effects of a recovered transition: it is logged, the pane is noted, and the notification
/// follows where one is due.
pub open spec fn recovery_effects(pane: Seq<char>, recovery: RecoveryView) -> Seq<EffectView> {
    seq![
        EffectView::Log(
            "recovered missed transition "@ + pane + " "@ + recovery.was + " -> "@
                + recovery.status,
        ),
        EffectView::Attention(pane),
    ] + toast_effects(recovery.toast)
}

/// The effects of recovered transitions, one after the other.
pub open spec fn all_recovery_effects(order: Seq<(Seq<char>, RecoveryView)>) -> Seq<EffectView>
    decreases order.len(),
{
    if order.len() == 0 {
        Seq::empty()
    } else {
        all_recovery_effects(order.drop_last()) + recovery_effects(order.last().0, order.last().1)
    }
}

/// These are the effects of the recovered transitions, in some order of the panes.
pub open spec fn recovers(
    effects: Seq<EffectView>,
    recovered: Map<Seq<char>, RecoveryView>,
) -> bool {
    exists|order: Seq<(Seq<char>, RecoveryView)>| #[trigger]
        lists(order, recovered) && effects == all_recovery_effects(order)
}

/// The connection ends with this error.
pub open spec fn failing(why: Seq<char>) -> RunView {
    RunView::Ended(OutcomeView::Failed(why))
}

/// The lines that the log gets once the baseline was taken.
pub open spec fn baseline_logs(seeded: bool, live: nat, watched: nat) -> Seq<EffectView> {
    let subscribed = EffectView::Log("subscribed to "@ + digits(watched) + " agent panes"@);
    if seeded {
        seq![subscribed]
    } else {
        seq![
            EffectView::Log(
                "seeded "@ + digits(live) + " agent panes (no toasts on first sync)"@,
            ),
            subscribed,
        ]
    }
}

/// What the log says of a pane that is not watched.
pub open spec fn unwatched_log(cause: Cause, pane: Seq<char>) -> Seq<char> {
    match cause {
        Cause::PaneAdded => "new agent pane "@ + pane + "; resubscribing"@,
        Cause::Timeout => "resync found unwatched agent pane "@ + pane,
    }
}

/// The first snapshot gives the panes to subscribe to, each once.
pub open spec fn discovered(snap: Option<JsonView>, next: RunView) -> bool {
    match snap {
        Some(snap) => {
            &&& next is Subscribing
            &&& next->Subscribing_0.no_duplicates()
            &&& next->Subscribing_0.to_set() == snapshot_rows(snap).dom()
        },
        None => next == failing("initial snapshot failed"@),
    }
}

/// What the answer to a subscription request leads to.
pub open spec fn answered(
    panes: Seq<Seq<char>>,
    line: Seq<char>,
    next: RunView,
    effects: Seq<EffectView>,
) -> bool {
    match attempt_on(panes, line) {
        AttemptView::Started(subscribed) => {
            &&& next == RunView::Baseline(subscribed.to_set())
            &&& effects == Seq::<EffectView>::empty()
        },
        AttemptView::Retry(left, gone) => {
            &&& next == RunView::Subscribing(left)
            &&& effects == seq![
                EffectView::Log("dropping vanished pane "@ + gone + " from subscription"@),
            ]
        },
        AttemptView::Failed(why) => {
            &&& next == failing(why)
            &&& effects == Seq::<EffectView>::empty()
        },
    }
}

/// The state after a snapshot was adopted.
pub open spec fn adopted(snap: JsonView, seeded: bool) -> StateView {
    StateView { prev: statuses(snapshot_rows(snap)), seeded }
}

/// What the baseline snapshot leads to: transitions of the gap are recovered, unless this is the
/// first baseline, and a pane without a subscription asks for a wider one.
pub open spec fn based(
    watched: Set<Seq<char>>,
    state: StateView,
    snap: JsonView,
    next: RunView,
    after: StateView,
    effects: Seq<EffectView>,
) -> bool {
    let live = snapshot_rows(snap).dom();
    let logs = baseline_logs(state.seeded, live.len(), watched.len());
    let told = effects.len() - logs.len();
    &&& after == adopted(snap, true)
    &&& next == if live.subset_of(watched) {
        RunView::Streaming(watched)
    } else {
        RunView::Ended(OutcomeView::Resubscribe)
    }
    &&& told >= 0
    &&& recovers(effects.take(told), recovered_from(state.prev, snap, !state.seeded))
    &&& effects.skip(told) == logs
}

/// What a message of the event stream leads to.
pub open spec fn heard(
    watched: Set<Seq<char>>,
    state: StateView,
    msg: MsgView,
    next: RunView,
    after: StateView,
    effects: Seq<EffectView>,
) -> bool {
    match msg {
        MsgView::Status(data) => {
            let (pane, row) = status_row(data);
            &&& after == (StateView { prev: prev_after(state.prev, data), seeded: state.seeded })
            &&& if event_enters(state.prev, data) {
                &&& next == RunView::Judging(watched, pane, row)
                &&& effects == seq![EffectView::Attention(pane)]
            } else {
                &&& next == RunView::Streaming(watched)
                &&& effects == Seq::<EffectView>::empty()
            }
        },
        MsgView::PaneAdded => {
            &&& next == RunView::Syncing(watched, Cause::PaneAdded)
            &&& after == state
            &&& effects == Seq::<EffectView>::empty()
        },
        MsgView::PaneGone(pane) => {
            &&& next == RunView::Streaming(watched.remove(pane))
            &&& after == (StateView { prev: state.prev.remove(pane), seeded: state.seeded })
            &&& effects == Seq::<EffectView>::empty()
        },
        MsgView::Disconnected => {
            &&& next == failing("event stream disconnected"@)
            &&& after == state
            &&& effects == Seq::<EffectView>::empty()
        },
    }
}

/// What a snapshot leads to that was taken to compare the panes with: a pane without a
/// subscription, no matter which, asks for a wider one.
pub open spec fn synced(
    watched: Set<Seq<char>>,
    cause: Cause,
    state: StateView,
    snap: JsonView,
    next: RunView,
    after: StateView,
    effects: Seq<EffectView>,
) -> bool {
    let live = snapshot_rows(snap).dom();
    let recovered = recovered_from(state.prev, snap, false);
    &&& after == adopted(snap, state.seeded)
    &&& if live.subset_of(watched) {
        &&& next == RunView::Streaming(watched)
        &&& recovers(effects, recovered)
    } else {
        &&& next == RunView::Ended(OutcomeView::Resubscribe)
        &&& effects.len() > 0
        &&& recovers(effects.drop_last(), recovered)
        &&& exists|pane: Seq<char>| #[trigger]
            live.contains(pane) && !watched.contains(pane) && effects.last() == EffectView::Log(
                unwatched_log(cause, pane),
            )
    }
}

/// How an event changes where a connection stands and what is carried to the next one, and what
/// is to be done on the way. An event that is not awaited changes nothing.
pub open spec fn stepped(
    run: RunView,
    state: StateView,
    event: EventView,
    next: RunView,
    after: StateView,
    effects: Seq<EffectView>,
) -> bool {
    let quiet = after == state && effects == Seq::<EffectView>::empty();
    match (run, event) {
        (RunView::Ended(_), _) => next == run && quiet,
        (_, EventView::Failed(why)) => next == failing(why) && quiet,
        (RunView::Discovering, EventView::Snapshot(snap)) => discovered(snap, next) && quiet,
        (RunView::Subscribing(panes), EventView::Reply(line)) => answered(
            panes,
            line,
            next,
            effects,
        ) && after == state,
        (RunView::Subscribing(_), EventView::Closed) => next == failing(
            "server closed connection during subscribe"@,
        ) && quiet,
        (RunView::Baseline(watched), EventView::Snapshot(Some(snap))) => based(
            watched,
            state,
            snap,
            next,
            after,
            effects,
        ),
        (RunView::Baseline(_), EventView::Snapshot(None)) => next == failing(
            "baseline snapshot failed"@,
        ) && quiet,
        (RunView::Streaming(watched), EventView::Message(msg)) => heard(
            watched,
            state,
            msg,
            next,
            after,
            effects,
        ),
        (RunView::Streaming(watched), EventView::Timeout) => next == RunView::Syncing(
            watched,
            Cause::Timeout,
        ) && quiet,
        (RunView::Streaming(_), EventView::ReaderClosed) => next == failing(
            "reader channel closed"@,
        ) && quiet,
        (RunView::Judging(watched, pane, row), EventView::Snapshot(Some(snap))) => {
            &&& next == RunView::Streaming(watched)
            &&& after == state
            &&& effects == toast_effects(raised(pane, row, snap, snapshot_focus(snap)))
        },
        (RunView::Syncing(watched, cause), EventView::Snapshot(Some(snap))) => synced(
            watched,
            cause,
            state,
            snap,
            next,
            after,
            effects,
        ),
        (RunView::Judging(watched, _, _), EventView::Snapshot(None)) => next
            == RunView::Streaming(watched) && quiet,
        (RunView::Syncing(watched, _), EventView::Snapshot(None)) => next == RunView::Streaming(
            watched,
        ) && quiet,
        _ => next == run && quiet,
    }
}

fn push_toast(effects: &mut Vec<Effect>, toast: Option<Toast>)
    ensures
        effects_of(final(effects)@) == effects_of(old(effects)@) + toast_effects(
            toast_view(toast),
        ),
{
    let ghost before = effects_of(effects@);
    if let Some(toast) = toast {
        let record = toast.record.clone();
        effects.push(Effect::Show(toast));
        effects.push(Effect::Log(record));
    }
    assert(effects_of(effects@) =~= before + toast_effects(toast_view(toast)));
}

fn recover(recovered: PaneMap<Recovery>) -> (effects: Vec<Effect>)
    ensures
        recovers(effects_of(effects@), recovered@),
{
    let entries = recovered.into_entries();
    let ghost order = entries@.map_values(|entry: (String, Recovery)| (entry.0@, entry.1@));
    let mut effects: Vec<Effect> = Vec::new();
    assert(effects_of(effects@) =~= Seq::empty());
    assert(order.take(0) =~= Seq::empty());
    for entry in it: entries
        invariant
            it.seq() == entries@,
            order == entries@.map_values(|entry: (String, Recovery)| (entry.0@, entry.1@)),
            effects_of(effects@) == all_recovery_effects(order.take(it.index())),
    {
        let ghost i = it.index();
        let ghost before = effects_of(effects@);
        assert(order.take(i + 1).drop_last() =~= order.take(i));
        assert(order.take(i + 1).last() == order[i]);
        let (pane, recovery) = entry;
        let mut line = "recovered missed transition ".to_string();
        line.append(pane.as_str());
        line.append(" ");
        line.append(recovery.was.as_str());
        line.append(" -> ");
        line.append(recovery.status.as_str());
        effects.push(Effect::Log(line));
        effects.push(Effect::Attention(pane));
        push_toast(&mut effects, recovery.toast);
        assert(effects_of(effects@) =~= before + recovery_effects(order[i].0, order[i].1));
    }
    assert(order.take(order.len() as int) =~= order);
    effects
}

fn failed(why: &str) -> (end: (Run, Vec<Effect>))
    ensures
        end.0@ == failing(why@),
        effects_of(end.1@) == Seq::<EffectView>::empty(),
{
    let effects: Vec<Effect> = Vec::new();
    assert(effects_of(effects@) =~= Seq::empty());
    (Run::Ended(Outcome::Failed(why.to_string())), effects)
}

fn silent(run: Run) -> (end: (Run, Vec<Effect>))
    ensures
        end.0 == run,
        effects_of(end.1@) == Seq::<EffectView>::empty(),
{
    let effects: Vec<Effect> = Vec::new();
    assert(effects_of(effects@) =~= Seq::empty());
    (run, effects)
}

fn on_discovery(snap: Option<Json>) -> (end: (Run, Vec<Effect>))
    ensures
        discovered(
            match snap {
                Some(snap) => Some(snap@),
                None => None,
            },
            end.0@,
        ),
        effects_of(end.1@) == Seq::<EffectView>::empty(),
{
    match snap {
        Some(snap) => {
            let rows = agent_rows(&snap);
            let panes = rows.keys();
            proof {
                lemma_lists_len(rows.order(), rows@);
                assert(ids(panes@) == keys_of(rows.order()));
            }
            silent(Run::Subscribing(panes))
        },
        None => failed("initial snapshot failed"),
    }
}

fn on_reply(panes: Vec<String>, line: &str) -> (end: (Run, Vec<Effect>))
    ensures
        answered(ids(panes@), line@, end.0@, effects_of(end.1@)),
{
    match subscribe_reply(panes, line) {
        Attempt::Started(subscribed) => silent(Run::Baseline(pane_set(&subscribed))),
        Attempt::Retry(left, gone) => {
            let mut text = "dropping vanished pane ".to_string();
            text.append(gone.as_str());
            text.append(" from subscription");
            let effects: Vec<Effect> = vec![Effect::Log(text)];
            assert(effects_of(effects@) =~= seq![EffectView::Log(text@)]);
            (Run::Subscribing(left), effects)
        },
        Attempt::Failed(why) => failed(why.as_str()),
    }
}

fn on_baseline(watched: PaneSet, state: &mut State, snap: &Json) -> (end: (Run, Vec<Effect>))
    ensures
        based(watched@.dom(), old(state)@, snap@, end.0@, final(state)@, effects_of(end.1@)),
{
    let seeded = state.seeded;
    let out = reconcile(snap, state, !seeded);
    let mut effects = recover(out.recovered);
    let ghost told = effects_of(effects@);
    let live: usize = out.live.len();
    if !seeded {
        let mut line = "seeded ".to_string();
        push_number(&mut line, live);
        line.append(" agent panes (no toasts on first sync)");
        effects.push(Effect::Log(line));
        state.seeded = true;
    }
    let mut line = "subscribed to ".to_string();
    push_number(&mut line, watched.len());
    line.append(" agent panes");
    effects.push(Effect::Log(line));
    proof {
        let all = effects_of(effects@);
        let logs = baseline_logs(seeded, live as nat, watched@.dom().len());
        assert(all =~= told + logs);
        assert(all.take(all.len() - logs.len()) =~= told);
        assert(all.skip(all.len() - logs.len()) =~= logs);
    }
    if one_missing(&out.live, &watched).is_some() {
        (Run::Ended(Outcome::Resubscribe), effects)
    } else {
        (Run::Streaming(watched), effects)
    }
}

fn on_message(watched: PaneSet, state: &mut State, msg: Msg) -> (end: (Run, Vec<Effect>))
    ensures
        heard(watched@.dom(), old(state)@, msg@, end.0@, final(state)@, effects_of(end.1@)),
{
    match msg {
        Msg::Status(data) => match status_changed(&data, state) {
            Some((pane, row)) => {
                let effects: Vec<Effect> = vec![Effect::Attention(pane.clone())];
                assert(effects_of(effects@) =~= seq![EffectView::Attention(pane@)]);
                (Run::Judging(watched, pane, row), effects)
            },
            None => silent(Run::Streaming(watched)),
        },
        Msg::PaneAdded => silent(Run::Syncing(watched, Cause::PaneAdded)),
        Msg::PaneGone(pane) => {
            let mut left = watched;
            state.prev.remove(pane.as_str());
            left.remove(pane.as_str());
            assert(left@.dom() =~= watched@.dom().remove(pane@));
            silent(Run::Streaming(left))
        },
        Msg::Disconnected => failed("event stream disconnected"),
    }
}

fn on_sync(watched: PaneSet, cause: Cause, state: &mut State, snap: &Json) -> (end: (
    Run,
    Vec<Effect>,
))
    ensures
        synced(
            watched@.dom(),
            cause,
            old(state)@,
            snap@,
            end.0@,
            final(state)@,
            effects_of(end.1@),
        ),
{
    let out = reconcile(snap, state, false);
    let mut effects = recover(out.recovered);
    let ghost told = effects_of(effects@);
    match one_missing(&out.live, &watched) {
        Some(pane) => {
            let line = match cause {
                Cause::PaneAdded => {
                    let mut line = "new agent pane ".to_string();
                    line.append(pane.as_str());
                    line.append("; resubscribing");
                    line
                },
                Cause::Timeout => {
                    let mut line = "resync found unwatched agent pane ".to_string();
                    line.append(pane.as_str());
                    line
                },
            };
            effects.push(Effect::Log(line));
            proof {
                assert(effects_of(effects@).drop_last() =~= told);
                assert(snapshot_rows(snap@).dom().contains(pane@));
            }
            (Run::Ended(Outcome::Resubscribe), effects)
        },
        None => (Run::Streaming(watched), effects),
    }
}

impl Run {
    /// What is to be done to learn of the next event.
    pub fn action(&self) -> (action: Action)
        ensures
            match self@ {
                RunView::Discovering | RunView::Baseline(_) | RunView::Judging(_, _, _)
                | RunView::Syncing(_, _) => action is TakeSnapshot,
                RunView::Subscribing(panes) => action is Subscribe && action->Subscribe_0@
                    == json_written(request(panes)) + "\n"@ && !json_written(
                    request(panes),
                ).contains('\n') && reads_as(json_written(request(panes)), request(panes)),
                RunView::Streaming(_) => action is Receive,
                RunView::Ended(_) => action is Stop,
            },
    {
        match self {
            Run::Discovering => Action::TakeSnapshot,
            Run::Subscribing(panes) => Action::Subscribe(subscribe_request(panes)),
            Run::Baseline(_) => Action::TakeSnapshot,
            Run::Streaming(_) => Action::Receive,
            Run::Judging(_, _, _) => Action::TakeSnapshot,
            Run::Syncing(_, _) => Action::TakeSnapshot,
            Run::Ended(_) => Action::Stop,
        }
    }
}

/// Takes a connection one event further.
pub fn run(at: Run, state: &mut State, event: Event) -> (end: (Run, Vec<Effect>))
    ensures
        stepped(at@, old(state)@, event@, end.0@, final(state)@, effects_of(end.1@)),
{
    match at {
        Run::Ended(outcome) => silent(Run::Ended(outcome)),
        Run::Discovering => match event {
            Event::Snapshot(snap) => on_discovery(snap),
            Event::Failed(why) => failed(why.as_str()),
            _ => silent(Run::Discovering),
        },
        Run::Subscribing(panes) => match event {
            Event::Reply(line) => on_reply(panes, line.as_str()),
            Event::Closed => failed("server closed connection during subscribe"),
            Event::Failed(why) => failed(why.as_str()),
            _ => silent(Run::Subscribing(panes)),
        },
        Run::Baseline(watched) => match event {
            Event::Snapshot(Some(snap)) => on_baseline(watched, state, &snap),
            Event::Snapshot(None) => failed("baseline snapshot failed"),
            Event::Failed(why) => failed(why.as_str()),
            _ => silent(Run::Baseline(watched)),
        },
        Run::Streaming(watched) => match event {
            Event::Message(msg) => on_message(watched, state, msg),
            Event::Timeout => silent(Run::Syncing(watched, Cause::Timeout)),
            Event::ReaderClosed => failed("reader channel closed"),
            Event::Failed(why) => failed(why.as_str()),
            _ => silent(Run::Streaming(watched)),
        },
        Run::Judging(watched, pane, row) => match event {
            Event::Snapshot(Some(snap)) => {
                let focused = focused_ws(&snap);
                let toast = raise(pane.as_str(), &row, &snap, focused.as_str());
                let mut effects: Vec<Effect> = Vec::new();
                assert(effects_of(effects@) =~= Seq::empty());
                push_toast(&mut effects, toast);
                assert(effects_of(effects@) =~= toast_effects(toast_view(toast)));
                (Run::Streaming(watched), effects)
            },
            Event::Snapshot(None) => silent(Run::Streaming(watched)),
            Event::Failed(why) => failed(why.as_str()),
            _ => silent(Run::Judging(watched, pane, row)),
        },
        Run::Syncing(watched, cause) => match event {
            Event::Snapshot(Some(snap)) => on_sync(watched, cause, state, &snap),
            Event::Snapshot(None) => silent(Run::Streaming(watched)),
            Event::Failed(why) => failed(why.as_str()),
            _ => silent(Run::Syncing(watched, cause)),
        },
    }
}

/// The seconds to wait before the next connection after an error.
pub const BACKOFF: u64 = 3;

/// The seconds of silence after which the panes are compared with a snapshot.
pub const RESYNC: u64 = 60;

/// What follows the end of a connection: the line for the log, where there is one, and the seconds
/// to wait before the next connection. A reconnect on purpose does not wait.
pub fn after_run(outcome: &Outcome) -> (next: (Option<String>, u64))
    ensures
        match outcome@ {
            OutcomeView::Resubscribe => next.0 is None && next.1 == 0,
            OutcomeView::Failed(why) => next.0 is Some && next.0->Some_0@ == "error: "@ + why
                + "; reconnecting in 3s"@ && next.1 == BACKOFF,
        },
{
    match outcome {
        Outcome::Resubscribe => (None, 0),
        Outcome::Failed(why) => {
            let mut line = "error: ".to_string();
            line.append(why.as_str());
            line.append("; reconnecting in 3s");
            (Some(line), BACKOFF)
        },
    }
}

} // verus!
