//! The statuses carried from one connection to the next, and what a change of them gives rise to.
use vstd::prelude::*;

use crate::json::{Json, JsonView};
use crate::notify::{enters, is_attention, raise, raised, toast_view, Toast, ToastView};
use crate::panes::{has_key, lists, PaneMap};
use crate::snapshot::{
    agent_rows, focused_ws, row_with, snapshot_focus, snapshot_rows, text_at_or, text_or, Row,
    RowView,
};

verus! {

/// Everything that has to survive a reconnect.
pub struct State {
    /// The last known status of each pane.
    pub prev: PaneMap<String>,
    /// Whether the first baseline was taken.
    pub seeded: bool,
}

/// What is carried from one connection to the next.
#[verifier::ext_equal]
pub struct StateView {
    pub prev: Map<Seq<char>, Seq<char>>,
    pub seeded: bool,
}

impl View for State {
    type V = StateView;

    open spec fn view(&self) -> StateView {
        StateView { prev: self.prev@, seeded: self.seeded }
    }
}

impl Default for State {
    /// No status is known and no baseline was taken.
    fn default() -> (state: Self)
        ensures
            state@ == (StateView { prev: Map::empty(), seeded: false }),
    {
        State { prev: PaneMap::new(), seeded: false }
    }
}

/// An attention transition that the event stream did not deliver.
pub struct Recovery {
    pub was: String,
    pub status: String,
    pub toast: Option<Toast>,
}

/// What a recovered transition says.
pub struct RecoveryView {
    pub was: Seq<char>,
    pub status: Seq<char>,
    pub toast: Option<ToastView>,
}

impl View for Recovery {
    type V = RecoveryView;

    open spec fn view(&self) -> RecoveryView {
        RecoveryView { was: self.was@, status: self.status@, toast: toast_view(self.toast) }
    }
}

/// The panes that a snapshot shows and the transitions that it recovers.
pub struct Reconciled {
    pub live: PaneMap<()>,
    pub recovered: PaneMap<Recovery>,
}

/// The last known status of a pane: empty where none is known.
pub open spec fn last_status(prev: Map<Seq<char>, Seq<char>>, pane: Seq<char>) -> Seq<char> {
    if prev.contains_key(pane) {
        prev[pane]
    } else {
        ""@
    }
}

/// The statuses of these panes.
pub open spec fn statuses(rows: Map<Seq<char>, RowView>) -> Map<Seq<char>, Seq<char>> {
    Map::new(|pane: Seq<char>| rows.contains_key(pane), |pane: Seq<char>| rows[pane].status)
}

/// The attention transitions between the statuses known before and a snapshot, each with the
/// notification that it gives rise to.
pub open spec fn recoveries(prev: Map<Seq<char>, Seq<char>>, snap: JsonView) -> Map<
    Seq<char>,
    RecoveryView,
> {
    let rows = snapshot_rows(snap);
    Map::new(
        |pane: Seq<char>|
            rows.contains_key(pane) && enters(last_status(prev, pane), rows[pane].status),
        |pane: Seq<char>|
            RecoveryView {
                was: last_status(prev, pane),
                status: rows[pane].status,
                toast: raised(pane, rows[pane], snap, snapshot_focus(snap)),
            },
    )
}

/// The transitions that are recovered: none where the statuses are only adopted.
pub open spec fn recovered_from(
    prev: Map<Seq<char>, Seq<char>>,
    snap: JsonView,
    seed: bool,
) -> Map<Seq<char>, RecoveryView> {
    if seed {
        Map::empty()
    } else {
        recoveries(prev, snap)
    }
}

impl State {
    /// The last known status of a pane: empty where none is known.
    fn last(&self, pane: &str) -> (status: String)
        ensures
            status@ == last_status(self.prev@, pane@),
    {
        match self.prev.get(pane) {
            Some(status) => status.clone(),
            None => "".to_string(),
        }
    }
}

/// Adopts the statuses of a snapshot and forgets every pane that it does not show. Returns the
/// panes that it shows, and the attention transitions between the statuses known before and the
/// snapshot, unless `seed` asks to adopt them silently.
pub fn reconcile(snap: &Json, state: &mut State, seed: bool) -> (out: Reconciled)
    ensures
        final(state)@ == (StateView {
            prev: statuses(snapshot_rows(snap@)),
            seeded: old(state)@.seeded,
        }),
        out.live@.dom() == snapshot_rows(snap@).dom(),
        out.recovered@ == recovered_from(old(state)@.prev, snap@, seed),
{
    let rows = agent_rows(snap);
    let focused = focused_ws(snap);
    let n: usize = rows.len();
    let ghost order = rows.order();
    let ghost expected = recovered_from(old(state)@.prev, snap@, seed);
    let mut next: PaneMap<String> = PaneMap::new();
    let mut live: PaneMap<()> = PaneMap::new();
    let mut recovered: PaneMap<Recovery> = PaneMap::new();
    let mut i: usize = 0;
    while i < n
        invariant
            i <= n,
            n == order.len(),
            order == rows.order(),
            lists(order, rows@),
            rows@ == snapshot_rows(snap@),
            focused@ == snapshot_focus(snap@),
            *state == *old(state),
            expected == recovered_from(state@.prev, snap@, seed),
            forall|pane: Seq<char>| #[trigger]
                next@.contains_key(pane) <==> has_key(order.take(i as int), pane),
            forall|pane: Seq<char>| #[trigger]
                next@.contains_key(pane) ==> next@[pane] == rows@[pane].status,
            forall|pane: Seq<char>| #[trigger]
                live@.contains_key(pane) <==> has_key(order.take(i as int), pane),
            forall|pane: Seq<char>| #[trigger]
                recovered@.contains_key(pane) <==> expected.contains_key(pane) && has_key(
                    order.take(i as int),
                    pane,
                ),
            forall|pane: Seq<char>| #[trigger]
                recovered@.contains_key(pane) ==> recovered@[pane] == expected[pane],
        decreases n - i,
    {
        let pane = rows.key(i);
        let row = rows.value(i);
        proof {
            lemma_has_key_step(order, i as int);
            assert(rows@.contains_key(order[i as int].0));
        }
        let was = state.last(pane);
        let entered = is_attention(row.status.as_str()) && !is_attention(was.as_str());
        next.insert(pane.to_string(), row.status.clone());
        live.insert(pane.to_string(), ());
        if !seed && entered {
            let toast = raise(pane, row, snap, focused.as_str());
            recovered.insert(
                pane.to_string(),
                Recovery { was, status: row.status.clone(), toast },
            );
        }
        i += 1;
    }
    proof {
        assert(order.take(n as int) =~= order);
        assert forall|pane: Seq<char>| rows@.contains_key(pane) == has_key(order, pane) by {
            if has_key(order, pane) {
                let j = choose|j: int| 0 <= j < order.len() && (#[trigger] order[j]).0 == pane;
                assert(rows@.contains_key(order[j].0));
            }
        }
        assert(next@ =~= statuses(rows@));
        assert(live@.dom() =~= rows@.dom());
        assert(recovered@ =~= expected);
    }
    state.prev = next;
    Reconciled { live, recovered }
}

proof fn lemma_has_key_step<T>(order: Seq<(Seq<char>, T)>, i: int)
    requires
        0 <= i < order.len(),
    ensures
        forall|key: Seq<char>| #[trigger]
            has_key(order.take(i + 1), key) <==> has_key(order.take(i), key) || key == order[i].0,
{
    let longer = order.take(i + 1);
    let shorter = order.take(i);
    assert forall|key: Seq<char>| #[trigger] has_key(longer, key) <==> has_key(shorter, key) || key
        == order[i].0 by {
        if has_key(longer, key) {
            let j = choose|j: int| 0 <= j < longer.len() && (#[trigger] longer[j]).0 == key;
            if j < i {
                assert(shorter[j].0 == key);
            }
        }
        if has_key(shorter, key) {
            let j = choose|j: int| 0 <= j < shorter.len() && (#[trigger] shorter[j]).0 == key;
            assert(longer[j].0 == key);
        }
        if key == order[i].0 {
            assert(longer[i].0 == key);
        }
    }
}

/// The pane and the row of a status event.
pub open spec fn status_row(data: JsonView) -> (Seq<char>, RowView) {
    (
        text_or(data.text_field("pane_id"@), ""@),
        row_with(data, text_or(data.text_field("agent_status"@), ""@)),
    )
}

/// The statuses known after a status event: one that names no pane changes nothing.
pub open spec fn prev_after(prev: Map<Seq<char>, Seq<char>>, data: JsonView) -> Map<
    Seq<char>,
    Seq<char>,
> {
    let (pane, row) = status_row(data);
    if pane.len() == 0 {
        prev
    } else {
        prev.insert(pane, row.status)
    }
}

/// Whether a status event is an attention transition of a pane.
pub open spec fn event_enters(prev: Map<Seq<char>, Seq<char>>, data: JsonView) -> bool {
    let (pane, row) = status_row(data);
    pane.len() > 0 && enters(last_status(prev, pane), row.status)
}

/// Adopts the status that an event reports. Returns the pane and its row where the event is an
/// attention transition.
pub fn status_changed(data: &Json, state: &mut State) -> (entered: Option<(String, Row)>)
    ensures
        final(state)@ == (StateView {
            prev: prev_after(old(state)@.prev, data@),
            seeded: old(state)@.seeded,
        }),
        match entered {
            Some((pane, row)) => event_enters(old(state)@.prev, data@) && (pane@, row@)
                == status_row(data@),
            None => !event_enters(old(state)@.prev, data@),
        },
{
    let pane = text_at_or(data, "pane_id", "");
    if pane.as_str().is_empty() {
        return None;
    }
    let row = Row {
        status: text_at_or(data, "agent_status", ""),
        ws: text_at_or(data, "workspace_id", ""),
        agent: text_at_or(data, "agent", "agent"),
    };
    let was = state.last(pane.as_str());
    state.prev.insert(pane.clone(), row.status.clone());
    if is_attention(row.status.as_str()) && !is_attention(was.as_str()) {
        Some((pane, row))
    } else {
        None
    }
}

} // verus!
