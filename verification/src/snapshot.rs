//! Session snapshots: what they say of agent panes, workspaces and the focus.
use vstd::prelude::*;

use crate::json::{json_read, read, Json, JsonView};
use crate::panes::PaneMap;
use crate::text::{same_text, trim, trimmed};

verus! {

/// The request for a session snapshot, one line.
pub const SNAPSHOT_REQUEST: &'static str =
    "{\"id\":\"snap\",\"method\":\"session.snapshot\",\"params\":{}}\n";

/// What has to be known of an agent pane to notify about it.
pub struct Row {
    pub status: String,
    pub ws: String,
    pub agent: String,
}

/// What a row says.
pub struct RowView {
    pub status: Seq<char>,
    pub ws: Seq<char>,
    pub agent: Seq<char>,
}

impl View for Row {
    type V = RowView;

    open spec fn view(&self) -> RowView {
        RowView { status: self.status@, ws: self.ws@, agent: self.agent@ }
    }
}

/// The text, or `default` where there is none.
pub open spec fn text_or(text: Option<Seq<char>>, default: Seq<char>) -> Seq<char> {
    match text {
        Some(text) => text,
        None => default,
    }
}

/// The snapshot in a reply to the snapshot request.
pub open spec fn snapshot_in(reply: JsonView) -> Option<JsonView> {
    match reply.field("result"@) {
        Some(result) => result.field("snapshot"@),
        None => None,
    }
}

/// What a document says of the pane it is about, its status given: the workspace is empty and the
/// agent is called `agent` where the document does not say.
pub open spec fn row_with(doc: JsonView, status: Seq<char>) -> RowView {
    RowView {
        status,
        ws: text_or(doc.text_field("workspace_id"@), ""@),
        agent: text_or(doc.text_field("agent"@), "agent"@),
    }
}

/// The pane and the row of an entry of `agents`: none without a pane id or without a status.
pub open spec fn entry_row(entry: JsonView) -> Option<(Seq<char>, RowView)> {
    match (entry.text_field("pane_id"@), entry.text_field("agent_status"@)) {
        (Some(pane), Some(status)) => Some((pane, row_with(entry, status))),
        _ => None,
    }
}

/// The rows of these entries: of two entries for a pane the later counts.
pub open spec fn rows_of(entries: Seq<JsonView>) -> Map<Seq<char>, RowView>
    decreases entries.len(),
{
    if entries.len() == 0 {
        Map::empty()
    } else {
        let rest = rows_of(entries.drop_last());
        match entry_row(entries.last()) {
            Some((pane, row)) => rest.insert(pane, row),
            None => rest,
        }
    }
}

/// The items of the array in the field of that name: none where there is no such array.
pub open spec fn list_at(doc: JsonView, name: Seq<char>) -> Seq<JsonView> {
    match doc.field(name) {
        Some(list) => list.items(),
        None => Seq::empty(),
    }
}

/// The agent panes of a snapshot.
pub open spec fn snapshot_rows(snap: JsonView) -> Map<Seq<char>, RowView> {
    rows_of(list_at(snap, "agents"@))
}

/// The workspace that has the focus: empty where the snapshot does not say.
pub open spec fn snapshot_focus(snap: JsonView) -> Seq<char> {
    text_or(snap.text_field("focused_workspace_id"@), ""@)
}

/// The label that the first entry for the workspace gives it: its id where there is none.
pub open spec fn label_of(entries: Seq<JsonView>, ws: Seq<char>) -> Seq<char>
    decreases entries.len(),
{
    if entries.len() == 0 {
        ws
    } else if entries[0].text_field("workspace_id"@) == Some(ws) {
        text_or(entries[0].text_field("label"@), ws)
    } else {
        label_of(entries.skip(1), ws)
    }
}

/// The label of a workspace in a snapshot.
pub open spec fn snapshot_label(snap: JsonView, ws: Seq<char>) -> Seq<char> {
    label_of(list_at(snap, "workspaces"@), ws)
}

/// The text in the field of that name, or a default.
pub fn text_at_or(doc: &Json, name: &str, default: &str) -> (text: String)
    ensures
        text@ == text_or(doc@.text_field(name@), default@),
{
    match doc.text_at(name) {
        Some(text) => text.to_string(),
        None => default.to_string(),
    }
}

/// The snapshot in a reply that was read.
pub fn snapshot_of(reply: Json) -> (snap: Option<Json>)
    ensures
        match snap {
            Some(snap) => snapshot_in(reply@) == Some(snap@),
            None => snapshot_in(reply@) is None,
        },
{
    match reply.into_field("result") {
        Some(result) => result.into_field("snapshot"),
        None => None,
    }
}

/// The snapshot in the line that answers the snapshot request: none where the line is not JSON.
pub fn snapshot(line: &str) -> (snap: Option<Json>)
    ensures
        match json_read(trimmed(line@)) {
            Ok(reply) => match snap {
                Some(snap) => snapshot_in(reply) == Some(snap@),
                None => snapshot_in(reply) is None,
            },
            Err(_) => snap is None,
        },
{
    match read(trim(line)) {
        Ok(reply) => snapshot_of(reply),
        Err(_) => None,
    }
}

/// The agent panes of a snapshot.
pub fn agent_rows(snap: &Json) -> (rows: PaneMap<Row>)
    ensures
        rows@ == snapshot_rows(snap@),
{
    let mut rows: PaneMap<Row> = PaneMap::new();
    if let Some(list) = snap.get("agents") {
        if let Some(agents) = list.as_array() {
            let ghost entries = agents@.map_values(|entry: Json| entry@);
            assert(list_at(snap@, "agents"@) == entries);
            assert(entries.take(0) =~= Seq::empty());
            let mut i: usize = 0;
            while i < agents.len()
                invariant
                    i <= agents@.len(),
                    entries == agents@.map_values(|entry: Json| entry@),
                    rows@ == rows_of(entries.take(i as int)),
                decreases agents@.len() - i,
            {
                let entry = &agents[i];
                assert(entries.take(i + 1).drop_last() =~= entries.take(i as int));
                assert(entries.take(i + 1).last() == entry@);
                let pane = entry.text_at("pane_id");
                let status = entry.text_at("agent_status");
                if let (Some(pane), Some(status)) = (pane, status) {
                    let row = Row {
                        status: status.to_string(),
                        ws: text_at_or(entry, "workspace_id", ""),
                        agent: text_at_or(entry, "agent", "agent"),
                    };
                    rows.insert(pane.to_string(), row);
                }
                i += 1;
            }
            assert(entries.take(agents@.len() as int) =~= entries);
        }
    }
    rows
}

/// The workspace that has the focus.
pub fn focused_ws(snap: &Json) -> (ws: String)
    ensures
        ws@ == snapshot_focus(snap@),
{
    text_at_or(snap, "focused_workspace_id", "")
}

/// The label of a workspace.
pub fn ws_label(snap: &Json, ws: &str) -> (label: String)
    ensures
        label@ == snapshot_label(snap@, ws@),
{
    if let Some(list) = snap.get("workspaces") {
        if let Some(workspaces) = list.as_array() {
            let ghost entries = workspaces@.map_values(|entry: Json| entry@);
            assert(list_at(snap@, "workspaces"@) == entries);
            assert(entries.skip(0) =~= entries);
            let mut i: usize = 0;
            while i < workspaces.len()
                invariant
                    i <= workspaces@.len(),
                    entries == workspaces@.map_values(|entry: Json| entry@),
                    snapshot_label(snap@, ws@) == label_of(entries.skip(i as int), ws@),
                decreases workspaces@.len() - i,
            {
                let entry = &workspaces[i];
                assert(entries.skip(i as int)[0] == entry@);
                assert(entries.skip(i as int).skip(1) =~= entries.skip(i + 1));
                if let Some(id) = entry.text_at("workspace_id") {
                    if same_text(id, ws) {
                        return text_at_or(entry, "label", ws);
                    }
                }
                i += 1;
            }
            assert(entries.skip(i as int) =~= Seq::empty());
        }
    }
    ws.to_string()
}

} // verus!
