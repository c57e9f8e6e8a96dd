//! What holds of the reading of documents, in terms of the documents themselves.
use vstd::prelude::*;

use crate::event::{msg_in, MsgView};
use crate::json::{fields_of, lemma_object, object_of, Json, JsonView};
use crate::snapshot::{
    entry_row, label_of, list_at, rows_of, snapshot_focus, snapshot_in, snapshot_label,
    snapshot_rows, RowView,
};

verus! {

/// The document is an object with this value in the field of that name.
pub open spec fn holds(doc: JsonView, name: Seq<char>, value: JsonView) -> bool {
    doc is Object && doc->Object_0.contains_key(name) && doc->Object_0[name] == value
}

/// The document is an object with this text in the field of that name.
pub open spec fn says(doc: JsonView, name: Seq<char>, text: Seq<char>) -> bool {
    holds(doc, name, JsonView::Text(text))
}

/// The document is no object, or one without a field of that name.
pub open spec fn lacks(doc: JsonView, name: Seq<char>) -> bool {
    !(doc is Object) || !doc->Object_0.contains_key(name)
}

/// The document is no object, or one without a text in the field of that name.
pub open spec fn says_no(doc: JsonView, name: Seq<char>) -> bool {
    lacks(doc, name) || !(doc->Object_0[name] is Text)
}

/// A field is what the object holds under its name, and nothing where it holds nothing there.
pub proof fn law_fields(
    doc: JsonView,
    name: Seq<char>,
    value: JsonView,
    text: Seq<char>,
    inner: Seq<char>,
)
    ensures
        holds(doc, name, value) ==> doc.field(name) == Some(value),
        lacks(doc, name) ==> doc.field(name) is None,
        says(doc, name, text) ==> doc.text_field(name) == Some(text),
        says_no(doc, name) ==> doc.text_field(name) is None,
        holds(doc, name, value) && says(value, inner, text) ==> doc.text_within(name, inner)
            == Some(text),
        holds(doc, name, value) && says_no(value, inner) ==> doc.text_within(name, inner) is None,
        lacks(doc, name) ==> doc.text_within(name, inner) is None,
{
}

/// Only a text is read as a text, and only an array has items: its own, in their order.
pub proof fn law_texts_and_items(doc: JsonView, text: Seq<char>, items: Seq<JsonView>)
    ensures
        JsonView::Text(text).text() == Some(text),
        !(doc is Text) ==> doc.text() is None,
        JsonView::Array(items).items() == items,
        !(doc is Array) ==> doc.items() == Seq::<JsonView>::empty(),
{
}

/// The fields of an object that a list of fields makes: the last field of a name is there, and no
/// other names are.
pub proof fn law_object_has_its_last_fields(fields: Vec<(String, Json)>, i: int, name: Seq<char>)
    ensures
        0 <= i < fields@.len() && (forall|j: int|
            i < j < fields@.len() ==> (#[trigger] fields@[j]).0@ != fields@[i].0@) ==> holds(
            Json::Object(fields)@,
            fields@[i].0@,
            fields@[i].1@,
        ),
        (forall|j: int| 0 <= j < fields@.len() ==> (#[trigger] fields@[j]).0@ != name) ==> lacks(
            Json::Object(fields)@,
            name,
        ),
        Json::Object(fields)@ is Object,
{
    let views = fields_of(fields@);
    lemma_object(fields);
    if 0 <= i < fields@.len() && (forall|j: int|
        i < j < fields@.len() ==> (#[trigger] fields@[j]).0@ != fields@[i].0@) {
        assert forall|j: int| i < j < views.len() implies (#[trigger] views[j]).0 != views[i].0 by {
            assert(fields@[j].0@ != fields@[i].0@);
        }
        lemma_last_field(views, i);
    }
    if forall|j: int| 0 <= j < fields@.len() ==> (#[trigger] fields@[j]).0@ != name {
        assert forall|j: int| 0 <= j < views.len() implies (#[trigger] views[j]).0 != name by {
            assert(fields@[j].0@ != name);
        }
        lemma_no_field(views, name);
    }
}

proof fn lemma_last_field(fields: Seq<(Seq<char>, JsonView)>, i: int)
    requires
        0 <= i < fields.len(),
        forall|j: int| i < j < fields.len() ==> (#[trigger] fields[j]).0 != fields[i].0,
    ensures
        object_of(fields).contains_key(fields[i].0),
        object_of(fields)[fields[i].0] == fields[i].1,
    decreases fields.len(),
{
    if i < fields.len() - 1 {
        let rest = fields.drop_last();
        assert forall|j: int| i < j < rest.len() implies (#[trigger] rest[j]).0 != rest[i].0 by {
            assert(rest[j] == fields[j]);
        }
        lemma_last_field(rest, i);
        assert(fields[fields.len() - 1].0 != fields[i].0);
    }
}

proof fn lemma_no_field(fields: Seq<(Seq<char>, JsonView)>, name: Seq<char>)
    requires
        forall|j: int| 0 <= j < fields.len() ==> (#[trigger] fields[j]).0 != name,
    ensures
        !object_of(fields).contains_key(name),
    decreases fields.len(),
{
    if fields.len() > 0 {
        let rest = fields.drop_last();
        assert forall|j: int| 0 <= j < rest.len() implies (#[trigger] rest[j]).0 != name by {
            assert(rest[j] == fields[j]);
        }
        lemma_no_field(rest, name);
        assert(fields[fields.len() - 1].0 != name);
    }
}

/// What the other documents say.
pub proof fn law_plain_documents(text: String, b: bool, items: Vec<Json>)
    ensures
        Json::Null@ == JsonView::Null,
        Json::Bool(b)@ == JsonView::Bool(b),
        Json::Number(text)@ == JsonView::Number(text@),
        Json::Text(text)@ == JsonView::Text(text@),
        Json::Array(items)@ is Array,
        Json::Array(items)@->Array_0.len() == items@.len(),
        forall|i: int|
            0 <= i < items@.len() ==> Json::Array(items)@->Array_0[i] == (#[trigger] items@[i])@,
{
}

/// The snapshot of a reply stands in its field `result`, there in the field `snapshot`.
pub proof fn law_reply_holds_the_snapshot(reply: JsonView, result: JsonView, snap: JsonView)
    ensures
        holds(reply, "result"@, result) && holds(result, "snapshot"@, snap) ==> snapshot_in(reply)
            == Some(snap),
        lacks(reply, "result"@) ==> snapshot_in(reply) is None,
        holds(reply, "result"@, result) && lacks(result, "snapshot"@) ==> snapshot_in(
            reply,
        ) is None,
{
}

/// The entry is about this pane: it says its id, and some status.
pub open spec fn is_about(entry: JsonView, pane: Seq<char>) -> bool {
    says(entry, "pane_id"@, pane) && !says_no(entry, "agent_status"@)
}

/// The last entry about the pane is the one at this position, and gives it this status.
pub open spec fn last_about(
    entries: Seq<JsonView>,
    i: int,
    pane: Seq<char>,
    status: Seq<char>,
) -> bool {
    &&& 0 <= i < entries.len()
    &&& is_about(entries[i], pane)
    &&& says(entries[i], "agent_status"@, status)
    &&& forall|j: int| i < j < entries.len() ==> !is_about(#[trigger] entries[j], pane)
}

/// No entry is about the pane.
pub open spec fn none_about(entries: Seq<JsonView>, pane: Seq<char>) -> bool {
    forall|j: int| 0 <= j < entries.len() ==> !is_about(#[trigger] entries[j], pane)
}

/// The row has this status, and the workspace and the agent that the document says: no workspace and
/// `agent` where it says none.
pub open spec fn row_says(row: RowView, doc: JsonView, status: Seq<char>) -> bool {
    &&& row.status == status
    &&& says(doc, "workspace_id"@, row.ws) || (says_no(doc, "workspace_id"@) && row.ws
        == Seq::<char>::empty())
    &&& says(doc, "agent"@, row.agent) || (says_no(doc, "agent"@) && row.agent == "agent"@)
}

/// The row of a pane is what the last entry about it says, and a pane that no entry is about has
/// none.
pub proof fn law_row_is_of_the_last_entry(
    snap: JsonView,
    entries: Seq<JsonView>,
    i: int,
    pane: Seq<char>,
    status: Seq<char>,
)
    requires
        holds(snap, "agents"@, JsonView::Array(entries)),
    ensures
        last_about(entries, i, pane, status) ==> snapshot_rows(snap).contains_key(pane) && row_says(
            snapshot_rows(snap)[pane],
            entries[i],
            status,
        ),
        none_about(entries, pane) ==> !snapshot_rows(snap).contains_key(pane),
{
    assert(list_at(snap, "agents"@) == entries);
    if last_about(entries, i, pane, status) {
        lemma_last_entry(entries, i, pane, status);
    }
    if none_about(entries, pane) {
        lemma_no_entry(entries, pane);
    }
}

proof fn lemma_last_entry(entries: Seq<JsonView>, i: int, pane: Seq<char>, status: Seq<char>)
    requires
        last_about(entries, i, pane, status),
    ensures
        rows_of(entries).contains_key(pane),
        row_says(rows_of(entries)[pane], entries[i], status),
    decreases entries.len(),
{
    reveal_strlit("");
    assert(""@ =~= Seq::<char>::empty());
    if i < entries.len() - 1 {
        let rest = entries.drop_last();
        assert forall|j: int| i < j < rest.len() implies !is_about(#[trigger] rest[j], pane) by {
            assert(rest[j] == entries[j]);
        }
        lemma_last_entry(rest, i, pane, status);
        assert(!is_about(entries[entries.len() - 1], pane));
        assert(entry_row(entries.last()) is Some ==> entry_row(entries.last())->Some_0.0 != pane);
    } else {
        assert(entries.last() == entries[i]);
    }
}

proof fn lemma_no_entry(entries: Seq<JsonView>, pane: Seq<char>)
    requires
        none_about(entries, pane),
    ensures
        !rows_of(entries).contains_key(pane),
    decreases entries.len(),
{
    if entries.len() > 0 {
        let rest = entries.drop_last();
        assert forall|j: int| 0 <= j < rest.len() implies !is_about(#[trigger] rest[j], pane) by {
            assert(rest[j] == entries[j]);
        }
        lemma_no_entry(rest, pane);
        assert(!is_about(entries[entries.len() - 1], pane));
    }
}

/// A snapshot without a list of agents shows no agent pane.
pub proof fn law_no_agents_no_rows(snap: JsonView, other: JsonView, pane: Seq<char>)
    requires
        lacks(snap, "agents"@) || (holds(snap, "agents"@, other) && !(other is Array)),
    ensures
        !snapshot_rows(snap).contains_key(pane),
{
}

/// The focus is the text in the field `focused_workspace_id`, whatever else the snapshot says, and
/// no workspace has it where there is no such text.
pub proof fn law_focus_is_what_the_snapshot_says(snap: JsonView, focused: Seq<char>)
    ensures
        says(snap, "focused_workspace_id"@, focused) ==> snapshot_focus(snap) == focused,
        says_no(snap, "focused_workspace_id"@) ==> snapshot_focus(snap) == Seq::<char>::empty(),
{
    reveal_strlit("");
    assert(""@ =~= Seq::<char>::empty());
}

/// The label of a workspace is the one in the first entry with its id: the id itself where that
/// entry has no label, or where there is no such entry.
pub proof fn law_label_is_of_the_first_entry(
    snap: JsonView,
    entries: Seq<JsonView>,
    i: int,
    ws: Seq<char>,
    label: Seq<char>,
)
    requires
        holds(snap, "workspaces"@, JsonView::Array(entries)),
        0 <= i <= entries.len(),
        forall|j: int| 0 <= j < i ==> !says(#[trigger] entries[j], "workspace_id"@, ws),
        i < entries.len() ==> says(entries[i], "workspace_id"@, ws),
    ensures
        i == entries.len() ==> snapshot_label(snap, ws) == ws,
        i < entries.len() && says(entries[i], "label"@, label) ==> snapshot_label(snap, ws)
            == label,
        i < entries.len() && says_no(entries[i], "label"@) ==> snapshot_label(snap, ws) == ws,
{
    assert(list_at(snap, "workspaces"@) == entries);
    lemma_first_label(entries, i, ws);
}

proof fn lemma_first_label(entries: Seq<JsonView>, i: int, ws: Seq<char>)
    requires
        0 <= i <= entries.len(),
        forall|j: int| 0 <= j < i ==> !says(#[trigger] entries[j], "workspace_id"@, ws),
        i < entries.len() ==> says(entries[i], "workspace_id"@, ws),
    ensures
        i == entries.len() ==> label_of(entries, ws) == ws,
        forall|label: Seq<char>|
            i < entries.len() && #[trigger] says(entries[i], "label"@, label) ==> label_of(
                entries,
                ws,
            ) == label,
        i < entries.len() && says_no(entries[i], "label"@) ==> label_of(entries, ws) == ws,
    decreases entries.len(),
{
    if i > 0 {
        let rest = entries.skip(1);
        assert(!says(entries[0], "workspace_id"@, ws));
        assert forall|j: int| 0 <= j < i - 1 implies !says(
            #[trigger] rest[j],
            "workspace_id"@,
            ws,
        ) by {
            assert(rest[j] == entries[j + 1]);
        }
        lemma_first_label(rest, i - 1, ws);
        assert(i < entries.len() ==> rest[i - 1] == entries[i]);
    }
}

/// A snapshot without a list of workspaces leaves every workspace its id.
pub proof fn law_no_workspaces_no_labels(snap: JsonView, other: JsonView, ws: Seq<char>)
    requires
        lacks(snap, "workspaces"@) || (holds(snap, "workspaces"@, other) && !(other is Array)),
    ensures
        snapshot_label(snap, ws) == ws,
{
}

/// The kind of an event decides what it is, whatever else it says: a status change with its data, a
/// pane that was added, a pane that is gone and is named in the data, or nothing.
pub proof fn law_kind_decides_the_message(
    event: JsonView,
    kind: Seq<char>,
    data: JsonView,
    pane: Seq<char>,
)
    ensures
        says(event, "event"@, "pane.agent_status_changed"@) && holds(event, "data"@, data)
            ==> msg_in(event) == Some(MsgView::Status(data)),
        says(event, "event"@, "pane.agent_status_changed"@) && lacks(event, "data"@) ==> msg_in(
            event,
        ) is None,
        says(event, "event"@, "pane_created"@) ==> msg_in(event) == Some(MsgView::PaneAdded),
        says(event, "event"@, "pane_agent_detected"@) ==> msg_in(event) == Some(
            MsgView::PaneAdded,
        ),
        (says(event, "event"@, "pane_closed"@) || says(event, "event"@, "pane_exited"@)) && holds(
            event,
            "data"@,
            data,
        ) && says(data, "pane_id"@, pane) ==> msg_in(event) == Some(MsgView::PaneGone(pane)),
        (says(event, "event"@, "pane_closed"@) || says(event, "event"@, "pane_exited"@)) && (lacks(
            event,
            "data"@,
        ) || (holds(event, "data"@, data) && says_no(data, "pane_id"@))) ==> msg_in(event) is None,
        says(event, "event"@, kind) && kind != "pane.agent_status_changed"@ && kind
            != "pane_created"@ && kind != "pane_agent_detected"@ && kind != "pane_closed"@ && kind
            != "pane_exited"@ ==> msg_in(event) is None,
        says_no(event, "event"@) ==> msg_in(event) is None,
{
    reveal_strlit("pane.agent_status_changed");
    reveal_strlit("pane_created");
    reveal_strlit("pane_agent_detected");
    reveal_strlit("pane_closed");
    reveal_strlit("pane_exited");
    assert("pane.agent_status_changed"@[4] == '.');
    assert("pane_created"@[4] == '_' && "pane_created"@.len() == 12);
    assert("pane_agent_detected"@[4] == '_' && "pane_agent_detected"@.len() == 19);
    assert("pane_closed"@[4] == '_' && "pane_closed"@.len() == 11);
    assert("pane_exited"@[4] == '_' && "pane_exited"@.len() == 11);
}

} // verus!
