//! The events of the stream.
use vstd::prelude::*;

use crate::json::{json_read, read, Json, JsonView};
use crate::text::{same_text, trim, trimmed};

verus! {

/// A message from the event stream.
pub enum Msg {
    /// The status of a pane changed.
    Status(Json),
    /// A pane appeared or gained an agent: it may need a status subscription.
    PaneAdded,
    /// A pane went away.
    PaneGone(String),
    /// The stream has ended.
    Disconnected,
}

/// What a message says.
pub enum MsgView {
    Status(JsonView),
    PaneAdded,
    PaneGone(Seq<char>),
    Disconnected,
}

impl View for Msg {
    type V = MsgView;

    open spec fn view(&self) -> MsgView {
        match self {
            Msg::Status(data) => MsgView::Status(data@),
            Msg::PaneAdded => MsgView::PaneAdded,
            Msg::PaneGone(pane) => MsgView::PaneGone(pane@),
            Msg::Disconnected => MsgView::Disconnected,
        }
    }
}

/// The message in an event: none in acknowledgements and in events of other kinds. Status events
/// have a dotted kind, lifecycle events one with underscores.
pub open spec fn msg_in(event: JsonView) -> Option<MsgView> {
    match event.text_field("event"@) {
        Some(kind) => if kind == "pane.agent_status_changed"@ {
            match event.field("data"@) {
                Some(data) => Some(MsgView::Status(data)),
                None => None,
            }
        } else if kind == "pane_created"@ || kind == "pane_agent_detected"@ {
            Some(MsgView::PaneAdded)
        } else if kind == "pane_closed"@ || kind == "pane_exited"@ {
            match event.text_within("data"@, "pane_id"@) {
                Some(pane) => Some(MsgView::PaneGone(pane)),
                None => None,
            }
        } else {
            None
        },
        None => None,
    }
}

/// What a message says, where there is one.
pub open spec fn msg_view(msg: Option<Msg>) -> Option<MsgView> {
    match msg {
        Some(msg) => Some(msg@),
        None => None,
    }
}

/// The message in an event that was read.
pub fn event_msg(event: Json) -> (msg: Option<Msg>)
    ensures
        msg_view(msg) == msg_in(event@),
{
    let kind = match event.text_at("event") {
        Some(kind) => kind.to_string(),
        None => {
            return None;
        },
    };
    let kind = kind.as_str();
    if same_text(kind, "pane.agent_status_changed") {
        match event.into_field("data") {
            Some(data) => Some(Msg::Status(data)),
            None => None,
        }
    } else if same_text(kind, "pane_created") || same_text(kind, "pane_agent_detected") {
        Some(Msg::PaneAdded)
    } else if same_text(kind, "pane_closed") || same_text(kind, "pane_exited") {
        match event.text_in("data", "pane_id") {
            Some(pane) => Some(Msg::PaneGone(pane.to_string())),
            None => None,
        }
    } else {
        None
    }
}

/// The message in a line of the stream: none where the line is not JSON.
pub fn read_event(line: &str) -> (msg: Option<Msg>)
    ensures
        msg_view(msg) == match json_read(trimmed(line@)) {
            Ok(event) => msg_in(event),
            Err(_) => None,
        },
{
    match read(trim(line)) {
        Ok(event) => event_msg(event),
        Err(_) => None,
    }
}

} // verus!
