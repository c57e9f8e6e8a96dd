//! Desktop notifications: when one is due and what it says.
use vstd::prelude::*;

use crate::json::{Json, JsonView};
use crate::snapshot::{snapshot_label, ws_label, Row, RowView};
use crate::text::same_text;

verus! {

/// The program that shows a notification.
pub const TERMINAL_NOTIFIER: &'static str = "/opt/homebrew/bin/terminal-notifier";

/// The hotkey that jumps to the agent. The notification names it, since it cannot be clicked.
pub const HOTKEY_HINT: &'static str = "cmd+shift+J";

/// The status of an agent that waits for an answer.
pub const BLOCKED: &'static str = "blocked";

/// The status of an agent that has finished.
pub const DONE: &'static str = "done";

/// Whether an agent in this status wants attention.
pub open spec fn wants_attention(status: Seq<char>) -> bool {
    status == BLOCKED@ || status == DONE@
}

/// Whether the change from one status to another is an attention transition.
pub open spec fn enters(was: Seq<char>, status: Seq<char>) -> bool {
    wants_attention(status) && !wants_attention(was)
}

/// A notification, and the line that records it in the log.
pub struct Toast {
    pub title: String,
    pub subtitle: String,
    pub message: String,
    pub group: String,
    pub sound: String,
    pub record: String,
}

/// What a notification says.
pub struct ToastView {
    pub title: Seq<char>,
    pub subtitle: Seq<char>,
    pub message: Seq<char>,
    pub group: Seq<char>,
    pub sound: Seq<char>,
    pub record: Seq<char>,
}

impl View for Toast {
    type V = ToastView;

    open spec fn view(&self) -> ToastView {
        ToastView {
            title: self.title@,
            subtitle: self.subtitle@,
            message: self.message@,
            group: self.group@,
            sound: self.sound@,
            record: self.record@,
        }
    }
}

/// The sign that a notification of this status starts with.
pub open spec fn emoji_of(status: Seq<char>) -> Seq<char> {
    if status == BLOCKED@ {
        "⛔"@
    } else if status == DONE@ {
        "✅"@
    } else {
        "🔔"@
    }
}

/// What a notification says that the agent did.
pub open spec fn verb_of(status: Seq<char>) -> Seq<char> {
    if status == BLOCKED@ {
        "needs you"@
    } else if status == DONE@ {
        "finished"@
    } else {
        "changed"@
    }
}

/// The sound of a notification of this status.
pub open spec fn sound_of(status: Seq<char>) -> Seq<char> {
    if status == BLOCKED@ {
        "Sosumi"@
    } else if status == DONE@ {
        "Glass"@
    } else {
        "default"@
    }
}

/// The notification of an agent in a pane.
pub open spec fn toast_of(
    pane: Seq<char>,
    status: Seq<char>,
    agent: Seq<char>,
    label: Seq<char>,
) -> ToastView {
    ToastView {
        title: emoji_of(status) + " "@ + agent + " "@ + verb_of(status),
        subtitle: label,
        message: "→ "@ + pane + "  ("@ + HOTKEY_HINT@ + " to jump)"@,
        group: "herdr-notify-"@ + pane,
        sound: sound_of(status),
        record: "notified "@ + pane + " status="@ + status + " agent="@ + agent + " ws='"@ + label
            + "'"@,
    }
}

/// The notification that an attention transition of a pane gives rise to, with the snapshot that
/// gives the labels: none where the workspace of the pane has the focus.
pub open spec fn raised(
    pane: Seq<char>,
    row: RowView,
    snap: JsonView,
    focused: Seq<char>,
) -> Option<ToastView> {
    if row.ws == focused {
        None
    } else {
        Some(toast_of(pane, row.status, row.agent, snapshot_label(snap, row.ws)))
    }
}

/// What a notification says, where there is one.
pub open spec fn toast_view(toast: Option<Toast>) -> Option<ToastView> {
    match toast {
        Some(toast) => Some(toast@),
        None => None,
    }
}

/// Whether an agent in this status wants attention.
pub fn is_attention(status: &str) -> (yes: bool)
    ensures
        yes == wants_attention(status@),
{
    same_text(status, BLOCKED) || same_text(status, DONE)
}

/// The notification of an agent in a pane.
pub fn notify(pane: &str, status: &str, agent: &str, label: &str) -> (toast: Toast)
    ensures
        toast@ == toast_of(pane@, status@, agent@, label@),
{
    let (emoji, verb, sound) = if same_text(status, BLOCKED) {
        ("⛔", "needs you", "Sosumi")
    } else if same_text(status, DONE) {
        ("✅", "finished", "Glass")
    } else {
        ("🔔", "changed", "default")
    };
    let mut title = emoji.to_string();
    title.append(" ");
    title.append(agent);
    title.append(" ");
    title.append(verb);
    let mut message = "→ ".to_string();
    message.append(pane);
    message.append("  (");
    message.append(HOTKEY_HINT);
    message.append(" to jump)");
    let mut group = "herdr-notify-".to_string();
    group.append(pane);
    let mut record = "notified ".to_string();
    record.append(pane);
    record.append(" status=");
    record.append(status);
    record.append(" agent=");
    record.append(agent);
    record.append(" ws='");
    record.append(label);
    record.append("'");
    Toast { title, subtitle: label.to_string(), message, group, sound: sound.to_string(), record }
}

/// The notification that an attention transition gives rise to.
pub fn raise(pane: &str, row: &Row, snap: &Json, focused: &str) -> (toast: Option<Toast>)
    ensures
        toast_view(toast) == raised(pane@, row@, snap@, focused@),
{
    if same_text(row.ws.as_str(), focused) {
        None
    } else {
        let label = ws_label(snap, row.ws.as_str());
        Some(notify(pane, row.status.as_str(), row.agent.as_str(), label.as_str()))
    }
}

/// The arguments that show a notification.
pub open spec fn args_of(toast: ToastView) -> Seq<Seq<char>> {
    seq![
        "-title"@,
        toast.title,
        "-subtitle"@,
        toast.subtitle,
        "-message"@,
        toast.message,
        "-group"@,
        toast.group,
        "-sound"@,
        toast.sound,
    ]
}

impl Toast {
    /// The arguments for the program that shows the notification.
    pub fn args(&self) -> (args: Vec<&str>)
        ensures
            args@.map_values(|arg: &str| arg@) == args_of(self@),
    {
        let args: Vec<&str> =
            vec![
            "-title",
            self.title.as_str(),
            "-subtitle",
            self.subtitle.as_str(),
            "-message",
            self.message.as_str(),
            "-group",
            self.group.as_str(),
            "-sound",
            self.sound.as_str(),
        ];
        assert(args@.map_values(|arg: &str| arg@) =~= args_of(self@));
        args
    }
}

} // verus!
