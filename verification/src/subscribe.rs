//! The subscription: the request, and what its acknowledgement says.
use vstd::prelude::*;

use crate::json::{
    array_value, fields_said, items_said, json_of, json_read, json_written,
    lemma_object_push, object_of, object_value, read, read_levels, reads_as, text_value, write_value, Json, JsonView,
};
use crate::text::{after_last, number_in, parse_number, same_text, tail_after, trim, trimmed};
use serde_json::Value;

verus! {

/// The number of subscriptions that do not belong to a pane.
pub const LIFECYCLE_COUNT: usize = 4;

/// The subscriptions that do not belong to a pane, which come first in the batch: a pane appeared
/// or gained an agent, a pane went away.
pub open spec fn lifecycle() -> Seq<Seq<char>> {
    seq!["pane.created"@, "pane.agent_detected"@, "pane.closed"@, "pane.exited"@]
}

/// The subscriptions that do not belong to a pane.
pub fn lifecycle_types() -> (types: Vec<&'static str>)
    ensures
        types@.map_values(|t: &'static str| t@) == lifecycle(),
        types@.len() == LIFECYCLE_COUNT,
{
    let types: Vec<&'static str> =
        vec!["pane.created", "pane.agent_detected", "pane.closed", "pane.exited"];
    assert(types@.map_values(|t: &'static str| t@) =~= lifecycle());
    types
}

/// The subscription to a kind of lifecycle event.
pub open spec fn lifecycle_entry(kind: Seq<char>) -> JsonView {
    JsonView::Object(map!["type"@ => JsonView::Text(kind)])
}

/// The subscription to the status changes of a pane.
pub open spec fn pane_entry(pane: Seq<char>) -> JsonView {
    JsonView::Object(
        map![
            "type"@ => JsonView::Text("pane.agent_status_changed"@),
            "pane_id"@ => JsonView::Text(pane),
        ],
    )
}

/// All subscriptions of a batch: those to lifecycle events, then one for each pane.
pub open spec fn batch(panes: Seq<Seq<char>>) -> Seq<JsonView> {
    lifecycle().map_values(|kind: Seq<char>| lifecycle_entry(kind)) + panes.map_values(
        |pane: Seq<char>| pane_entry(pane),
    )
}

/// The request that subscribes to a batch.
pub open spec fn request(panes: Seq<Seq<char>>) -> JsonView {
    JsonView::Object(
        map![
            "id"@ => JsonView::Text("sub"@),
            "method"@ => JsonView::Text("events.subscribe"@),
            "params"@ => JsonView::Object(
                map!["subscriptions"@ => JsonView::Array(batch(panes))],
            ),
        ],
    )
}

/// The ids as texts.
pub open spec fn ids(panes: Seq<String>) -> Seq<Seq<char>> {
    panes.map_values(|pane: String| pane@)
}

fn lifecycle_value(kind: &str) -> (value: Value)
    ensures
        json_of(value) == lifecycle_entry(kind@),
{
    let fields: Vec<(String, Value)> = vec![("type".to_string(), text_value(kind.to_string()))];
    proof {
        let none = Seq::<(Seq<char>, JsonView)>::empty();
        lemma_object_push(none, "type"@, JsonView::Text(kind@));
        assert(fields_said(fields@) =~= none.push(("type"@, JsonView::Text(kind@))));
        assert(object_of(none).insert("type"@, JsonView::Text(kind@))
            =~= map!["type"@ => JsonView::Text(kind@)]);
    }
    object_value(fields)
}

fn pane_value(pane: &str) -> (value: Value)
    ensures
        json_of(value) == pane_entry(pane@),
{
    proof {
        reveal_strlit("type");
        reveal_strlit("pane_id");
        assert("type"@.len() != "pane_id"@.len());
    }
    let fields: Vec<(String, Value)> = vec![
        ("type".to_string(), text_value("pane.agent_status_changed".to_string())),
        ("pane_id".to_string(), text_value(pane.to_string())),
    ];
    proof {
        let none = Seq::<(Seq<char>, JsonView)>::empty();
        let kind = JsonView::Text("pane.agent_status_changed"@);
        let one = none.push(("type"@, kind));
        lemma_object_push(none, "type"@, kind);
        lemma_object_push(one, "pane_id"@, JsonView::Text(pane@));
        assert(fields_said(fields@) =~= one.push(("pane_id"@, JsonView::Text(pane@))));
        assert(object_of(one).insert("pane_id"@, JsonView::Text(pane@))
            =~= pane_entry(pane@)->Object_0);
    }
    object_value(fields)
}

fn request_value(panes: &Vec<String>) -> (value: Value)
    ensures
        json_of(value) == request(ids(panes@)),
{
    let types = lifecycle_types();
    let ghost all = batch(ids(panes@));
    let mut subs: Vec<Value> = Vec::new();
    let mut i: usize = 0;
    while i < types.len()
        invariant
            i <= types@.len() == 4,
            types@.map_values(|t: &'static str| t@) == lifecycle(),
            all == batch(ids(panes@)),
            subs@.len() == i,
            forall|j: int| 0 <= j < i ==> json_of(#[trigger] subs@[j]) == all[j],
        decreases types@.len() - i,
    {
        assert(lifecycle()[i as int] == types@[i as int]@);
        subs.push(lifecycle_value(types[i]));
        i += 1;
    }
    let mut i: usize = 0;
    while i < panes.len()
        invariant
            i <= panes@.len(),
            all == batch(ids(panes@)),
            subs@.len() == i + 4,
            forall|j: int| 0 <= j < i + 4 ==> json_of(#[trigger] subs@[j]) == all[j],
        decreases panes@.len() - i,
    {
        assert(all[i + 4] == pane_entry(ids(panes@)[i as int]));
        subs.push(pane_value(panes[i].as_str()));
        i += 1;
    }
    assert(items_said(subs@) =~= all);
    let list = array_value(subs);
    let params_fields: Vec<(String, Value)> = vec![("subscriptions".to_string(), list)];
    let ghost none = Seq::<(Seq<char>, JsonView)>::empty();
    proof {
        lemma_object_push(none, "subscriptions"@, JsonView::Array(all));
        assert(fields_said(params_fields@) =~= none.push(
            ("subscriptions"@, JsonView::Array(all)),
        ));
        assert(object_of(none).insert("subscriptions"@, JsonView::Array(all))
            =~= map!["subscriptions"@ => JsonView::Array(all)]);
    }
    let params = object_value(params_fields);
    proof {
        reveal_strlit("id");
        reveal_strlit("method");
        reveal_strlit("params");
        assert("id"@.len() != "method"@.len());
        assert("id"@.len() != "params"@.len());
        assert("method"@[0] != "params"@[0]);
    }
    let ghost said = json_of(params);
    let fields: Vec<(String, Value)> = vec![
        ("id".to_string(), text_value("sub".to_string())),
        ("method".to_string(), text_value("events.subscribe".to_string())),
        ("params".to_string(), params),
    ];
    proof {
        let id = JsonView::Text("sub"@);
        let method = JsonView::Text("events.subscribe"@);
        let one = none.push(("id"@, id));
        let two = one.push(("method"@, method));
        lemma_object_push(none, "id"@, id);
        lemma_object_push(one, "method"@, method);
        lemma_object_push(two, "params"@, said);
        assert(fields_said(fields@) =~= two.push(("params"@, said)));
        assert(object_of(two).insert("params"@, said) =~= request(ids(panes@))->Object_0);
    }
    object_value(fields)
}

/// The request for a batch is a document that can be read.
proof fn lemma_request_fits(panes: Seq<Seq<char>>)
    ensures
        request(panes).fits(read_levels()),
{
    reveal_with_fuel(JsonView::fits, 2);
    let all = batch(panes);
    assert forall|i: int| 0 <= i < all.len() implies (#[trigger] all[i]).fits(124) by {
        if i < 4 {
            assert(all[i] == lifecycle_entry(lifecycle()[i]));
        } else {
            assert(all[i] == pane_entry(panes[i - 4]));
        }
    }
    let params = request(panes)->Object_0["params"@];
    reveal_strlit("id");
    reveal_strlit("method");
    reveal_strlit("params");
    assert("id"@.len() != "method"@.len());
    assert("id"@.len() != "params"@.len());
    assert("method"@[0] != "params"@[0]);
    assert(params->Object_0["subscriptions"@] == JsonView::Array(all));
    assert(JsonView::Array(all).fits(125));
    assert(params.fits(126));
}

/// The line that subscribes to the lifecycle events and to the status changes of these panes, all
/// in one batch.
pub fn subscribe_request(panes: &Vec<String>) -> (line: String)
    ensures
        line@ == json_written(request(ids(panes@))) + "\n"@,
        !json_written(request(ids(panes@))).contains('\n'),
        reads_as(json_written(request(ids(panes@))), request(ids(panes@))),
{
    let value = request_value(panes);
    proof {
        lemma_request_fits(ids(panes@));
    }
    let mut line = write_value(&value);
    line.append("\n");
    line
}

/// The position in the batch of the subscription that an error id names: the id reads
/// `<request>:sub:<position>:probe`, of which the ending and the part before it count.
pub open spec fn error_index(id: Seq<char>) -> Option<usize> {
    let ending = ":probe"@;
    let start = id.len() - ending.len();
    if start >= 0 && id.skip(start) == ending {
        match number_in(after_last(id.take(start), ':')) {
            Some(n) => if n <= usize::MAX {
                Some(n as usize)
            } else {
                None
            },
            None => None,
        }
    } else {
        None
    }
}

/// The position in the batch of the subscription that an error id names.
pub fn failed_index(id: &str) -> (index: Option<usize>)
    ensures
        index == error_index(id@),
{
    let ending = ":probe";
    let n: usize = id.unicode_len();
    let m: usize = ending.unicode_len();
    if n < m {
        return None;
    }
    let start: usize = n - m;
    assert(id@.skip(start as int) =~= id@.subrange(start as int, n as int));
    assert(id@.take(start as int) =~= id@.subrange(0, start as int));
    if same_text(id.substring_char(start, n), ending) {
        parse_number(tail_after(id.substring_char(0, start), ':'))
    } else {
        None
    }
}

/// What the answer to a subscription request says.
pub enum Ack {
    /// The subscription is live.
    Started,
    /// The pane at this position does not exist any more.
    Vanished(usize),
    /// A pane does not exist any more, but it cannot be told which.
    Unattributable,
    /// The request was refused for another reason.
    Rejected,
}

/// What the answer says to a request for so many panes.
pub open spec fn ack_of(reply: JsonView, panes: nat) -> Ack {
    if reply.text_within("result"@, "type"@) == Some("subscription_started"@) {
        Ack::Started
    } else if reply.text_within("error"@, "code"@) == Some("pane_not_found"@) {
        match reply.text_field("id"@) {
            Some(id) => match error_index(id) {
                Some(index) => if LIFECYCLE_COUNT <= index < LIFECYCLE_COUNT + panes {
                    Ack::Vanished((index - LIFECYCLE_COUNT) as usize)
                } else {
                    Ack::Unattributable
                },
                None => Ack::Unattributable,
            },
            None => Ack::Unattributable,
        }
    } else {
        Ack::Rejected
    }
}

/// What the answer says to a request for so many panes.
pub fn read_ack(reply: &Json, panes: usize) -> (ack: Ack)
    ensures
        ack == ack_of(reply@, panes as nat),
{
    if let Some(kind) = reply.text_in("result", "type") {
        if same_text(kind, "subscription_started") {
            return Ack::Started;
        }
    }
    let gone = match reply.text_in("error", "code") {
        Some(code) => same_text(code, "pane_not_found"),
        None => false,
    };
    if !gone {
        return Ack::Rejected;
    }
    match reply.text_at("id") {
        Some(id) => match failed_index(id) {
            Some(index) => if LIFECYCLE_COUNT <= index && index - LIFECYCLE_COUNT < panes {
                Ack::Vanished(index - LIFECYCLE_COUNT)
            } else {
                Ack::Unattributable
            },
            None => Ack::Unattributable,
        },
        None => Ack::Unattributable,
    }
}

/// What becomes of an attempt to subscribe.
pub enum Attempt {
    /// These panes are subscribed.
    Started(Vec<String>),
    /// Try again with these panes, on a fresh connection: the other one is gone.
    Retry(Vec<String>, String),
    /// Give up.
    Failed(String),
}

/// What an attempt comes to.
pub enum AttemptView {
    Started(Seq<Seq<char>>),
    Retry(Seq<Seq<char>>, Seq<char>),
    Failed(Seq<char>),
}

impl View for Attempt {
    type V = AttemptView;

    open spec fn view(&self) -> AttemptView {
        match self {
            Attempt::Started(panes) => AttemptView::Started(ids(panes@)),
            Attempt::Retry(panes, gone) => AttemptView::Retry(ids(panes@), gone@),
            Attempt::Failed(why) => AttemptView::Failed(why@),
        }
    }
}

/// What an attempt comes to, given the answer and the text that it was read from.
pub open spec fn attempt_after(
    panes: Seq<Seq<char>>,
    reply: JsonView,
    text: Seq<char>,
) -> AttemptView {
    match ack_of(reply, panes.len()) {
        Ack::Started => AttemptView::Started(panes),
        Ack::Vanished(i) => AttemptView::Retry(panes.remove(i as int), panes[i as int]),
        Ack::Unattributable => AttemptView::Failed("unattributable subscribe error: "@ + text),
        Ack::Rejected => AttemptView::Failed("subscribe rejected: "@ + text),
    }
}

/// What an attempt comes to, given the line that answers it: a line that is not JSON ends it.
pub open spec fn attempt_on(panes: Seq<Seq<char>>, line: Seq<char>) -> AttemptView {
    match json_read(trimmed(line)) {
        Ok(reply) => attempt_after(panes, reply, trimmed(line)),
        Err(complaint) => AttemptView::Failed(complaint),
    }
}

/// What an attempt comes to, given the answer and the text that it was read from.
pub fn judge_reply(panes: Vec<String>, reply: &Json, text: &str) -> (attempt: Attempt)
    ensures
        attempt@ == attempt_after(ids(panes@), reply@, text@),
{
    match read_ack(reply, panes.len()) {
        Ack::Started => Attempt::Started(panes),
        Ack::Vanished(i) => {
            let mut left = panes;
            let gone = left.remove(i);
            assert(ids(left@) =~= ids(panes@).remove(i as int));
            Attempt::Retry(left, gone)
        },
        Ack::Unattributable => {
            let mut why = "unattributable subscribe error: ".to_string();
            why.append(text);
            Attempt::Failed(why)
        },
        Ack::Rejected => {
            let mut why = "subscribe rejected: ".to_string();
            why.append(text);
            Attempt::Failed(why)
        },
    }
}

/// What an attempt comes to, given the line that answers it.
pub fn subscribe_reply(panes: Vec<String>, line: &str) -> (attempt: Attempt)
    ensures
        attempt@ == attempt_on(ids(panes@), line@),
{
    let text = trim(line);
    match read(text) {
        Ok(reply) => judge_reply(panes, &reply, text),
        Err(complaint) => Attempt::Failed(complaint),
    }
}

} // verus!
