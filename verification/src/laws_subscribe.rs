//! What holds of the subscription request and of its answers, in terms of the documents.
use vstd::prelude::*;

use crate::json::{json_read, json_written, reads_as, JsonView};
use crate::laws_doc::{holds, lacks, says, says_no};
use crate::laws_text::{
    law_after_the_last_mark, law_digits_write_the_number, law_numbers_are_digits, law_ten_digits,
};
use crate::subscribe::{
    ack_of, attempt_after, attempt_on, error_index, ids, request, AttemptView,
};
use crate::text::{digits, is_digit, number_in, trimmed};

verus! {

/// The document asks for the events of the four kinds that belong to no pane, and for the status
/// changes of each of the panes, in their order and nothing else.
pub open spec fn asks_for(doc: JsonView, panes: Seq<Seq<char>>) -> bool {
    &&& doc is Object
    &&& doc->Object_0.dom() == set!["id"@, "method"@, "params"@]
    &&& says(doc, "id"@, "sub"@)
    &&& says(doc, "method"@, "events.subscribe"@)
    &&& doc->Object_0["params"@] is Object
    &&& doc->Object_0["params"@]->Object_0.dom() == set!["subscriptions"@]
    &&& doc->Object_0["params"@]->Object_0["subscriptions"@] is Array
    &&& ({
        let subs = doc->Object_0["params"@]->Object_0["subscriptions"@]->Array_0;
        &&& subs.len() == 4 + panes.len()
        &&& says(subs[0], "type"@, "pane.created"@) && lacks(subs[0], "pane_id"@)
        &&& says(subs[1], "type"@, "pane.agent_detected"@) && lacks(subs[1], "pane_id"@)
        &&& says(subs[2], "type"@, "pane.closed"@) && lacks(subs[2], "pane_id"@)
        &&& says(subs[3], "type"@, "pane.exited"@) && lacks(subs[3], "pane_id"@)
        &&& forall|i: int|
            0 <= i < panes.len() ==> says(
                #[trigger] subs[4 + i],
                "type"@,
                "pane.agent_status_changed"@,
            ) && says(subs[4 + i], "pane_id"@, panes[i])
        &&& forall|i: int|
            0 <= i < subs.len() ==> (#[trigger] subs[i])->Object_0.dom().subset_of(
                set!["type"@, "pane_id"@],
            )
    })
}

/// The request asks for the lifecycle events and for the status changes of every pane, however many
/// there are.
pub proof fn law_request_asks_for_every_pane(panes: Seq<Seq<char>>)
    ensures
        asks_for(request(panes), panes),
{
    reveal_strlit("id");
    reveal_strlit("method");
    reveal_strlit("params");
    reveal_strlit("type");
    reveal_strlit("pane_id");
    assert("id"@.len() == 2 && "method"@.len() == 6 && "params"@.len() == 6);
    assert("method"@[0] == 'm' && "params"@[0] == 'p');
    assert("type"@.len() == 4 && "pane_id"@.len() == 7);
    let doc = request(panes);
    assert(doc->Object_0.dom() =~= set!["id"@, "method"@, "params"@]);
    let params = doc->Object_0["params"@];
    assert(params->Object_0.dom() =~= set!["subscriptions"@]);
    let subs = params->Object_0["subscriptions"@]->Array_0;
    assert forall|i: int| 0 <= i < panes.len() implies says(
        #[trigger] subs[4 + i],
        "type"@,
        "pane.agent_status_changed"@,
    ) && says(subs[4 + i], "pane_id"@, panes[i]) by {}
}

/// The line that carries the request is read back as a document that asks for every pane.
pub proof fn law_request_line_asks_for_every_pane(panes: Seq<Seq<char>>, text: Seq<char>)
    requires
        text == json_written(request(panes)),
        reads_as(text, request(panes)),
    ensures
        json_read(text) is Ok,
        asks_for(json_read(text)->Ok_0, panes),
{
    law_request_asks_for_every_pane(panes);
}

/// The ids as texts are the ids, one by one.
pub proof fn law_ids_are_the_texts(panes: Seq<String>)
    ensures
        ids(panes).len() == panes.len(),
        forall|i: int| 0 <= i < panes.len() ==> #[trigger] ids(panes)[i] == panes[i]@,
{
}

/// An error id that ends in a number and `:probe` names the position of this number, whatever stands
/// before the colon in front of it.
pub proof fn law_error_id_ends_in_the_position(head: Seq<char>, token: Seq<char>, index: usize)
    requires
        forall|i: int| 0 <= i < token.len() ==> token[i] != ':',
        number_in(token) == Some(index as nat),
    ensures
        error_index(head + seq![':'] + token + ":probe"@) == Some(index),
        error_index(token + ":probe"@) == Some(index),
{
    law_after_the_last_mark(head, token, ':');
    let ending = ":probe"@;
    let long = head + seq![':'] + token + ending;
    let start = long.len() - ending.len();
    assert(long.skip(start) =~= ending);
    assert(long.take(start) =~= head + seq![':'] + token);
    let short = token + ending;
    let start = short.len() - ending.len();
    assert(short.skip(start) =~= ending);
    assert(short.take(start) =~= token);
}

/// An error id that ends in the digits of a position and `:probe` names this position.
pub proof fn law_error_id_ends_in_the_digits(head: Seq<char>, index: usize)
    ensures
        error_index(head + seq![':'] + digits(index as nat) + ":probe"@) == Some(index),
{
    let token = digits(index as nat);
    law_digits_write_the_number(index as nat);
    assert forall|i: int| 0 <= i < token.len() implies is_digit(#[trigger] token[i]) by {
        law_ten_digits(digits(index as nat)[i]);
    }
    law_numbers_are_digits(token);
    law_error_id_ends_in_the_position(head, token, index);
}

/// An error id names no position where it does not end in `:probe`, or where what stands between
/// that and the colon before it is not a number that can be counted to.
pub proof fn law_other_error_ids_name_nothing(id: Seq<char>, head: Seq<char>, token: Seq<char>)
    ensures
        (forall|before: Seq<char>| id != #[trigger] (before + ":probe"@)) ==> error_index(id) is None,
        (forall|i: int| 0 <= i < token.len() ==> token[i] != ':') && (number_in(token) is None
            || number_in(token)->Some_0 > usize::MAX) ==> error_index(
            head + seq![':'] + token + ":probe"@,
        ) is None && error_index(token + ":probe"@) is None,
{
    let ending = ":probe"@;
    if forall|before: Seq<char>| id != #[trigger] (before + ending) {
        let start = id.len() - ending.len();
        if start >= 0 && id.skip(start) == ending {
            assert(id =~= id.take(start) + ending);
        }
    }
    if forall|i: int| 0 <= i < token.len() ==> token[i] != ':' {
        law_after_the_last_mark(head, token, ':');
        let long = head + seq![':'] + token + ending;
        let start = long.len() - ending.len();
        assert(long.skip(start) =~= ending);
        assert(long.take(start) =~= head + seq![':'] + token);
        let short = token + ending;
        let start = short.len() - ending.len();
        assert(short.skip(start) =~= ending);
        assert(short.take(start) =~= token);
    }
}

/// The answer says that the subscription has started.
pub open spec fn says_started(reply: JsonView) -> bool {
    exists|result: JsonView|
        holds(reply, "result"@, result) && #[trigger] says(
            result,
            "type"@,
            "subscription_started"@,
        )
}

/// The answer says that a pane was not found.
pub open spec fn says_not_found(reply: JsonView) -> bool {
    exists|error: JsonView|
        holds(reply, "error"@, error) && #[trigger] says(error, "code"@, "pane_not_found"@)
}

proof fn lemma_says_started(reply: JsonView)
    ensures
        says_started(reply) <==> reply.text_within("result"@, "type"@) == Some(
            "subscription_started"@,
        ),
        says_not_found(reply) <==> reply.text_within("error"@, "code"@) == Some("pane_not_found"@),
{
    if reply.text_within("result"@, "type"@) == Some("subscription_started"@) {
        let result = reply->Object_0["result"@];
        assert(holds(reply, "result"@, result) && says(
            result,
            "type"@,
            "subscription_started"@,
        ));
    }
    if reply.text_within("error"@, "code"@) == Some("pane_not_found"@) {
        let error = reply->Object_0["error"@];
        assert(holds(reply, "error"@, error) && says(error, "code"@, "pane_not_found"@));
    }
}

/// An answer that says that the subscription has started starts it with all the panes, whatever
/// else it says; one that says neither that nor that a pane was not found is a rejection, which
/// quotes it.
pub proof fn law_started_and_rejected(panes: Seq<Seq<char>>, reply: JsonView, text: Seq<char>)
    ensures
        says_started(reply) <==> attempt_after(panes, reply, text) is Started,
        says_started(reply) ==> attempt_after(panes, reply, text) == AttemptView::Started(panes),
        !says_started(reply) && !says_not_found(reply) ==> attempt_after(panes, reply, text)
            == AttemptView::Failed("subscribe rejected: "@ + text),
{
    lemma_says_started(reply);
}

/// An answer that says that a pane was not found, with an id that names the position of the pane
/// behind the four subscriptions that belong to no pane, leads to another attempt with all panes
/// but this one.
pub proof fn law_pane_not_found_is_left_out(
    panes: Seq<Seq<char>>,
    i: int,
    reply: JsonView,
    id: Seq<char>,
    text: Seq<char>,
)
    requires
        0 <= i < panes.len(),
        !says_started(reply),
        says_not_found(reply),
        says(reply, "id"@, id),
        error_index(id) is Some,
        error_index(id)->Some_0 == 4 + i,
    ensures
        attempt_after(panes, reply, text) is Retry,
        attempt_after(panes, reply, text)->Retry_0 == panes.take(i) + panes.skip(i + 1),
        attempt_after(panes, reply, text)->Retry_1 == panes[i],
        ack_of(reply, panes.len()) is Vanished,
        ack_of(reply, panes.len())->Vanished_0 == i,
{
    lemma_says_started(reply);
    assert(panes.remove(i) =~= panes.take(i) + panes.skip(i + 1));
}

/// An answer that says that a pane was not found, but does not name the position of one of the
/// panes, ends the attempt and is quoted.
pub proof fn law_pane_not_found_without_a_position(
    panes: Seq<Seq<char>>,
    reply: JsonView,
    id: Seq<char>,
    text: Seq<char>,
)
    requires
        !says_started(reply),
        says_not_found(reply),
        says_no(reply, "id"@) || (says(reply, "id"@, id) && (error_index(id) is None || error_index(
            id,
        )->Some_0 < 4 || error_index(id)->Some_0 >= 4 + panes.len())),
    ensures
        attempt_after(panes, reply, text) == AttemptView::Failed(
            "unattributable subscribe error: "@ + text,
        ),
        ack_of(reply, panes.len()) is Unattributable,
{
    lemma_says_started(reply);
}

/// What an answer leads to is what the document in its line leads to, without the white space
/// around it; a line that is not JSON ends the attempt with the complaint.
pub proof fn law_answer_is_read_from_its_line(
    panes: Seq<Seq<char>>,
    line: Seq<char>,
    reply: JsonView,
    complaint: Seq<char>,
)
    ensures
        json_read(trimmed(line)) == Ok::<JsonView, Seq<char>>(reply) ==> attempt_on(panes, line)
            == attempt_after(panes, reply, trimmed(line)),
        json_read(trimmed(line)) == Err::<JsonView, Seq<char>>(complaint) ==> attempt_on(
            panes,
            line,
        ) == AttemptView::Failed(complaint),
{
}

/// An answer starts the subscription, or rejects it, exactly where it says so, for any number of
/// panes.
pub proof fn law_answers_that_end_the_attempts(reply: JsonView, panes: nat)
    ensures
        ack_of(reply, panes) is Started <==> says_started(reply),
        ack_of(reply, panes) is Rejected <==> !says_started(reply) && !says_not_found(reply),
{
    lemma_says_started(reply);
}

} // verus!
