//! What holds of the engine as a whole, stated over the specifications of
//! its parts.

use crate::dispatch::{
    answers, answers_all, lemma_rank_prefix, lemma_requests_dispatched, rank, requests_of,
    slot_for, slots_of, usable, SlotView,
};
use crate::json::{json_view, JsonView};
use crate::request::{id_projects_to, IdView};
use crate::response::{
    is_internal_error, is_invalid_request, lemma_member_names, NormalResponseView, ResponseView,
    INTERNAL_ERROR, INVALID_REQUEST, PARSE_ERROR,
};
use crate::server::{answers_body, answers_value, body_json};
use crate::validate::{validation, version_ok};
use rustc_serialize::json::Json;
use vstd::prelude::*;

verus! {

/// A valid single call with the identifier `id`, to which the application
/// replies with the result `result` under that identifier, is answered by
/// the one object `{jsonrpc: "2.0", id, result}`.
pub proof fn law_single_call_result(call: JsonView, id: IdView, result: Json, j: Json)
    requires
        validation(call) matches Ok(request) && request.id == Some(id),
        answers_value(
            call,
            Some(seq![ResponseView::Normal(NormalResponseView { id, result })]),
            j,
        ),
    ensures
        json_view(j) matches JsonView::Object(members) && {
            &&& members.dom() =~= set!["jsonrpc"@, "id"@, "result"@]
            &&& json_view(members["jsonrpc"@]) == JsonView::String("2.0"@)
            &&& id.projects_to(members["id"@])
            &&& members["result"@] == result
        },
{
    let slots = seq![slot_for(call)];
    let reply = Some(seq![ResponseView::Normal(NormalResponseView { id, result })]);
    assert(slots[0] is Dispatched);
    assert(rank(slots, 1) == 1) by {
        assert(rank(slots, 0) == 0);
    }
    assert(usable(slots, reply));
    assert(answers(slots, reply, 0, seq![j][0]));
}

/// A single call without `jsonrpc`, or with another value there than the
/// string `"2.0"`, is answered by the object `{jsonrpc: "2.0", id: null,
/// error: {code: -32600, message: "Invalid Request", data}}`, whatever the
/// application does; `data` is a string.
pub proof fn law_wrong_version_rejected(
    call: JsonView,
    reply: Option<Seq<ResponseView>>,
    j: Json,
)
    requires
        !(call is Array),
        !version_ok(call),
        answers_value(call, reply, j),
    ensures
        validation(call) is Err,
        json_view(j) matches JsonView::Object(members) && {
            &&& members.dom() =~= set!["jsonrpc"@, "id"@, "error"@]
            &&& json_view(members["jsonrpc"@]) == JsonView::String("2.0"@)
            &&& json_view(members["id"@]) == JsonView::Null
            &&& json_view(members["error"@]) matches JsonView::Object(error) && {
                &&& error.dom() =~= set!["code"@, "message"@, "data"@]
                &&& json_view(error["code"@]) == JsonView::I64(INVALID_REQUEST)
                &&& json_view(error["message"@]) == JsonView::String("Invalid Request"@)
                &&& json_view(error["data"@]) == JsonView::String(
                    validation(call)->Err_0.text(),
                )
            }
        },
{
    let slots = seq![slot_for(call)];
    assert(answers(slots, reply, 0, seq![j][0]));
}

/// The answer to a batch of `N` calls holds exactly `N` values, and each
/// stands at the position of its call. A call that fails validation is
/// answered by an invalid-request error that names the check. A valid call is
/// answered by the application's response to the request made from it, where
/// the application gave one response for each request of the batch, and by an
/// internal error otherwise.
pub proof fn law_batch_positions(
    items: Seq<Json>,
    reply: Option<Seq<ResponseView>>,
    out: Seq<Json>,
    i: int,
)
    requires
        answers_all(slots_of(items), reply, out),
        0 <= i < items.len(),
    ensures
        out.len() == items.len(),
        match validation(json_view(items[i])) {
            Err(error) => is_invalid_request(out[i], error.text()),
            Ok(request) => {
                let k = rank(slots_of(items), i) as int;
                &&& 0 <= k < requests_of(items).len()
                &&& requests_of(items)[k] == request
                &&& if reply matches Some(responses) && responses.len() == requests_of(
                    items,
                ).len() {
                    reply->Some_0[k].projects_to(out[i])
                } else {
                    is_internal_error(out[i], request.id)
                }
            },
        },
{
    lemma_requests_dispatched(items);
    assert(answers(slots_of(items), reply, i, out[i]));
    if validation(json_view(items[i])) is Ok {
        lemma_request_at(items, i);
    }
}

/// The request made from a valid call stands among the requests of its batch
/// at the call's rank, so that requests keep the order of their calls.
pub proof fn lemma_request_at(items: Seq<Json>, i: int)
    requires
        0 <= i < items.len(),
        validation(json_view(items[i])) is Ok,
    ensures
        rank(slots_of(items), i) < requests_of(items).len(),
        requests_of(items)[rank(slots_of(items), i) as int] == validation(
            json_view(items[i]),
        )->Ok_0,
    decreases items.len(),
{
    let front = items.drop_last();
    let n = front.len() as int;
    lemma_requests_dispatched(front);
    lemma_rank_prefix(slots_of(items), slots_of(front), n);
    if i < n {
        lemma_request_at(front, i);
        lemma_rank_prefix(slots_of(items), slots_of(front), i);
    }
}

/// A body that is not valid UTF-8, that is beyond the limits, or whose text
/// is not valid JSON, is answered by the object `{jsonrpc: "2.0", id: null, error: {code: -32700,
/// message: "Parse error", data: null}}`.
pub proof fn law_malformed_body(body: Seq<u8>, reply: Option<Seq<ResponseView>>, j: Json)
    requires
        body_json(body) is None,
        answers_body(body, reply, j),
    ensures
        json_view(j) matches JsonView::Object(members) && {
            &&& members.dom() =~= set!["jsonrpc"@, "id"@, "error"@]
            &&& json_view(members["jsonrpc"@]) == JsonView::String("2.0"@)
            &&& json_view(members["id"@]) == JsonView::Null
            &&& json_view(members["error"@]) matches JsonView::Object(error) && {
                &&& error.dom() =~= set!["code"@, "message"@, "data"@]
                &&& json_view(error["code"@]) == JsonView::I64(PARSE_ERROR)
                &&& json_view(error["message"@]) == JsonView::String("Parse error"@)
                &&& json_view(error["data"@]) == JsonView::Null
            }
        },
{
}

/// The JSON object of a response has the members `jsonrpc` and `id` and one
/// of `result` and `error`, never both, and no other member.
pub proof fn law_response_members(response: ResponseView, j: Json)
    requires
        response.projects_to(j),
    ensures
        json_view(j) matches JsonView::Object(members) && {
            &&& members.contains_key("jsonrpc"@)
            &&& members.contains_key("id"@)
            &&& members.contains_key("result"@) != members.contains_key("error"@)
            &&& members.contains_key("result"@) == (response is Normal)
            &&& forall|key: Seq<char>| #[trigger]
                members.contains_key(key) ==> key == "jsonrpc"@ || key == "id"@ || key
                    == "result"@ || key == "error"@
        },
{
    lemma_member_names();
}

/// Where the application gives no reply, each valid call of a batch is
/// answered by the object `{jsonrpc: "2.0", id, error: {code: -32603,
/// message: "Internal error", data: null}}` with the call's identifier.
pub proof fn law_no_reply(slots: Seq<SlotView>, out: Seq<Json>, i: int)
    requires
        answers_all(slots, None, out),
        0 <= i < slots.len(),
        slots[i] is Dispatched,
    ensures
        json_view(out[i]) matches JsonView::Object(members) && {
            &&& members.dom() =~= set!["jsonrpc"@, "id"@, "error"@]
            &&& json_view(members["jsonrpc"@]) == JsonView::String("2.0"@)
            &&& id_projects_to(slots[i]->Dispatched_0, members["id"@])
            &&& json_view(members["error"@]) matches JsonView::Object(error) && {
                &&& error.dom() =~= set!["code"@, "message"@, "data"@]
                &&& json_view(error["code"@]) == JsonView::I64(INTERNAL_ERROR)
                &&& json_view(error["message"@]) == JsonView::String("Internal error"@)
                &&& json_view(error["data"@]) == JsonView::Null
            }
        },
{
    assert(answers(slots, None, i, out[i]));
}

} // verus!
