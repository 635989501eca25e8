//! Batches: which calls go to the application, and how its reply and the
//! validation errors are put together in the order of the calls.

use crate::json::{close, json_view, JsonView, Node};
use crate::request::{id_view, Id, IdView, Request, RequestView};
use crate::response::{
    is_internal_error, is_invalid_request, ErrorResponse, Response, ResponseView,
};
use crate::server::Server;
use crate::validate::{validation, ValidationError};
use rustc_serialize::json::Json;
use vstd::prelude::*;

verus! {

/// What became of one call of a batch.
pub enum Slot {
    /// The call failed validation and is answered without the application.
    Invalid(ValidationError),
    /// The call went to the application; its identifier stays behind.
    Dispatched(Option<Id>),
}

/// What a [`Slot`] holds.
pub ghost enum SlotView {
    Invalid(ValidationError),
    Dispatched(Option<IdView>),
}

impl View for Slot {
    type V = SlotView;

    open spec fn view(&self) -> SlotView {
        match *self {
            Slot::Invalid(error) => SlotView::Invalid(error),
            Slot::Dispatched(id) => SlotView::Dispatched(id_view(id)),
        }
    }
}

/// A batch after validation.
pub struct Batch {
    /// One slot for each call, in the order of the calls.
    pub slots: Vec<Slot>,
    /// The valid calls, in the order of the calls.
    pub requests: Vec<Request>,
}

/// What the slots of a batch hold.
pub open spec fn slot_views(slots: Seq<Slot>) -> Seq<SlotView> {
    Seq::new(slots.len(), |i: int| slots[i]@)
}

/// What the requests of a batch hold.
pub open spec fn request_views(requests: Seq<Request>) -> Seq<RequestView> {
    Seq::new(requests.len(), |i: int| requests[i]@)
}

/// What the responses of a reply hold.
pub open spec fn response_views(responses: Seq<Response>) -> Seq<ResponseView> {
    Seq::new(responses.len(), |i: int| responses[i]@)
}

/// What an optional reply holds.
pub open spec fn reply_view(reply: Option<Vec<Response>>) -> Option<Seq<ResponseView>> {
    match reply {
        Some(responses) => Some(response_views(responses@)),
        None => None,
    }
}

/// The slot of a call: invalid with the check that it fails, or dispatched
/// with its identifier.
pub open spec fn slot_for(v: JsonView) -> SlotView {
    match validation(v) {
        Ok(request) => SlotView::Dispatched(request.id),
        Err(error) => SlotView::Invalid(error),
    }
}

/// The slots of a batch of calls.
pub open spec fn slots_of(items: Seq<Json>) -> Seq<SlotView> {
    Seq::new(items.len(), |i: int| slot_for(json_view(items[i])))
}

/// The requests of a batch of calls: those that pass validation, in order.
pub open spec fn requests_of(items: Seq<Json>) -> Seq<RequestView>
    decreases items.len(),
{
    if items.len() == 0 {
        Seq::empty()
    } else {
        match validation(json_view(items.last())) {
            Ok(request) => requests_of(items.drop_last()).push(request),
            Err(_) => requests_of(items.drop_last()),
        }
    }
}

/// How many of the first `i` slots are dispatched.
pub open spec fn rank(slots: Seq<SlotView>, i: int) -> nat
    decreases i,
{
    if i <= 0 {
        0
    } else {
        rank(slots, i - 1) + if slots[i - 1] is Dispatched {
            1nat
        } else {
            0nat
        }
    }
}

/// How many slots are dispatched.
pub open spec fn dispatched(slots: Seq<SlotView>) -> nat {
    rank(slots, slots.len() as int)
}

/// The reply can be used: there is one, and it has one response for each
/// dispatched call.
pub open spec fn usable(slots: Seq<SlotView>, reply: Option<Seq<ResponseView>>) -> bool {
    reply matches Some(responses) && responses.len() == dispatched(slots)
}

/// `j` answers the call at position `i`.
///
/// An invalid call is answered by an invalid-request error that names the
/// check. A dispatched call is answered by the application's response of the
/// same rank among the dispatched calls; where the reply cannot be used, by
/// an internal error that carries the call's identifier.
pub open spec fn answers(
    slots: Seq<SlotView>,
    reply: Option<Seq<ResponseView>>,
    i: int,
    j: Json,
) -> bool {
    match slots[i] {
        SlotView::Invalid(error) => is_invalid_request(j, error.text()),
        SlotView::Dispatched(id) => if usable(slots, reply) {
            reply.unwrap()[rank(slots, i) as int].projects_to(j)
        } else {
            is_internal_error(j, id)
        },
    }
}

/// `out` answers every call of a batch, position by position.
pub open spec fn answers_all(
    slots: Seq<SlotView>,
    reply: Option<Seq<ResponseView>>,
    out: Seq<Json>,
) -> bool {
    &&& out.len() == slots.len()
    &&& forall|i: int| 0 <= i < slots.len() ==> answers(slots, reply, i, #[trigger] out[i])
}

/// The rank never exceeds the position, and grows with it.
pub proof fn lemma_rank_bounds(slots: Seq<SlotView>, i: int, j: int)
    requires
        0 <= i <= j,
    ensures
        rank(slots, i) <= rank(slots, j),
        rank(slots, i) <= i,
    decreases j,
{
    if i < j {
        lemma_rank_bounds(slots, i, j - 1);
    } else if i > 0 {
        lemma_rank_bounds(slots, i - 1, i - 1);
    }
}

/// The rank of a position depends on the slots before it alone.
pub proof fn lemma_rank_prefix(a: Seq<SlotView>, b: Seq<SlotView>, i: int)
    requires
        0 <= i <= a.len(),
        i <= b.len(),
        forall|k: int| 0 <= k < i ==> a[k] == b[k],
    ensures
        rank(a, i) == rank(b, i),
    decreases i,
{
    if i > 0 {
        lemma_rank_prefix(a, b, i - 1);
    }
}

/// As many calls are dispatched as pass validation.
pub proof fn lemma_requests_dispatched(items: Seq<Json>)
    ensures
        requests_of(items).len() == dispatched(slots_of(items)),
    decreases items.len(),
{
    if items.len() > 0 {
        let front = items.drop_last();
        lemma_requests_dispatched(front);
        lemma_rank_prefix(slots_of(items), slots_of(front), front.len() as int);
    }
}

impl Server {
    /// Validates each call of a batch.
    ///
    /// Every call gets a slot; those that pass validation are also listed as
    /// requests for the application, in the order of the calls.
    pub fn validate_batch(&self, request_json: Vec<Json>) -> (batch: Batch)
        ensures
            slot_views(batch.slots@) == slots_of(request_json@),
            request_views(batch.requests@) == requests_of(request_json@),
            forall|i: int| 0 <= i < batch.requests.len() ==> (#[trigger] batch.requests[i]).wf(),
    {
        let ghost items = request_json@;
        let mut slots: Vec<Slot> = Vec::new();
        let mut requests: Vec<Request> = Vec::new();
        for json in it: request_json
            invariant
                it.seq() == items,
                slot_views(slots@) == slots_of(items.take(it.index() as int)),
                request_views(requests@) == requests_of(items.take(it.index() as int)),
                forall|i: int| 0 <= i < requests.len() ==> (#[trigger] requests[i]).wf(),
        {
            let ghost done = items.take(it.index() as int);
            let ghost next = items.take(it.index() + 1);
            let ghost slots_before = slots@;
            let ghost requests_before = requests@;
            assert(slot_views(slots_before).len() == done.len());
            assert(next.drop_last() == done);
            assert(next.last() == json);
            match self.parse_json_request(json) {
                Ok(request) => {
                    slots.push(Slot::Dispatched(duplicate_id(&request.id)));
                    requests.push(request);
                },
                Err(error) => {
                    slots.push(Slot::Invalid(error));
                },
            }
            assert(slot_views(slots@) =~= slots_of(next)) by {
                assert forall|k: int| 0 <= k < next.len() implies slot_views(slots@)[k]
                    == slots_of(next)[k] by {
                    if k < done.len() {
                        assert(slot_views(slots_before)[k] == slots_of(done)[k]);
                        assert(next[k] == done[k]);
                    }
                }
            }
            assert(request_views(requests@) =~= requests_of(next)) by {
                assert forall|k: int| 0 <= k < requests_before.len() implies request_views(
                    requests@,
                )[k] == requests_of(done)[k] by {
                    assert(request_views(requests_before)[k] == requests_of(done)[k]);
                }
            }
        }
        assert(items.take(items.len() as int) == items);
        Batch { slots, requests }
    }

    /// Puts the answer to a batch together.
    ///
    /// The answer has one JSON value for each slot, in the order of the
    /// slots. No reply, or a reply that does not hold one response for each
    /// dispatched call, counts as a failure of the application for every
    /// dispatched call.
    pub fn complete(slots: Vec<Slot>, reply: Option<Vec<Response>>) -> (out: Vec<Json>)
        ensures
            answers_all(slot_views(slots@), reply_view(reply), out@),
    {
        let ghost views = slot_views(slots@);
        let mut count: usize = 0;
        let mut i: usize = 0;
        while i < slots.len()
            invariant
                i <= slots.len(),
                views == slot_views(slots@),
                count == rank(views, i as int),
                count <= i,
            decreases slots.len() - i,
        {
            match &slots[i] {
                Slot::Dispatched(_) => { count += 1; },
                Slot::Invalid(_) => {},
            }
            i += 1;
        }
        let ghost given = reply_view(reply);
        let (replied, responses) = match reply {
            Some(responses) => (true, responses),
            None => (false, Vec::new()),
        };
        let in_use = replied && responses.len() == count;
        assert(in_use == usable(views, given));

        let mut out: Vec<Json> = Vec::new();
        let mut next: usize = 0;
        let mut i: usize = 0;
        while i < slots.len()
            invariant
                i <= slots.len(),
                views == slot_views(slots@),
                next == rank(views, i as int),
                next <= i,
                in_use == usable(views, given),
                in_use ==> given == Some(response_views(responses@)),
                out.len() == i,
                forall|k: int| 0 <= k < i ==> answers(views, given, k, #[trigger] out[k]),
            decreases slots.len() - i,
        {
            proof {
                lemma_rank_bounds(views, i as int + 1, slots.len() as int);
            }
            let json = match &slots[i] {
                Slot::Invalid(error) => {
                    let data = close(Node::String(error.message()));
                    ErrorResponse::new_invalid_request(data).to_json()
                },
                Slot::Dispatched(id) => {
                    let json = if in_use {
                        responses[next].to_json()
                    } else {
                        ErrorResponse::new_internal_error(duplicate_id(id)).to_json()
                    };
                    next += 1;
                    json
                },
            };
            out.push(json);
            i += 1;
        }
        out
    }
}

/// A copy of an optional identifier.
pub fn duplicate_id(id: &Option<Id>) -> (copy: Option<Id>)
    ensures
        id_view(copy) == id_view(*id),
{
    match id {
        Some(id) => Some(id.duplicate()),
        None => None,
    }
}

} // verus!
