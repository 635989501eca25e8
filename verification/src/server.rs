//! The server: the channel to the application and the entry points of the
//! transport.

use crate::dispatch::{
    answers_all, dispatched, lemma_requests_dispatched, reply_view, slot_for, slot_views,
    slots_of, Batch, Slot, SlotView,
};
use crate::json::{
    close, encode_json, encoded_json, json_view, open, parse_json, parsed_json, utf8_text,
    JsonView, Node,
};
use crate::limits::{is_within_limits, within_limits};
use crate::request::Request;
use crate::response::{is_parse_error, ErrorResponse, Response, ResponseView};
use rustc_serialize::json::Json;
use std::sync::mpsc::{Receiver, Sender, SyncSender, TrySendError};
use std::sync::Mutex;
use vstd::prelude::*;
use vstd::utf8::{decode_utf8, decode_utf8_encode_utf8, valid_utf8};

verus! {

/// `std::sync::mpsc::Sender`, the sending end of a channel without a bound.
#[verifier::external_type_specification]
#[verifier::external_body]
#[verifier::reject_recursive_types(T)]
pub struct ExSender<T>(Sender<T>);

/// `std::sync::mpsc::SyncSender`, the sending end of a channel with a bound.
#[verifier::external_type_specification]
#[verifier::external_body]
#[verifier::reject_recursive_types(T)]
pub struct ExSyncSender<T>(SyncSender<T>);

/// `std::sync::mpsc::Receiver`, the receiving end of a channel.
#[verifier::external_type_specification]
#[verifier::external_body]
#[verifier::reject_recursive_types(T)]
pub struct ExReceiver<T>(Receiver<T>);

/// `std::sync::Mutex`, a lock around a value.
#[verifier::external_type_specification]
#[verifier::external_body]
#[verifier::reject_recursive_types(T)]
pub struct ExMutex<T: ?Sized>(Mutex<T>);

/// `std::sync::mpsc::channel`: a new channel, of which nothing is claimed.
pub assume_specification<T>[ std::sync::mpsc::channel::<T> ]() -> (ends: (Sender<T>, Receiver<T>));

/// How many batches the channel behind a sending end holds at most: the
/// bound that `std::sync::mpsc::sync_channel` was given when it made the
/// channel.
pub uninterp spec fn queue_bound(sender: SyncSender<(Vec<Request>, Sender<Vec<Response>>)>) -> usize;

/// Calls `std::sync::mpsc::sync_channel`: a new channel for batches that
/// holds at most `bound` of them.
#[verifier::external_body]
fn batch_channel(bound: usize) -> (ends: (
    SyncSender<(Vec<Request>, Sender<Vec<Response>>)>,
    Receiver<(Vec<Request>, Sender<Vec<Response>>)>,
))
    ensures
        queue_bound(ends.0) == bound,
{
    std::sync::mpsc::sync_channel(bound)
}

/// `std::sync::Mutex::new`: a lock around a value, of which nothing is claimed.
pub assume_specification<T>[ Mutex::<T>::new ](t: T) -> (lock: Mutex<T>);

/// What became of a batch that was offered to the application.
pub enum Handoff {
    /// The batch waits for the application.
    Queued,
    /// As many batches wait as the channel holds.
    Full,
    /// Nobody receives any more.
    Closed,
}

/// Calls `std::sync::mpsc::SyncSender::try_send` with a batch and the sending
/// end of the channel for its reply, and does not wait. Nothing is claimed of
/// the outcome.
#[verifier::external_body]
fn send_batch(
    sender: &SyncSender<(Vec<Request>, Sender<Vec<Response>>)>,
    requests: Vec<Request>,
    reply: Sender<Vec<Response>>,
) -> (handoff: Handoff) {
    match sender.try_send((requests, reply)) {
        Ok(()) => Handoff::Queued,
        Err(TrySendError::Full(_)) => Handoff::Full,
        Err(TrySendError::Disconnected(_)) => Handoff::Closed,
    }
}

/// Calls `std::sync::mpsc::Receiver::recv_timeout`: waits for the reply at
/// most the given number of milliseconds. Returns the reply, or `None` where
/// none came in time or none can come any more; nothing is claimed of which.
#[verifier::external_body]
fn await_reply(replies: &Receiver<Vec<Response>>, wait_millis: u64) -> (reply: Option<
    Vec<Response>,
>) {
    replies.recv_timeout(std::time::Duration::from_millis(wait_millis)).ok()
}

/// The JSON value of a body: what its text parses to, where it is valid
/// UTF-8, within the limits and valid JSON.
pub open spec fn body_json(body: Seq<u8>) -> Option<Json> {
    if valid_utf8(body) && within_limits(body) {
        parsed_json(decode_utf8(body))
    } else {
        None
    }
}

/// The calls that a parsed body makes: those of a batch, or the one.
pub open spec fn calls_of(value: JsonView) -> Seq<SlotView> {
    match value {
        JsonView::Array(items) => slots_of(items),
        _ => seq![slot_for(value)],
    }
}

/// The body makes a call that has to go to the application.
pub open spec fn overloads(body: Seq<u8>) -> bool {
    body_json(body) matches Some(value) && dispatched(calls_of(json_view(value))) > 0
}

/// `j` answers a parsed body, given the application's reply.
///
/// An array is a batch and is answered by an array, call by call. Any other
/// value is a single call and is answered by a single response.
pub open spec fn answers_value(value: JsonView, reply: Option<Seq<ResponseView>>, j: Json) -> bool {
    match value {
        JsonView::Array(items) => json_view(j) matches JsonView::Array(out) && answers_all(
            slots_of(items),
            reply,
            out,
        ),
        _ => answers_all(seq![slot_for(value)], reply, seq![j]),
    }
}

/// `j` answers a body, given the application's reply: a parse error where
/// the body has no JSON value.
pub open spec fn answers_body(body: Seq<u8>, reply: Option<Seq<ResponseView>>, j: Json) -> bool {
    match body_json(body) {
        Some(value) => answers_value(json_view(value), reply, j),
        None => is_parse_error(j),
    }
}

/// `out` answers every call of a batch, given some reply of the application
/// or none.
pub open spec fn some_answers_all(slots: Seq<SlotView>, out: Seq<Json>) -> bool {
    exists|reply: Option<Seq<ResponseView>>| answers_all(slots, reply, out)
}

/// `j` answers a parsed body, given some reply of the application or none.
pub open spec fn some_answers_value(value: JsonView, j: Json) -> bool {
    exists|reply: Option<Seq<ResponseView>>| answers_value(value, reply, j)
}

/// `j` answers a body, given some reply of the application or none.
pub open spec fn some_answers_body(body: Seq<u8>, j: Json) -> bool {
    exists|reply: Option<Seq<ResponseView>>| answers_body(body, reply, j)
}

/// `text` is the encoding of an answer to the body.
pub open spec fn encodes_answer(body: Seq<u8>, text: Seq<char>) -> bool {
    exists|j: Json| some_answers_body(body, j) && encoded_json(j) == text
}

/// The HTTP status that goes with an outcome: 200 with every answer, whether
/// it reports errors or not, and 503 where the application could not take
/// the calls.
pub open spec fn status_for(outcome: Result<String, Failure>) -> u16 {
    match outcome {
        Ok(_) => 200,
        Err(Failure::Overloaded) => 503,
    }
}

/// How long the server waits for the application unless told otherwise, in
/// milliseconds.
pub const DEFAULT_WAIT_MILLIS: u64 = 30000;

/// How many batches may wait for the application unless told otherwise.
pub const DEFAULT_CAPACITY: usize = 1024;

/// Why a body got no answer.
#[derive(Clone, Copy, Debug, PartialEq, Eq, Structural)]
pub enum Failure {
    /// As many batches wait for the application as the server holds. The
    /// caller may try again later.
    Overloaded,
}

/// The HTTP status that goes with an outcome of [`Server::respond`].
pub fn status_of(outcome: &Result<String, Failure>) -> (status: u16)
    ensures
        status == status_for(*outcome),
{
    match outcome {
        Ok(_) => 200,
        Err(Failure::Overloaded) => 503,
    }
}

/// The engine between a transport and an application.
///
/// The transport hands each body to the server. The server sends the valid
/// calls of a body to the application over `requests`, as one batch with a
/// channel of its own for the reply, and waits for that reply a bounded time.
/// Every call of a body is answered, a notification too: the application
/// replies to each request that it receives.
pub struct Server {
    request_sender: SyncSender<(Vec<Request>, Sender<Vec<Response>>)>,
    /// The consuming end of the channel to the application. The application
    /// answers each batch that it receives with one response for each
    /// request, in the order of the requests.
    pub requests: Mutex<Receiver<(Vec<Request>, Sender<Vec<Response>>)>>,
    wait_millis: u64,
}

impl Server {
    /// How long the server waits for a reply, in milliseconds.
    pub closed spec fn wait(&self) -> u64 {
        self.wait_millis
    }

    /// How many batches the server lets wait for the application.
    pub closed spec fn capacity(&self) -> usize {
        queue_bound(self.request_sender)
    }

    /// A server that waits [`DEFAULT_WAIT_MILLIS`] for each reply and lets
    /// [`DEFAULT_CAPACITY`] batches wait for the application.
    pub fn new() -> (server: Server)
        ensures
            server.wait() == DEFAULT_WAIT_MILLIS,
            server.capacity() == DEFAULT_CAPACITY,
    {
        Server::with_limits(DEFAULT_WAIT_MILLIS, DEFAULT_CAPACITY)
    }

    /// A server that waits the given number of milliseconds for each reply
    /// and lets the given number of batches wait for the application.
    pub fn with_limits(wait_millis: u64, capacity: usize) -> (server: Server)
        ensures
            server.wait() == wait_millis,
            server.capacity() == capacity,
    {
        let (request_sender, requests) = batch_channel(capacity);
        Server { request_sender, requests: Mutex::new(requests), wait_millis }
    }

    /// Offers a batch of requests to the application and, where the batch
    /// was taken, waits for the reply.
    ///
    /// Returns what became of the batch, and the reply where one came in
    /// time.
    fn ask(&self, requests: Vec<Request>) -> (asked: (Handoff, Option<Vec<Response>>))
        ensures
            !(asked.0 is Queued) ==> asked.1 is None,
    {
        let (reply_sender, replies) = std::sync::mpsc::channel();
        let handoff = send_batch(&self.request_sender, requests, reply_sender);
        let reply = match handoff {
            Handoff::Queued => await_reply(&replies, self.wait_millis),
            _ => None,
        };
        (handoff, reply)
    }

    /// Decides what a batch gets, once its valid calls were offered to the
    /// application.
    ///
    /// A batch that found the queue full is refused. A batch that nobody
    /// receives any more is answered as one without a reply. A batch that
    /// was queued is answered with the reply, or as one without.
    pub fn settle(slots: Vec<Slot>, handoff: Handoff, reply: Option<Vec<Response>>) -> (outcome:
        Result<Vec<Json>, Failure>)
        ensures
            handoff is Full ==> outcome == Err::<Vec<Json>, Failure>(Failure::Overloaded),
            handoff is Closed ==> (outcome matches Ok(out) && answers_all(
                slot_views(slots@),
                None,
                out@,
            )),
            handoff is Queued ==> (outcome matches Ok(out) && answers_all(
                slot_views(slots@),
                reply_view(reply),
                out@,
            )),
    {
        match handoff {
            Handoff::Full => Err(Failure::Overloaded),
            Handoff::Closed => Ok(Server::complete(slots, None)),
            Handoff::Queued => Ok(Server::complete(slots, reply)),
        }
    }

    /// Answers a batch of calls.
    ///
    /// The valid calls go to the application as one batch, unless there is
    /// none. The answer holds one value for each call, in the order of the
    /// calls, whatever the application replies. There is no answer where the
    /// application cannot take the batch.
    pub fn process_request(&self, request_json: Vec<Json>) -> (outcome: Result<Vec<Json>, Failure>)
        ensures
            outcome matches Ok(out) ==> some_answers_all(slots_of(request_json@), out@),
            outcome matches Err(failure) ==> failure == Failure::Overloaded && dispatched(
                slots_of(request_json@),
            ) > 0,
    {
        let Batch { slots, requests } = self.validate_batch(request_json);
        proof {
            lemma_requests_dispatched(request_json@);
        }
        if requests.len() == 0 {
            let out = Server::complete(slots, None);
            assert(answers_all(slots_of(request_json@), None, out@));
            return Ok(out);
        }
        let (handoff, reply) = self.ask(requests);
        let ghost given = if handoff is Queued {
            reply_view(reply)
        } else {
            None
        };
        let outcome = Server::settle(slots, handoff, reply);
        assert(outcome matches Ok(out) ==> answers_all(slots_of(request_json@), given, out@));
        outcome
    }

    /// Answers a single call.
    pub fn single_request(&self, request_json: Json) -> (outcome: Result<Json, Failure>)
        ensures
            outcome matches Ok(j) ==> some_answers_all(
                seq![slot_for(json_view(request_json))],
                seq![j],
            ),
            outcome matches Err(failure) ==> failure == Failure::Overloaded && dispatched(
                seq![slot_for(json_view(request_json))],
            ) > 0,
    {
        let mut batch: Vec<Json> = Vec::new();
        batch.push(request_json);
        assert(slots_of(batch@) == seq![slot_for(json_view(request_json))]);
        match self.process_request(batch) {
            Ok(mut out) => {
                let ghost answer = out@;
                let j = out.pop().unwrap();
                assert(answer == seq![j]);
                Ok(j)
            },
            Err(failure) => Err(failure),
        }
    }

    /// Answers a batch of calls with a JSON array.
    pub fn batch_request(&self, request_json: Vec<Json>) -> (outcome: Result<Json, Failure>)
        ensures
            outcome matches Ok(j) ==> some_answers_value(JsonView::Array(request_json@), j),
            outcome matches Err(failure) ==> failure == Failure::Overloaded && dispatched(
                slots_of(request_json@),
            ) > 0,
    {
        match self.process_request(request_json) {
            Ok(out) => {
                let ghost reply = choose|reply: Option<Seq<ResponseView>>|
                    answers_all(slots_of(request_json@), reply, out@);
                let j = close(Node::Array(out));
                assert(answers_value(JsonView::Array(request_json@), reply, j));
                Ok(j)
            },
            Err(failure) => Err(failure),
        }
    }

    /// Answers a parsed body: a batch where it is an array, a single call
    /// otherwise.
    pub fn dispatch(&self, value: Json) -> (outcome: Result<Json, Failure>)
        ensures
            outcome matches Ok(j) ==> some_answers_value(json_view(value), j),
            outcome matches Err(failure) ==> failure == Failure::Overloaded && dispatched(
                calls_of(json_view(value)),
            ) > 0,
    {
        match open(value) {
            Node::Array(items) => self.batch_request(items),
            other => {
                let single = close(other);
                match self.single_request(single) {
                    Ok(j) => {
                        let ghost reply = choose|reply: Option<Seq<ResponseView>>|
                            answers_all(seq![slot_for(json_view(single))], reply, seq![j]);
                        assert(answers_value(json_view(value), reply, j));
                        Ok(j)
                    },
                    Err(failure) => Err(failure),
                }
            },
        }
    }

    /// Answers the body of one exchange with a JSON value.
    ///
    /// A body that is not valid UTF-8, that is beyond the limits of
    /// [`within_limits`] or that is not valid JSON is answered with a parse
    /// error, and the application is not asked.
    pub fn answer(&self, body: &[u8]) -> (outcome: Result<Json, Failure>)
        ensures
            outcome matches Ok(j) ==> some_answers_body(body@, j),
            outcome matches Err(failure) ==> failure == Failure::Overloaded && overloads(body@),
    {
        let parsed = match utf8_text(body) {
            Some(text) => {
                if is_within_limits(body) {
                    proof {
                        decode_utf8_encode_utf8(body@);
                    }
                    parse_json(text)
                } else {
                    None
                }
            },
            None => None,
        };
        match parsed {
            Some(value) => match self.dispatch(value) {
                Ok(j) => {
                    let ghost reply = choose|reply: Option<Seq<ResponseView>>|
                        answers_value(json_view(value), reply, j);
                    assert(answers_body(body@, reply, j));
                    Ok(j)
                },
                Err(failure) => Err(failure),
            },
            None => {
                let j = Response::Error(ErrorResponse::new_parse_error()).to_json();
                assert(answers_body(body@, None, j));
                Ok(j)
            },
        }
    }

    /// Answers the body of one exchange with the text to send back.
    ///
    /// Fails only where the application cannot take the calls of the body.
    pub fn respond(&self, body: &[u8]) -> (outcome: Result<String, Failure>)
        ensures
            outcome matches Ok(text) ==> encodes_answer(body@, text@),
            outcome matches Err(failure) ==> failure == Failure::Overloaded && overloads(body@),
    {
        match self.answer(body) {
            Ok(j) => {
                let text = encode_json(&j).unwrap();
                assert(some_answers_body(body@, j) && encoded_json(j) == text@);
                Ok(text)
            },
            Err(failure) => Err(failure),
        }
    }
}

} // verus!
