use json_rpc::dispatch::{Batch, Slot};
use json_rpc::request::{Id, Parameters, Request};
use json_rpc::response::{ErrorResponse, NormalResponse, Response};
use json_rpc::server::{Failure, Handoff, Server};
use json_rpc::validate::ValidationError;
use rustc_serialize::json::Json;

fn calls(text: &str) -> Vec<Json> {
    match Json::from_str(text).unwrap() {
        Json::Array(items) => items,
        _ => panic!("no array"),
    }
}

fn value(text: &str) -> Json {
    Json::from_str(text).unwrap()
}

// An application that knows `double`, which doubles its one unsigned argument.
fn apply(request: &Request) -> Response {
    let id = match &request.id {
        Some(id) => id.duplicate(),
        None => return Response::Error(ErrorResponse::new_internal_error(None)),
    };
    if request.method != "double" {
        return Response::Error(ErrorResponse::new_method_not_found(
            id,
            Json::String(request.method.clone()),
        ));
    }
    match &request.params {
        Parameters::Positional(values) => match values.as_slice() {
            [Json::U64(n)] => Response::Normal(NormalResponse::new(id, Json::U64(2 * n))),
            _ => Response::Error(ErrorResponse::new_invalid_params(id, Json::Null)),
        },
        Parameters::Named(_) => Response::Error(ErrorResponse::new_invalid_params(id, Json::Null)),
    }
}

fn served(text: &str) -> Vec<Json> {
    let Batch { slots, requests } = Server::new().validate_batch(calls(text));
    let reply: Vec<Response> = requests.iter().map(apply).collect();
    Server::complete(slots, Some(reply))
}

#[test]
fn a_valid_call_gets_the_result_of_the_application_under_its_identifier() {
    let out = served(r#"[{"jsonrpc":"2.0","method":"double","params":[21],"id":"X"}]"#);
    assert_eq!(out, vec![value(r#"{"jsonrpc":"2.0","id":"X","result":42}"#)]);
}

#[test]
fn validation_sorts_calls_into_slots_and_requests() {
    let batch = Server::new().validate_batch(calls(
        r#"[{"jsonrpc":"2.0","method":"a","params":[],"id":1},
            7,
            {"jsonrpc":"2.0","method":"b","params":{},"id":-2},
            {"jsonrpc":"2.0","method":"c"},
            {"jsonrpc":"2.0","method":"d","params":[]}]"#,
    ));
    assert_eq!(batch.slots.len(), 5);
    assert!(matches!(batch.slots[0], Slot::Dispatched(Some(Id::U64(1)))));
    assert!(matches!(batch.slots[1], Slot::Invalid(ValidationError::NotAnObject)));
    assert!(matches!(batch.slots[2], Slot::Dispatched(Some(Id::I64(-2)))));
    assert!(matches!(batch.slots[3], Slot::Invalid(ValidationError::InvalidParams)));
    assert!(matches!(batch.slots[4], Slot::Dispatched(None)));
    let methods: Vec<&str> = batch.requests.iter().map(|r| r.method.as_str()).collect();
    assert_eq!(methods, vec!["a", "b", "d"]);
    assert!(matches!(batch.requests[0].id, Some(Id::U64(1))));
    assert!(matches!(batch.requests[1].id, Some(Id::I64(-2))));
    assert!(batch.requests[2].id.is_none());
}

#[test]
fn a_mixed_batch_is_answered_position_by_position() {
    let out = served(
        r#"[{"jsonrpc":"2.0","method":"double","params":[1],"id":1},
            {"jsonrpc":"1.0","method":"double","params":[2],"id":2},
            {"jsonrpc":"2.0","method":"double","params":[3],"id":3},
            "call",
            {"jsonrpc":"2.0","method":"triple","params":[5],"id":5},
            {"jsonrpc":"2.0","method":"double","params":["6"],"id":6}]"#,
    );
    assert_eq!(
        out,
        vec![
            value(r#"{"jsonrpc":"2.0","id":1,"result":2}"#),
            value(
                r#"{"jsonrpc":"2.0","id":null,"error":{"code":-32600,"message":"Invalid Request","data":"Invalid version specified"}}"#
            ),
            value(r#"{"jsonrpc":"2.0","id":3,"result":6}"#),
            value(
                r#"{"jsonrpc":"2.0","id":null,"error":{"code":-32600,"message":"Invalid Request","data":"Not a JSON object"}}"#
            ),
            value(
                r#"{"jsonrpc":"2.0","id":5,"error":{"code":-32601,"message":"Method not found","data":"triple"}}"#
            ),
            value(
                r#"{"jsonrpc":"2.0","id":6,"error":{"code":-32602,"message":"Invalid params","data":null}}"#
            ),
        ]
    );
}

#[test]
fn each_failed_check_is_named_in_the_data_of_its_error() {
    let out = served(
        r#"[[], {}, {"jsonrpc":"2.0"}, {"jsonrpc":"2.0","method":"m"},
            {"jsonrpc":"2.0","method":"m","params":[],"id":true}]"#,
    );
    let data: Vec<&Json> =
        out.iter().map(|j| j.find_path(&["error", "data"]).unwrap()).collect();
    assert_eq!(
        data,
        vec![
            &Json::String("Not a JSON object".to_string()),
            &Json::String("Invalid version specified".to_string()),
            &Json::String("Invalid method specified".to_string()),
            &Json::String("Invalid params specified".to_string()),
            &Json::String("Invalid id specified".to_string()),
        ]
    );
    for j in out.iter() {
        assert_eq!(j.find_path(&["error", "code"]), Some(&Json::I64(-32600)));
        assert_eq!(j.find("id"), Some(&Json::Null));
    }
}

#[test]
fn a_notification_is_answered_at_its_position_like_any_call() {
    let Batch { slots, requests } = Server::new().validate_batch(calls(
        r#"[{"jsonrpc":"2.0","method":"double","params":[4],"id":1},
            {"jsonrpc":"2.0","method":"double","params":[5]},
            {"jsonrpc":"2.0","method":"double","params":[6],"id":null},
            {"jsonrpc":"2.0","method":"double","params":[7],"id":2}]"#,
    ));
    assert_eq!(requests.len(), 4);
    let reply = vec![
        Response::Normal(NormalResponse::new(Id::U64(1), Json::U64(8))),
        Response::Error(ErrorResponse::new(None, -1, "noted".to_string(), Json::Null)),
        Response::Error(ErrorResponse::new(None, -1, "noted".to_string(), Json::Null)),
        Response::Normal(NormalResponse::new(Id::U64(2), Json::U64(14))),
    ];
    assert_eq!(
        Server::complete(slots, Some(reply)),
        vec![
            value(r#"{"jsonrpc":"2.0","id":1,"result":8}"#),
            value(r#"{"jsonrpc":"2.0","id":null,"error":{"code":-1,"message":"noted","data":null}}"#),
            value(r#"{"jsonrpc":"2.0","id":null,"error":{"code":-1,"message":"noted","data":null}}"#),
            value(r#"{"jsonrpc":"2.0","id":2,"result":14}"#),
        ]
    );
}

#[test]
fn an_empty_batch_has_an_empty_answer() {
    assert_eq!(served("[]"), Vec::<Json>::new());
    assert_eq!(Server::complete(Vec::new(), None), Vec::<Json>::new());
}

#[test]
fn without_a_reply_each_valid_call_gets_an_internal_error() {
    let Batch { slots, requests } = Server::new().validate_batch(calls(
        r#"[{"jsonrpc":"2.0","method":"double","params":[1],"id":"a"},
            {"method":"double"},
            {"jsonrpc":"2.0","method":"double","params":[1],"id":1.5},
            {"jsonrpc":"2.0","method":"double","params":[1]}]"#,
    ));
    assert_eq!(requests.len(), 3);
    let out = Server::complete(slots, None);
    assert_eq!(
        out,
        vec![
            value(
                r#"{"jsonrpc":"2.0","id":"a","error":{"code":-32603,"message":"Internal error","data":null}}"#
            ),
            value(
                r#"{"jsonrpc":"2.0","id":null,"error":{"code":-32600,"message":"Invalid Request","data":"Invalid version specified"}}"#
            ),
            value(
                r#"{"jsonrpc":"2.0","id":1.5,"error":{"code":-32603,"message":"Internal error","data":null}}"#
            ),
            value(
                r#"{"jsonrpc":"2.0","id":null,"error":{"code":-32603,"message":"Internal error","data":null}}"#
            ),
        ]
    );
}

#[test]
fn a_reply_of_the_wrong_length_counts_as_none() {
    let text = r#"[{"jsonrpc":"2.0","method":"double","params":[1],"id":1},
                   {"jsonrpc":"2.0","method":"double","params":[2],"id":2}]"#;
    let internal = |id: u64| {
        value(&format!(
            r#"{{"jsonrpc":"2.0","id":{},"error":{{"code":-32603,"message":"Internal error","data":null}}}}"#,
            id
        ))
    };

    let Batch { slots, .. } = Server::new().validate_batch(calls(text));
    let short = vec![Response::Normal(NormalResponse::new(Id::U64(1), Json::U64(2)))];
    assert_eq!(Server::complete(slots, Some(short)), vec![internal(1), internal(2)]);

    let Batch { slots, .. } = Server::new().validate_batch(calls(text));
    let long = vec![
        Response::Normal(NormalResponse::new(Id::U64(1), Json::U64(2))),
        Response::Normal(NormalResponse::new(Id::U64(2), Json::U64(4))),
        Response::Normal(NormalResponse::new(Id::U64(3), Json::U64(6))),
    ];
    assert_eq!(Server::complete(slots, Some(long)), vec![internal(1), internal(2)]);

    let Batch { slots, .. } = Server::new().validate_batch(calls(text));
    assert_eq!(Server::complete(slots, Some(Vec::new())), vec![internal(1), internal(2)]);
}

#[test]
fn responses_are_taken_by_position_and_not_by_identifier() {
    let Batch { slots, .. } = Server::new().validate_batch(calls(
        r#"[{"jsonrpc":"2.0","method":"double","params":[1],"id":1},
            {"jsonrpc":"2.0","method":"double","params":[2],"id":2}]"#,
    ));
    let swapped = vec![
        Response::Normal(NormalResponse::new(Id::U64(2), Json::U64(4))),
        Response::Normal(NormalResponse::new(Id::U64(1), Json::U64(2))),
    ];
    assert_eq!(
        Server::complete(slots, Some(swapped)),
        vec![
            value(r#"{"jsonrpc":"2.0","id":2,"result":4}"#),
            value(r#"{"jsonrpc":"2.0","id":1,"result":2}"#),
        ]
    );
}

fn two_calls() -> Vec<Slot> {
    Server::new()
        .validate_batch(calls(
            r#"[{"jsonrpc":"2.0","method":"double","params":[1],"id":1}, {"jsonrpc":"2.0"}]"#,
        ))
        .slots
}

fn one_reply() -> Option<Vec<Response>> {
    Some(vec![Response::Normal(NormalResponse::new(Id::U64(1), Json::U64(2)))])
}

#[test]
fn a_batch_that_found_the_queue_full_is_refused() {
    assert_eq!(Server::settle(two_calls(), Handoff::Full, None), Err(Failure::Overloaded));
    assert_eq!(Server::settle(two_calls(), Handoff::Full, one_reply()), Err(Failure::Overloaded));
}

#[test]
fn a_batch_that_nobody_receives_is_answered_with_internal_errors() {
    let expected = vec![
        value(
            r#"{"jsonrpc":"2.0","id":1,"error":{"code":-32603,"message":"Internal error","data":null}}"#,
        ),
        value(
            r#"{"jsonrpc":"2.0","id":null,"error":{"code":-32600,"message":"Invalid Request","data":"Invalid method specified"}}"#,
        ),
    ];
    assert_eq!(Server::settle(two_calls(), Handoff::Closed, None), Ok(expected.clone()));
    assert_eq!(Server::settle(two_calls(), Handoff::Closed, one_reply()), Ok(expected.clone()));
    assert_eq!(Server::settle(two_calls(), Handoff::Queued, None), Ok(expected));
}

#[test]
fn a_batch_that_was_queued_is_answered_with_the_reply() {
    assert_eq!(
        Server::settle(two_calls(), Handoff::Queued, one_reply()),
        Ok(vec![
            value(r#"{"jsonrpc":"2.0","id":1,"result":2}"#),
            value(
                r#"{"jsonrpc":"2.0","id":null,"error":{"code":-32600,"message":"Invalid Request","data":"Invalid method specified"}}"#,
            ),
        ])
    );
}

#[test]
fn invalid_calls_alone_need_no_reply() {
    let Batch { slots, requests } = Server::new().validate_batch(calls(r#"[1, {"jsonrpc":"2.0"}]"#));
    assert!(requests.is_empty());
    let expected = vec![
        value(
            r#"{"jsonrpc":"2.0","id":null,"error":{"code":-32600,"message":"Invalid Request","data":"Not a JSON object"}}"#,
        ),
        value(
            r#"{"jsonrpc":"2.0","id":null,"error":{"code":-32600,"message":"Invalid Request","data":"Invalid method specified"}}"#,
        ),
    ];
    assert_eq!(Server::complete(slots, Some(Vec::new())), expected);
    let Batch { slots, .. } = Server::new().validate_batch(calls(r#"[1, {"jsonrpc":"2.0"}]"#));
    assert_eq!(Server::complete(slots, None), expected);
}
