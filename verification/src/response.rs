//! Responses and their JSON projections.

use crate::json::{close, json_view, object_of_three, JsonView, Node};
use crate::request::{id_projects_to, id_to_json, id_view, Id, IdView};
use rustc_serialize::json::Json;
use vstd::prelude::*;

verus! {

/// Malformed JSON.
pub const PARSE_ERROR: i64 = -32700;

/// Envelope validation failed.
pub const INVALID_REQUEST: i64 = -32600;

/// The application does not know the method.
pub const METHOD_NOT_FOUND: i64 = -32601;

/// The application does not accept the parameters.
pub const INVALID_PARAMS: i64 = -32602;

/// The engine or the application failed.
pub const INTERNAL_ERROR: i64 = -32603;

/// The names of a response's members differ from one another, and so do
/// those of an error's members.
pub proof fn lemma_member_names()
    ensures
        "jsonrpc"@ != "id"@,
        "jsonrpc"@ != "result"@,
        "jsonrpc"@ != "error"@,
        "id"@ != "result"@,
        "id"@ != "error"@,
        "result"@ != "error"@,
        "code"@ != "message"@,
        "code"@ != "data"@,
        "message"@ != "data"@,
{
    reveal_strlit("jsonrpc");
    reveal_strlit("id");
    reveal_strlit("result");
    reveal_strlit("error");
    reveal_strlit("code");
    reveal_strlit("message");
    reveal_strlit("data");
    assert("jsonrpc"@.len() == 7);
    assert("id"@.len() == 2);
    assert("result"@.len() == 6);
    assert("error"@.len() == 5);
    assert("message"@.len() == 7);
    assert("code"@[0] == 'c');
    assert("data"@[0] == 'd');
}

/// The reply to a call that succeeded.
pub struct NormalResponse {
    id: Id,
    result: Json,
}

/// What a [`NormalResponse`] holds.
pub ghost struct NormalResponseView {
    pub id: IdView,
    pub result: Json,
}

impl NormalResponseView {
    /// `j` is the object `{jsonrpc: "2.0", id, result}` of this response.
    pub open spec fn projects_to(self, j: Json) -> bool {
        &&& json_view(j) matches JsonView::Object(members)
        &&& members.dom() =~= set!["jsonrpc"@, "id"@, "result"@]
        &&& json_view(members["jsonrpc"@]) == JsonView::String("2.0"@)
        &&& self.id.projects_to(members["id"@])
        &&& members["result"@] == self.result
    }
}

impl View for NormalResponse {
    type V = NormalResponseView;

    closed spec fn view(&self) -> NormalResponseView {
        NormalResponseView { id: self.id@, result: self.result }
    }
}

impl NormalResponse {
    pub fn new(id: Id, result: Json) -> (response: NormalResponse)
        ensures
            response@ == (NormalResponseView { id: id@, result }),
    {
        NormalResponse { id, result }
    }

    /// The JSON object of this response.
    pub fn to_json(&self) -> (j: Json)
        ensures
            self@.projects_to(j),
    {
        proof {
            lemma_member_names();
        }
        let version = close(Node::String("2.0".to_owned()));
        object_of_three("jsonrpc", version, "id", self.id.to_json(), "result", self.result.clone())
    }
}

/// The reply to a call that failed.
pub struct ErrorResponse {
    id: Option<Id>,
    code: i64,
    message: String,
    data: Json,
}

/// What an [`ErrorResponse`] holds.
pub ghost struct ErrorResponseView {
    pub id: Option<IdView>,
    pub code: i64,
    pub message: Seq<char>,
    pub data: Json,
}

impl ErrorResponseView {
    /// `j` is the object `{code, message, data}` of this error.
    pub open spec fn error_projects_to(self, j: Json) -> bool {
        &&& json_view(j) matches JsonView::Object(members)
        &&& members.dom() =~= set!["code"@, "message"@, "data"@]
        &&& json_view(members["code"@]) == JsonView::I64(self.code)
        &&& json_view(members["message"@]) == JsonView::String(self.message)
        &&& members["data"@] == self.data
    }

    /// `j` is the object `{jsonrpc: "2.0", id, error}` of this response.
    pub open spec fn projects_to(self, j: Json) -> bool {
        &&& json_view(j) matches JsonView::Object(members)
        &&& members.dom() =~= set!["jsonrpc"@, "id"@, "error"@]
        &&& json_view(members["jsonrpc"@]) == JsonView::String("2.0"@)
        &&& id_projects_to(self.id, members["id"@])
        &&& self.error_projects_to(members["error"@])
    }
}

/// The `data` of the error that a response object reports.
pub open spec fn error_data(j: Json) -> Json {
    match json_view(j) {
        JsonView::Object(members) => match json_view(members["error"@]) {
            JsonView::Object(error) => error["data"@],
            _ => j,
        },
        _ => j,
    }
}

/// `j` is an error response without an identifier, with the code and the
/// message given, and with `data`, where one is given, as the text of its
/// data; where none is given, its data is `null`.
pub open spec fn is_plain_error(j: Json, code: i64, message: Seq<char>, data: Option<Seq<char>>) -> bool {
    &&& (ErrorResponseView { id: None, code, message, data: error_data(j) }).projects_to(j)
    &&& json_view(error_data(j)) == match data {
        Some(text) => JsonView::String(text),
        None => JsonView::Null,
    }
}

/// `j` is the response to a body that is no JSON.
pub open spec fn is_parse_error(j: Json) -> bool {
    is_plain_error(j, PARSE_ERROR, "Parse error"@, None)
}

/// `j` is the response to a call that failed validation with `reason`.
pub open spec fn is_invalid_request(j: Json, reason: Seq<char>) -> bool {
    is_plain_error(j, INVALID_REQUEST, "Invalid Request"@, Some(reason))
}

/// `j` is the response to a call with the identifier `id` that the
/// application did not answer.
pub open spec fn is_internal_error(j: Json, id: Option<IdView>) -> bool {
    &&& (ErrorResponseView {
        id,
        code: INTERNAL_ERROR,
        message: "Internal error"@,
        data: error_data(j),
    }).projects_to(j)
    &&& json_view(error_data(j)) == JsonView::Null
}

impl View for ErrorResponse {
    type V = ErrorResponseView;

    closed spec fn view(&self) -> ErrorResponseView {
        ErrorResponseView {
            id: id_view(self.id),
            code: self.code,
            message: self.message@,
            data: self.data,
        }
    }
}

impl ErrorResponse {
    pub fn new(id: Option<Id>, code: i64, message: String, data: Json) -> (response: ErrorResponse)
        ensures
            response@ == (ErrorResponseView { id: id_view(id), code, message: message@, data }),
    {
        ErrorResponse { id, code, message, data }
    }

    /// The body could not be read as JSON.
    pub fn new_parse_error() -> (response: ErrorResponse)
        ensures
            response@.id is None,
            response@.code == PARSE_ERROR,
            response@.message == "Parse error"@,
            json_view(response@.data) == JsonView::Null,
    {
        ErrorResponse::new(None, PARSE_ERROR, "Parse error".to_owned(), close(Node::Null))
    }

    /// A call failed validation; `data` says which check it failed.
    pub fn new_invalid_request(data: Json) -> (response: ErrorResponse)
        ensures
            response@ == (ErrorResponseView {
                id: None,
                code: INVALID_REQUEST,
                message: "Invalid Request"@,
                data,
            }),
    {
        ErrorResponse::new(None, INVALID_REQUEST, "Invalid Request".to_owned(), data)
    }

    pub fn new_method_not_found(id: Id, data: Json) -> (response: ErrorResponse)
        ensures
            response@ == (ErrorResponseView {
                id: Some(id@),
                code: METHOD_NOT_FOUND,
                message: "Method not found"@,
                data,
            }),
    {
        ErrorResponse::new(Some(id), METHOD_NOT_FOUND, "Method not found".to_owned(), data)
    }

    pub fn new_invalid_params(id: Id, data: Json) -> (response: ErrorResponse)
        ensures
            response@ == (ErrorResponseView {
                id: Some(id@),
                code: INVALID_PARAMS,
                message: "Invalid params"@,
                data,
            }),
    {
        ErrorResponse::new(Some(id), INVALID_PARAMS, "Invalid params".to_owned(), data)
    }

    /// The application gave no usable reply to the call with this identifier.
    pub fn new_internal_error(id: Option<Id>) -> (response: ErrorResponse)
        ensures
            response@.id == id_view(id),
            response@.code == INTERNAL_ERROR,
            response@.message == "Internal error"@,
            json_view(response@.data) == JsonView::Null,
    {
        ErrorResponse::new(id, INTERNAL_ERROR, "Internal error".to_owned(), close(Node::Null))
    }

    /// The JSON object of this response.
    pub fn to_json(&self) -> (j: Json)
        ensures
            self@.projects_to(j),
    {
        proof {
            lemma_member_names();
        }
        let code = close(Node::I64(self.code));
        let message = close(Node::String(self.message.clone()));
        let error = object_of_three("code", code, "message", message, "data", self.data.clone());
        let version = close(Node::String("2.0".to_owned()));
        object_of_three("jsonrpc", version, "id", id_to_json(&self.id), "error", error)
    }
}

/// One entry of the engine's answer.
pub enum Response {
    Normal(NormalResponse),
    Error(ErrorResponse),
}

/// What a [`Response`] holds.
pub ghost enum ResponseView {
    Normal(NormalResponseView),
    Error(ErrorResponseView),
}

impl ResponseView {
    /// `j` is the JSON object of this response.
    pub open spec fn projects_to(self, j: Json) -> bool {
        match self {
            ResponseView::Normal(normal) => normal.projects_to(j),
            ResponseView::Error(error) => error.projects_to(j),
        }
    }
}

impl View for Response {
    type V = ResponseView;

    open spec fn view(&self) -> ResponseView {
        match *self {
            Response::Normal(normal) => ResponseView::Normal(normal@),
            Response::Error(error) => ResponseView::Error(error@),
        }
    }
}

impl Response {
    /// The JSON object of this response.
    pub fn to_json(&self) -> (j: Json)
        ensures
            self@.projects_to(j),
    {
        match self {
            Response::Normal(normal) => normal.to_json(),
            Response::Error(error) => error.to_json(),
        }
    }
}

} // verus!
