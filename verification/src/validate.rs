//! Envelope validation: from a JSON value to a request, or to the first
//! check that it fails.

use crate::json::{json_view, member, open, take_member, JsonView, Node};
use crate::request::{Float, Id, IdView, Parameters, ParametersView, Request, RequestView};
use crate::server::Server;
use rustc_serialize::json::Json;
use vstd::prelude::*;

verus! {

/// The check that a value failed.
#[derive(Clone, Copy, Debug, PartialEq, Eq, Structural)]
pub enum ValidationError {
    /// The value is no JSON object.
    NotAnObject,
    /// `jsonrpc` is missing or is not the string `"2.0"`.
    InvalidVersion,
    /// `method` is missing or is no string.
    InvalidMethod,
    /// `params` is missing or is neither an array nor an object.
    InvalidParams,
    /// `id` is there and is neither a string, a number nor `null`.
    InvalidId,
}

impl ValidationError {
    /// The sentence that tells a caller which check failed.
    pub open spec fn text(self) -> Seq<char> {
        match self {
            ValidationError::NotAnObject => "Not a JSON object"@,
            ValidationError::InvalidVersion => "Invalid version specified"@,
            ValidationError::InvalidMethod => "Invalid method specified"@,
            ValidationError::InvalidParams => "Invalid params specified"@,
            ValidationError::InvalidId => "Invalid id specified"@,
        }
    }

    /// The sentence that tells a caller which check failed.
    pub fn message(&self) -> (message: String)
        ensures
            message@ == self.text(),
    {
        match self {
            ValidationError::NotAnObject => "Not a JSON object".to_owned(),
            ValidationError::InvalidVersion => "Invalid version specified".to_owned(),
            ValidationError::InvalidMethod => "Invalid method specified".to_owned(),
            ValidationError::InvalidParams => "Invalid params specified".to_owned(),
            ValidationError::InvalidId => "Invalid id specified".to_owned(),
        }
    }
}

/// `jsonrpc` is there and is the string `"2.0"`.
pub open spec fn version_ok(v: JsonView) -> bool {
    member(v, "jsonrpc"@) matches Some(version) && json_view(version) == JsonView::String("2.0"@)
}

/// The method that a value names: `method`, where it is there and a string.
pub open spec fn method_of(v: JsonView) -> Option<Seq<char>> {
    match member(v, "method"@) {
        Some(method) => match json_view(method) {
            JsonView::String(name) => Some(name),
            _ => None,
        },
        None => None,
    }
}

/// The parameters that a value gives: `params`, where it is there and is an
/// array or an object.
pub open spec fn params_of(v: JsonView) -> Option<ParametersView> {
    match member(v, "params"@) {
        Some(params) => match json_view(params) {
            JsonView::Array(values) => Some(ParametersView::Positional(values)),
            JsonView::Object(members) => Some(ParametersView::Named(members)),
            _ => None,
        },
        None => None,
    }
}

/// The identifier that a value gives, or `None` where `id` is of a kind that
/// no identifier has. A missing `id` and `null` both give no identifier.
pub open spec fn id_of(v: JsonView) -> Option<Option<IdView>> {
    match member(v, "id"@) {
        Some(id) => match json_view(id) {
            JsonView::Null => Some(None),
            JsonView::String(s) => Some(Some(IdView::String(s))),
            JsonView::I64(n) => Some(Some(IdView::I64(n))),
            JsonView::U64(n) => Some(Some(IdView::U64(n))),
            JsonView::F64 => Some(Some(IdView::F64(id))),
            _ => None,
        },
        None => Some(None),
    }
}

/// The outcome of validation: the checks are made in the order envelope,
/// version, method, parameters, identifier, and the first that fails decides.
pub open spec fn validation(v: JsonView) -> Result<RequestView, ValidationError> {
    if !(v is Object) {
        Err(ValidationError::NotAnObject)
    } else if !version_ok(v) {
        Err(ValidationError::InvalidVersion)
    } else if method_of(v) is None {
        Err(ValidationError::InvalidMethod)
    } else if params_of(v) is None {
        Err(ValidationError::InvalidParams)
    } else if id_of(v) is None {
        Err(ValidationError::InvalidId)
    } else {
        Ok(
            RequestView {
                id: id_of(v).unwrap(),
                method: method_of(v).unwrap(),
                params: params_of(v).unwrap(),
            },
        )
    }
}

/// The names of a request's members differ from one another.
pub proof fn lemma_request_names()
    ensures
        "jsonrpc"@ != "method"@,
        "jsonrpc"@ != "params"@,
        "jsonrpc"@ != "id"@,
        "method"@ != "params"@,
        "method"@ != "id"@,
        "params"@ != "id"@,
{
    reveal_strlit("jsonrpc");
    reveal_strlit("method");
    reveal_strlit("params");
    reveal_strlit("id");
    assert("jsonrpc"@.len() == 7);
    assert("method"@.len() == 6);
    assert("params"@.len() == 6);
    assert("id"@.len() == 2);
    assert("method"@[0] == 'm');
    assert("params"@[0] == 'p');
}

impl Server {
    /// Validates one call.
    ///
    /// Returns the request that the value describes, or the first check that
    /// the value fails. A request without `params` is rejected.
    pub fn parse_json_request(&self, req: Json) -> (outcome: Result<Request, ValidationError>)
        ensures
            match outcome {
                Ok(request) => validation(json_view(req)) == Ok::<RequestView, ValidationError>(
                    request@,
                ) && request.wf(),
                Err(error) => validation(json_view(req)) == Err::<RequestView, ValidationError>(
                    error,
                ),
            },
    {
        let mut entries = match open(req) {
            Node::Object(entries) => entries,
            _ => { return Err(ValidationError::NotAnObject); },
        };
        proof {
            lemma_request_names();
        }

        let version = take_member(&mut entries, "jsonrpc");
        let version_ok = match version {
            Some(version) => match open(version) {
                Node::String(text) => text == "2.0".to_owned(),
                _ => false,
            },
            None => false,
        };
        if !version_ok {
            return Err(ValidationError::InvalidVersion);
        }

        let method = match take_member(&mut entries, "method") {
            Some(method) => match open(method) {
                Node::String(name) => name,
                _ => { return Err(ValidationError::InvalidMethod); },
            },
            None => { return Err(ValidationError::InvalidMethod); },
        };

        let params = match take_member(&mut entries, "params") {
            Some(params) => match open(params) {
                Node::Array(values) => Parameters::Positional(values),
                Node::Object(named) => Parameters::Named(named),
                _ => { return Err(ValidationError::InvalidParams); },
            },
            None => { return Err(ValidationError::InvalidParams); },
        };

        let id = match take_member(&mut entries, "id") {
            Some(id) => match open(id) {
                Node::Null => None,
                Node::String(text) => Some(Id::String(text)),
                Node::I64(n) => Some(Id::I64(n)),
                Node::U64(n) => Some(Id::U64(n)),
                Node::F64(number) => Some(Id::F64(Float::of(number))),
                _ => { return Err(ValidationError::InvalidId); },
            },
            None => None,
        };
        Ok(Request::new(id, method, params))
    }
}

} // verus!
