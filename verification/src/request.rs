//! Identifiers, parameters and validated requests.

use crate::json::{distinct_keys, json_view, members_of, JsonView};
use rustc_serialize::json::Json;
use vstd::prelude::*;

verus! {

/// A JSON float, held as the JSON value that it is: the engine only carries
/// it from a request to its response.
pub struct Float {
    number: Json,
}

impl Float {
    #[verifier::type_invariant]
    spec fn is_float(self) -> bool {
        json_view(self.number) is F64
    }

    /// The JSON value that this float is.
    pub closed spec fn json(self) -> Json {
        self.number
    }

    /// The float that a JSON value is, or `None` where the value is no float.
    pub fn new(number: Json) -> (float: Option<Float>)
        ensures
            float is Some == (json_view(number) is F64),
            float matches Some(float) ==> float.json() == number,
    {
        match crate::json::open(number) {
            crate::json::Node::F64(number) => Some(Float { number }),
            _ => None,
        }
    }

    /// The float that a JSON float is.
    pub(crate) fn of(number: Json) -> (float: Float)
        requires
            json_view(number) is F64,
        ensures
            float.json() == number,
    {
        Float { number }
    }

    /// The JSON value of this float.
    pub fn to_json(&self) -> (j: Json)
        ensures
            j == self.json(),
            json_view(j) is F64,
    {
        proof {
            use_type_invariant(self);
        }
        self.number.clone()
    }

    /// A copy of this float.
    pub fn duplicate(&self) -> (copy: Float)
        ensures
            copy.json() == self.json(),
    {
        proof {
            use_type_invariant(self);
        }
        Float { number: self.number.clone() }
    }
}

/// The `id` member of a request or a response.
pub enum Id {
    String(String),
    I64(i64),
    U64(u64),
    F64(Float),
}

/// What an [`Id`] holds.
pub ghost enum IdView {
    String(Seq<char>),
    I64(i64),
    U64(u64),
    F64(Json),
}

impl View for Id {
    type V = IdView;

    open spec fn view(&self) -> IdView {
        match *self {
            Id::String(s) => IdView::String(s@),
            Id::I64(n) => IdView::I64(n),
            Id::U64(n) => IdView::U64(n),
            Id::F64(float) => IdView::F64(float.json()),
        }
    }
}

/// What an optional [`Id`] holds.
pub open spec fn id_view(id: Option<Id>) -> Option<IdView> {
    match id {
        Some(id) => Some(id@),
        None => None,
    }
}

impl IdView {
    /// `j` is the JSON projection of this identifier: a string, an integer
    /// or the float it holds.
    pub open spec fn projects_to(self, j: Json) -> bool {
        match self {
            IdView::String(s) => json_view(j) == JsonView::String(s),
            IdView::I64(n) => json_view(j) == JsonView::I64(n),
            IdView::U64(n) => json_view(j) == JsonView::U64(n),
            IdView::F64(number) => j == number,
        }
    }
}

/// `j` is the JSON projection of an optional identifier: `null` for none.
pub open spec fn id_projects_to(id: Option<IdView>, j: Json) -> bool {
    match id {
        Some(id) => id.projects_to(j),
        None => json_view(j) == JsonView::Null,
    }
}

impl Id {
    /// The identifier that is the given JSON float, or `None` where the value
    /// is no float.
    pub fn float(number: Json) -> (id: Option<Id>)
        ensures
            id is Some == (json_view(number) is F64),
            id matches Some(id) ==> id@ == IdView::F64(number),
    {
        match Float::new(number) {
            Some(float) => Some(Id::F64(float)),
            None => None,
        }
    }

    /// The JSON value of this identifier: a string, an integer or a float as
    /// the identifier is one.
    pub fn to_json(&self) -> (j: Json)
        ensures
            self@.projects_to(j),
            *self is F64 ==> json_view(j) is F64,
    {
        match self {
            Id::String(s) => crate::json::close(crate::json::Node::String(s.clone())),
            Id::I64(n) => crate::json::close(crate::json::Node::I64(*n)),
            Id::U64(n) => crate::json::close(crate::json::Node::U64(*n)),
            Id::F64(float) => float.to_json(),
        }
    }

    /// A copy of this identifier.
    pub fn duplicate(&self) -> (copy: Id)
        ensures
            copy@ == self@,
    {
        match self {
            Id::String(s) => Id::String(s.clone()),
            Id::I64(n) => Id::I64(*n),
            Id::U64(n) => Id::U64(*n),
            Id::F64(float) => Id::F64(float.duplicate()),
        }
    }
}

/// The JSON value of an optional identifier: `null` for none.
pub fn id_to_json(id: &Option<Id>) -> (j: Json)
    ensures
        id_projects_to(id_view(*id), j),
{
    match id {
        Some(id) => id.to_json(),
        None => crate::json::close(crate::json::Node::Null),
    }
}

/// The `params` member of a request.
pub enum Parameters {
    /// The values of a JSON array, in order.
    Positional(Vec<Json>),
    /// The members of a JSON object, one entry per name.
    Named(Vec<(String, Json)>),
}

/// What [`Parameters`] hold.
pub ghost enum ParametersView {
    Positional(Seq<Json>),
    Named(Map<Seq<char>, Json>),
}

impl View for Parameters {
    type V = ParametersView;

    open spec fn view(&self) -> ParametersView {
        match *self {
            Parameters::Positional(values) => ParametersView::Positional(values@),
            Parameters::Named(entries) => ParametersView::Named(members_of(entries@)),
        }
    }
}

impl Parameters {
    /// Named parameters hold each name once.
    pub open spec fn wf(&self) -> bool {
        *self matches Parameters::Named(entries) ==> distinct_keys(entries@)
    }
}

/// A call that passed validation.
pub struct Request {
    /// `None` for a notification.
    pub id: Option<Id>,
    pub method: String,
    pub params: Parameters,
}

/// What a [`Request`] holds.
pub ghost struct RequestView {
    pub id: Option<IdView>,
    pub method: Seq<char>,
    pub params: ParametersView,
}

impl View for Request {
    type V = RequestView;

    open spec fn view(&self) -> RequestView {
        RequestView { id: id_view(self.id), method: self.method@, params: self.params@ }
    }
}

impl Request {
    /// The parameters are well formed.
    pub open spec fn wf(&self) -> bool {
        self.params.wf()
    }

    pub fn new(id: Option<Id>, method: String, params: Parameters) -> (request: Request)
        ensures
            request == (Request { id, method, params }),
    {
        Request { id, method, params }
    }
}

} // verus!
