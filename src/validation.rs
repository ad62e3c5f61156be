//! Request validation failures and the canonical "invalid request" problem.
use vstd::prelude::*;

use crate::details::{
    has_problem_content_type, object_members, problem_document, ProblemDetails, ProblemExtension,
    ProblemResponse,
};
use crate::json::{items_model, json_text, members_model, value_model, Json, JsonValue};

verus! {

/// The request part where a problem occurred.
pub enum Source {
    /// The body; `pointer` is a [JSON pointer](https://www.rfc-editor.org/info/rfc6901)
    /// to the problematic property, or `None` where no property can be singled out.
    Body { pointer: Option<String> },
    /// The header with this name.
    Header { name: String },
}

/// One problem found in a request.
pub struct ValidationError {
    /// What is wrong, for a human reader.
    pub detail: String,
    /// Where it is wrong.
    pub source: Source,
}

/// The problems found in a request, in the order they were found.
pub struct ValidationErrors {
    pub errors: Vec<ValidationError>,
}

/// The members that describe where a problem occurred: the tag `source`, then the
/// location.
pub open spec fn source_members(s: Source) -> Seq<(Seq<char>, Json)> {
    match s {
        Source::Body { pointer } => seq![
            ("source"@, Json::Str("body"@)),
            (
                "pointer"@,
                match pointer {
                    Some(p) => Json::Str(p@),
                    None => Json::Null,
                },
            ),
        ],
        Source::Header { name } => seq![
            ("source"@, Json::Str("header"@)),
            ("name"@, Json::Str(name@)),
        ],
    }
}

/// The document for one problem: its `detail`, then where it occurred.
pub open spec fn error_document(e: ValidationError) -> Json {
    Json::Object(seq![("detail"@, Json::Str(e.detail@))] + source_members(e.source))
}

/// The documents for a sequence of problems, in order.
pub open spec fn errors_documents(s: Seq<ValidationError>) -> Seq<Json> {
    s.map_values(|e: ValidationError| error_document(e))
}

proof fn lemma_items_model_push(s: Seq<JsonValue>, x: JsonValue)
    ensures
        items_model(s.push(x)) == items_model(s).push(value_model(x)),
{
    assert(s.push(x).subrange(0, s.len() as int) =~= s);
}

impl Source {
    /// Builds the members that describe this location.
    pub fn to_members(&self) -> (r: Vec<(String, JsonValue)>)
        ensures
            members_model(r@) == source_members(*self),
    {
        let mut members: Vec<(String, JsonValue)> = Vec::new();
        match self {
            Source::Body { pointer } => {
                members.push(("source".to_owned(), JsonValue::Str("body".to_owned())));
                let location = match pointer {
                    Some(p) => JsonValue::Str(p.clone()),
                    None => JsonValue::Null,
                };
                members.push(("pointer".to_owned(), location));
            },
            Source::Header { name } => {
                members.push(("source".to_owned(), JsonValue::Str("header".to_owned())));
                members.push(("name".to_owned(), JsonValue::Str(name.clone())));
            },
        }
        proof {
            reveal_with_fuel(members_model, 3);
            assert(members_model(members@) =~= source_members(*self));
        }
        members
    }
}

impl ValidationError {
    /// Builds the document for this problem.
    pub fn to_document(&self) -> (r: JsonValue)
        ensures
            value_model(r) == error_document(*self),
    {
        let mut members: Vec<(String, JsonValue)> = Vec::new();
        members.push(("detail".to_owned(), JsonValue::Str(self.detail.clone())));
        let mut location = self.source.to_members();
        let ghost first = members@;
        let ghost rest = location@;
        members.append(&mut location);
        proof {
            reveal_with_fuel(members_model, 4);
            let s = source_members(self.source);
            assert(first.subrange(0, 0) =~= Seq::<(String, JsonValue)>::empty());
            assert(members@.subrange(0, 1) =~= first);
            assert(members@.subrange(0, 2).subrange(0, 1) =~= first);
            assert(members@.subrange(0, 3).subrange(0, 2) =~= members@.subrange(0, 2));
            assert(members@ =~= members@.subrange(0, 3));
            assert(members@[1] == rest[0]);
            assert(members@[2] == rest[1]);
            assert(rest.subrange(0, 1).subrange(0, 0) =~= Seq::<(String, JsonValue)>::empty());
            assert(rest =~= rest.subrange(0, 2));
            assert(members_model(members@) =~= seq![("detail"@, Json::Str(self.detail@))] + s);
        }
        JsonValue::Object(members)
    }
}

impl ProblemExtension for ValidationErrors {
    /// A single member, `errors`: the array of the problems' documents.
    open spec fn members(&self) -> Seq<(Seq<char>, Json)> {
        seq![("errors"@, Json::Array(errors_documents(self.errors@)))]
    }

    fn to_members(&self) -> (r: Vec<(String, JsonValue)>) {
        let mut items: Vec<JsonValue> = Vec::new();
        let mut i: usize = 0;
        while i < self.errors.len()
            invariant
                i <= self.errors.len(),
                items_model(items@) =~= errors_documents(self.errors@.subrange(0, i as int)),
            decreases self.errors.len() - i,
        {
            let item = self.errors[i].to_document();
            proof {
                lemma_items_model_push(items@, item);
            }
            items.push(item);
            assert(self.errors@.subrange(0, i as int + 1) =~= self.errors@.subrange(
                0,
                i as int,
            ).push(self.errors@[i as int]));
            i = i + 1;
        }
        assert(self.errors@.subrange(0, self.errors@.len() as int) =~= self.errors@);
        let mut members: Vec<(String, JsonValue)> = Vec::new();
        members.push(("errors".to_owned(), JsonValue::Array(items)));
        proof {
            reveal_with_fuel(members_model, 2);
            assert(members@.subrange(0, 0) =~= Seq::<(String, JsonValue)>::empty());
            assert(members_model(members@) =~= self.members());
        }
        members
    }
}

/// The status of every invalid request problem.
pub const BAD_REQUEST: u16 = 400;

/// The canonical problem for a request that is malformed or does not match the expected
/// schema: type `invalid_request`, status 400, a fixed title and detail, and the
/// problems found as its extension.
pub struct InvalidRequest(ProblemDetails<ValidationErrors>);

/// Whether `p` has the fixed type, status, title and detail of an invalid request, and
/// an extension.
pub open spec fn is_invalid_request(p: ProblemDetails<ValidationErrors>) -> bool {
    &&& p.type_@ == "invalid_request"@
    &&& p.status == BAD_REQUEST
    &&& p.title@ == "The request is invalid"@
    &&& p.detail@ == "The request is either malformed or doesn't match the expected schema"@
    &&& p.extensions is Some
}

impl InvalidRequest {
    /// The problem this value holds.
    pub closed spec fn problem(&self) -> ProblemDetails<ValidationErrors> {
        self.0
    }

    #[verifier::type_invariant]
    spec fn canonical(&self) -> bool {
        is_invalid_request(self.0)
    }

    /// The invalid request problem for `errors`.
    pub fn new(errors: ValidationErrors) -> (r: Self)
        ensures
            is_invalid_request(r.problem()),
            r.problem().extensions == Some(errors),
    {
        InvalidRequest(
            ProblemDetails {
                type_: "invalid_request".to_owned(),
                status: Self::status(),
                title: "The request is invalid".to_owned(),
                extensions: Some(errors),
                detail: "The request is either malformed or doesn't match the expected schema".to_owned(),
            },
        )
    }

    /// The status of every invalid request problem: 400.
    pub fn status() -> (r: u16)
        ensures
            r == BAD_REQUEST,
    {
        BAD_REQUEST
    }

    /// The problem this value holds.
    pub fn into_inner(self) -> (r: ProblemDetails<ValidationErrors>)
        ensures
            r == self.problem(),
            is_invalid_request(r),
    {
        proof {
            use_type_invariant(&self);
        }
        self.0
    }

    /// Renders the problem this value holds, as `ProblemDetails::into_response` does.
    pub fn into_response(self) -> (r: ProblemResponse)
        ensures
            has_problem_content_type(r),
            r.status == BAD_REQUEST,
            r.body@ == json_text(problem_document(self.problem())),
    {
        self.into_inner().into_response()
    }
}

/// The document of an invalid request problem: `type`, `status` 400, the fixed `title`
/// and `detail`, then `errors` holding the document of each problem, in order.
pub proof fn lemma_invalid_request_document(p: ProblemDetails<ValidationErrors>)
    requires
        is_invalid_request(p),
    ensures
        object_members(problem_document(p)) == seq![
            ("type"@, Json::Str("invalid_request"@)),
            ("status"@, Json::Number(400)),
            ("title"@, Json::Str("The request is invalid"@)),
            (
                "detail"@,
                Json::Str("The request is either malformed or doesn't match the expected schema"@),
            ),
            ("errors"@, Json::Array(errors_documents(p.extensions->Some_0.errors@))),
        ],
{
    assert(object_members(problem_document(p)) =~= seq![
        ("type"@, Json::Str("invalid_request"@)),
        ("status"@, Json::Number(400)),
        ("title"@, Json::Str("The request is invalid"@)),
        (
            "detail"@,
            Json::Str("The request is either malformed or doesn't match the expected schema"@),
        ),
        ("errors"@, Json::Array(errors_documents(p.extensions->Some_0.errors@))),
    ]);
}

} // verus!
