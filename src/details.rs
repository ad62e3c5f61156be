//! Problem details envelopes and their rendering into responses.
//!
//! See [RFC 9457](https://www.rfc-editor.org/rfc/rfc9457.html) for the format.
use vstd::prelude::*;
use vstd::string::StringSliceAdditionalSpecFns;

use crate::json::{json_text, members_model, value_model, write_value, Json, JsonValue};
use crate::status::{resolve_status, status_line, INTERNAL_SERVER_ERROR};

verus! {

/// The name of the header that carries the media type of the body.
pub const CONTENT_TYPE: &'static str = "content-type";

/// The media type of every problem response.
pub const APPLICATION_PROBLEM_JSON: &'static str = "application/problem+json";

/// The body sent when a problem cannot be encoded.
pub const INTERNAL_SERVER_ERROR_PROBLEM: &'static str = "{
    \"type\": \"internal_server_error\",
    \"title\": \"Internal Server Error\",
    \"detail\": \"Something went wrong when processing your request. Please try again later.\",
    \"status\": 500
}";

/// The bytes of the body sent when a problem cannot be encoded.
pub open spec fn fallback_body() -> Seq<u8> {
    INTERNAL_SERVER_ERROR_PROBLEM.spec_bytes()
}

/// Members that an extension adds to the top level of a problem document.
pub trait ProblemExtension {
    /// The members, in the order they are written.
    spec fn members(&self) -> Seq<(Seq<char>, Json)>;

    /// Builds the members, ready to be encoded.
    fn to_members(&self) -> (r: Vec<(String, JsonValue)>)
        ensures
            members_model(r@) == self.members(),
    ;
}

/// The empty extension: a problem with only the four standard members.
impl ProblemExtension for () {
    open spec fn members(&self) -> Seq<(Seq<char>, Json)> {
        Seq::empty()
    }

    fn to_members(&self) -> (r: Vec<(String, JsonValue)>) {
        Vec::new()
    }
}

/// A problem details envelope: the four standard members and an optional extension
/// whose members are written at the same level.
pub struct ProblemDetails<Extension> {
    /// A stable, machine-readable identifier of the kind of problem.
    pub type_: String,
    /// The HTTP status code, repeated in the body.
    pub status: u16,
    /// A short summary of the kind of problem.
    pub title: String,
    /// An explanation of the problem.
    pub detail: String,
    /// Further members; none are written when absent.
    pub extensions: Option<Extension>,
}

/// The four standard members of a problem, in the order they are written.
pub open spec fn standard_members<E>(p: ProblemDetails<E>) -> Seq<(Seq<char>, Json)> {
    seq![
        ("type"@, Json::Str(p.type_@)),
        ("status"@, Json::Number(p.status as nat)),
        ("title"@, Json::Str(p.title@)),
        ("detail"@, Json::Str(p.detail@)),
    ]
}

/// The members that the extension of `p` adds, if it has one.
pub open spec fn extension_members<E: ProblemExtension>(p: ProblemDetails<E>) -> Seq<
    (Seq<char>, Json),
> {
    match p.extensions {
        Some(e) => e.members(),
        None => Seq::empty(),
    }
}

/// The JSON document that a problem is sent as.
pub open spec fn problem_document<E: ProblemExtension>(p: ProblemDetails<E>) -> Json {
    Json::Object(standard_members(p) + extension_members(p))
}

/// The keys of the members of an object, in order; empty for any other document.
pub open spec fn object_keys(j: Json) -> Seq<Seq<char>> {
    match j {
        Json::Object(members) => members.map_values(|m: (Seq<char>, Json)| m.0),
        _ => Seq::empty(),
    }
}

/// The members of an object; empty for any other document.
pub open spec fn object_members(j: Json) -> Seq<(Seq<char>, Json)> {
    match j {
        Json::Object(members) => members,
        _ => Seq::empty(),
    }
}

/// Encoding a problem failed; nothing of the partial output is meaningful. The encoder of
/// this crate does not fail: this is how an encoder of a caller's own reports its failure
/// to the renderer, which then sends the fallback body.
pub struct EncodeError {}

/// An HTTP response carrying a problem.
pub struct ProblemResponse {
    /// The status line.
    pub status: u16,
    /// The headers, as name and value.
    pub headers: Vec<(String, String)>,
    /// The body.
    pub body: Vec<u8>,
}

/// Whether the only header of `r` is the content type `application/problem+json`.
pub open spec fn has_problem_content_type(r: ProblemResponse) -> bool {
    &&& r.headers@.len() == 1
    &&& r.headers@[0].0@ == CONTENT_TYPE@
    &&& r.headers@[0].1@ == APPLICATION_PROBLEM_JSON@
}

proof fn lemma_members_model_concat(a: Seq<(String, JsonValue)>, b: Seq<(String, JsonValue)>)
    ensures
        members_model(a + b) == members_model(a) + members_model(b),
    decreases b.len(),
{
    if b.len() == 0 {
        assert(a + b =~= a);
        assert(members_model(a) + members_model(b) =~= members_model(a));
    } else {
        let b0 = b.subrange(0, b.len() - 1);
        lemma_members_model_concat(a, b0);
        assert((a + b).subrange(0, (a + b).len() - 1) =~= a + b0);
        assert((a + b).last() == b.last());
        assert(members_model(a + b) =~= members_model(a) + members_model(b));
    }
}

impl ProblemResponse {
    /// Builds the response for a problem whose body field `status` is `status` and whose
    /// encoding came out as `encoded`: the encoded body under the resolved status line,
    /// or, when encoding failed, the fixed internal-server-error body with status 500.
    pub fn from_encoded(status: u16, encoded: Result<Vec<u8>, EncodeError>) -> (r:
        ProblemResponse)
        ensures
            has_problem_content_type(r),
            encoded matches Ok(b) ==> r.status == status_line(status) && r.body@ == b@,
            encoded is Err ==> r.status == INTERNAL_SERVER_ERROR && r.body@ == fallback_body(),
    {
        let mut headers: Vec<(String, String)> = Vec::new();
        headers.push((CONTENT_TYPE.to_owned(), APPLICATION_PROBLEM_JSON.to_owned()));
        match encoded {
            Ok(body) => ProblemResponse { status: resolve_status(status), headers, body },
            Err(_) => ProblemResponse {
                status: INTERNAL_SERVER_ERROR,
                headers,
                body: vstd::slice::slice_to_vec(INTERNAL_SERVER_ERROR_PROBLEM.as_bytes()),
            },
        }
    }

    /// The status line.
    pub fn status(&self) -> (r: u16)
        ensures
            r == self.status,
    {
        self.status
    }
}

impl<Extension: ProblemExtension> ProblemDetails<Extension> {
    /// Builds the document this problem is sent as.
    pub fn to_document(&self) -> (r: JsonValue)
        ensures
            value_model(r) == problem_document(*self),
    {
        let mut members: Vec<(String, JsonValue)> = Vec::new();
        members.push(("type".to_owned(), JsonValue::Str(self.type_.clone())));
        members.push(("status".to_owned(), JsonValue::Number(self.status as u64)));
        members.push(("title".to_owned(), JsonValue::Str(self.title.clone())));
        members.push(("detail".to_owned(), JsonValue::Str(self.detail.clone())));
        let ghost standard = members@;
        proof {
            reveal_with_fuel(members_model, 5);
            assert(members_model(standard) =~= standard_members(*self));
        }
        match &self.extensions {
            Some(e) => {
                let mut more = e.to_members();
                let ghost extra = more@;
                members.append(&mut more);
                proof {
                    lemma_members_model_concat(standard, extra);
                }
            },
            None => {
                assert(members@ + Seq::empty() =~= members@);
                assert(standard_members(*self) + Seq::empty() =~= standard_members(*self));
            },
        }
        JsonValue::Object(members)
    }

    /// Encodes this problem as a compact JSON object: `type`, `status`, `title`, `detail`,
    /// then the members of the extension.
    pub fn encode(&self) -> (r: Vec<u8>)
        ensures
            r@ == json_text(problem_document(*self)),
    {
        let document = self.to_document();
        let mut out: Vec<u8> = Vec::with_capacity(128);
        write_value(&document, &mut out);
        out
    }

    /// Renders this problem as a response with content type `application/problem+json`:
    /// its encoding under the resolved status line. Encoding cannot fail here, so the
    /// fallback of `ProblemResponse::from_encoded` is never taken.
    pub fn into_response(self) -> (r: ProblemResponse)
        ensures
            has_problem_content_type(r),
            r.status == status_line(self.status),
            r.body@ == json_text(problem_document(self)),
    {
        let encoded = self.encode();
        ProblemResponse::from_encoded(self.status, Ok(encoded))
    }
}

/// Without an extension, a problem document has exactly the four standard keys `type`,
/// `status`, `title` and `detail`, in that order, and no others.
pub proof fn lemma_no_extension_standard_keys<E: ProblemExtension>(p: ProblemDetails<E>)
    requires
        p.extensions is None,
    ensures
        object_keys(problem_document(p)) == seq!["type"@, "status"@, "title"@, "detail"@],
{
    assert(standard_members(p) + extension_members(p) =~= standard_members(p));
    assert(object_keys(problem_document(p)) =~= seq!["type"@, "status"@, "title"@, "detail"@]);
}

/// With an extension, every member of the extension stands, key and value, at the top
/// level of the problem document, after the four standard members.
pub proof fn lemma_extension_members_flattened<E: ProblemExtension>(p: ProblemDetails<E>)
    requires
        p.extensions is Some,
    ensures
        object_keys(problem_document(p)).subrange(0, 4) == seq![
            "type"@,
            "status"@,
            "title"@,
            "detail"@,
        ],
        forall|i: int|
            0 <= i < p.extensions->Some_0.members().len() ==> object_members(
                problem_document(p),
            ).contains(#[trigger] p.extensions->Some_0.members()[i]),
{
    let all = standard_members(p) + extension_members(p);
    assert(object_keys(problem_document(p)).subrange(0, 4) =~= seq![
        "type"@,
        "status"@,
        "title"@,
        "detail"@,
    ]);
    assert forall|i: int| 0 <= i < p.extensions->Some_0.members().len() implies object_members(
        problem_document(p),
    ).contains(#[trigger] p.extensions->Some_0.members()[i]) by {
        assert(all[4 + i] == p.extensions->Some_0.members()[i]);
    }
}

} // verus!
