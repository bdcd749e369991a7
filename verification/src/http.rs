//! HTTP requests and replies as the library sees them, and the transform that
//! makes replies agree across replicas.
use vstd::prelude::*;

verus! {

/// An HTTP header.
pub struct HttpHeader {
    pub name: String,
    pub value: String,
}

/// An HTTP `POST` request to send, without a transform.
pub struct HttpPost {
    pub url: String,
    pub body: String,
    pub max_response_bytes: u64,
    pub headers: Vec<HttpHeader>,
    pub cycles: u128,
}

/// What became of an HTTP request.
pub enum HttpOutcome {
    /// The call itself failed.
    Failed,
    /// A reply came: its status (nothing when it does not fit in 64 bits)
    /// and its body.
    Reply { status: Option<u64>, body: Vec<u8> },
}

/// `candid::Nat`, the status of a reply, carried as it is.
#[verifier::external_type_specification]
#[verifier::external_body]
pub struct ExNat(candid::Nat);

/// An HTTP reply as the replicas receive it.
pub struct HttpResponse {
    pub status: candid::Nat,
    pub headers: Vec<HttpHeader>,
    pub body: Vec<u8>,
}

/// What the transform of a reply receives.
pub struct TransformArgs {
    pub response: HttpResponse,
    pub context: Vec<u8>,
}

/// A reply, as values.
pub struct ResponseView {
    pub status: candid::Nat,
    pub headers: Seq<(Seq<char>, Seq<char>)>,
    pub body: Seq<u8>,
}

pub open spec fn response_view(r: HttpResponse) -> ResponseView {
    ResponseView {
        status: r.status,
        headers: r.headers@.map_values(|h: HttpHeader| (h.name@, h.value@)),
        body: r.body@,
    }
}

/// A reply with its headers dropped.
pub open spec fn without_headers(r: ResponseView) -> ResponseView {
    ResponseView { status: r.status, headers: Seq::empty(), body: r.body }
}

/// Keeps the status and body of a reply and drops its headers, so that
/// replies that differ only in their headers become equal.
pub fn transform_response(raw: TransformArgs) -> (res: HttpResponse)
    ensures
        response_view(res) == without_headers(response_view(raw.response)),
{
    let res = HttpResponse {
        status: raw.response.status,
        headers: Vec::new(),
        body: raw.response.body,
    };
    assert(response_view(res).headers =~= Seq::<(Seq<char>, Seq<char>)>::empty());
    res
}

/// Replies that differ only in their headers transform alike, and a
/// transformed reply is left as it is by a second transform.
pub proof fn lemma_transform_agrees(a: ResponseView, b: ResponseView)
    ensures
        a.status == b.status && a.body == b.body ==> without_headers(a) == without_headers(b),
        without_headers(without_headers(a)) == without_headers(a),
{
}

} // verus!
