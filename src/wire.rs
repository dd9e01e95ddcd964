use vstd::prelude::*;

verus! {

/// A header as it crosses the parts channel: its name and its raw value.
pub type Header = (String, Vec<u8>);

pub open spec fn header_views(h: Seq<Header>) -> Seq<(Seq<char>, Seq<u8>)> {
    h.map_values(|x: Header| (x.0@, x.1@))
}

/// The MessagePack encoding of request metadata: an array of method, URI,
/// version and the header list.
pub uninterp spec fn msgpack_request(
    method: Seq<char>,
    uri: Seq<char>,
    version: Seq<char>,
    headers: Seq<(Seq<char>, Seq<u8>)>,
) -> Seq<u8>;

/// The response metadata that MessagePack bytes stand for: an array of status
/// and header list, or nothing where the bytes hold no such array.
pub uninterp spec fn msgpack_response(b: Seq<u8>) -> Option<(u16, Seq<(Seq<char>, Seq<u8>)>)>;

#[verifier::external_type_specification]
#[verifier::external_body]
pub struct ExEncodeError(rmp_serde::encode::Error);

#[verifier::external_type_specification]
#[verifier::external_body]
pub struct ExDecodeError(rmp_serde::decode::Error);

/// Method, URI, version and headers of a request, in the order received.
pub struct RequestMeta {
    pub method: String,
    pub uri: String,
    pub version: String,
    pub headers: Vec<Header>,
}

/// Status and headers that a guest answered with.
pub struct ResponseMeta {
    pub status: u16,
    pub headers: Vec<Header>,
}

/// Response metadata that could not be read back from the parts channel.
#[derive(Clone, Copy, Debug, PartialEq, Eq, Structural)]
pub enum WireError {
    Decode,
}

/// Relies on rmp_serde::encode::write into a fresh `Vec<u8>`: the MessagePack
/// encoding of the four-element tuple, which depends on its values alone. It
/// succeeds: a `Vec<u8>` writer never fails, and for strings, byte vectors and
/// tuples the serializer reports no error but the writer's.
#[verifier::external_body]
fn msgpack_encode(meta: &RequestMeta) -> (r: Result<Vec<u8>, rmp_serde::encode::Error>)
    ensures
        r is Ok,
        r->Ok_0@ == msgpack_request(
            meta.method@,
            meta.uri@,
            meta.version@,
            header_views(meta.headers@),
        ),
{
    let mut out: Vec<u8> = Vec::new();
    rmp_serde::encode::write(&mut out, &(&meta.method, &meta.uri, &meta.version, &meta.headers))
        .map(|()| out)
}

/// Relies on rmp_serde::from_slice: decodes a status and header list, or fails,
/// as the bytes alone decide.
#[verifier::external_body]
fn msgpack_decode(b: &[u8]) -> (r: Result<(u16, Vec<Header>), rmp_serde::decode::Error>)
    ensures
        r is Ok <==> msgpack_response(b@) is Some,
        r is Ok ==> r->Ok_0.0 == msgpack_response(b@)->Some_0.0 && header_views(r->Ok_0.1@)
            == msgpack_response(b@)->Some_0.1,
{
    rmp_serde::from_slice::<(u16, Vec<Header>)>(b)
}

/// The bytes written to the parts channel for a request.
pub fn encode_request(meta: &RequestMeta) -> (r: Vec<u8>)
    ensures
        r@ == msgpack_request(meta.method@, meta.uri@, meta.version@, header_views(meta.headers@)),
{
    msgpack_encode(meta).unwrap()
}

/// The response metadata that a guest wrote to the parts channel.
pub fn decode_response(b: &Vec<u8>) -> (r: Result<ResponseMeta, WireError>)
    ensures
        match msgpack_response(b@) {
            Some((status, headers)) => r is Ok && r->Ok_0.status == status && header_views(
                r->Ok_0.headers@,
            ) == headers,
            None => r == Err::<ResponseMeta, _>(WireError::Decode),
        },
{
    match msgpack_decode(b.as_slice()) {
        Ok((status, headers)) => Ok(ResponseMeta { status, headers }),
        Err(_) => Err(WireError::Decode),
    }
}

} // verus!
