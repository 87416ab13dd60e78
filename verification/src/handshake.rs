//! The handshake responder: validation of the upgrade request's header
//! mapping, derivation of the accept token from the client's key, and the
//! two HTTP responses the server can write back. Tokenizing raw request
//! lines into the header mapping is the connection layer's job.

use sha1::Digest;
use vstd::prelude::*;
use vstd::string::{StrSliceExecFns, StringExecFns, StringSliceAdditionalSpecFns};
use vstd::utf8::encode_utf8;

verus! {

/// Handshake failure: the request line does not have its three tokens, or
/// a required header is missing.
#[derive(Clone, Copy, Debug, PartialEq, Eq, Structural)]
pub enum HandshakeError {
    MalformedHandshake,
}

/// The value of the last header with the given name, if any. A repeated
/// name keeps its last value, as insertion into a map would leave it.
pub open spec fn spec_lookup(hs: Seq<(String, String)>, name: Seq<char>) -> Option<Seq<char>>
    decreases hs.len(),
{
    if hs.len() == 0 {
        None
    } else if hs.last().0@ == name {
        Some(hs.last().1@)
    } else {
        spec_lookup(hs.drop_last(), name)
    }
}

/// The five headers an upgrade request must carry.
pub open spec fn spec_required_present(hs: Seq<(String, String)>) -> bool {
    &&& spec_lookup(hs, "Host"@) is Some
    &&& spec_lookup(hs, "Upgrade"@) is Some
    &&& spec_lookup(hs, "Connection"@) is Some
    &&& spec_lookup(hs, "Sec-WebSocket-Key"@) is Some
    &&& spec_lookup(hs, "Sec-WebSocket-Version"@) is Some
}

/// The protocol's fixed GUID, appended to the client's key before the
/// digest that yields the accept token.
pub open spec fn websocket_guid() -> Seq<char> {
    "258EAFA5-E914-47DA-95CA-C5AB0DC85B11"@
}

/// The accept token a handshake with the given client key must answer.
pub open spec fn spec_accept_token(client_key: Seq<char>) -> Seq<char> {
    base64_of(sha1_of(client_key + websocket_guid()))
}

/// Text of the success response: the 101 status line, the upgrade
/// headers, the accept token, and the fixed `chat` subprotocol.
pub open spec fn switching_protocols_text(token: Seq<char>) -> Seq<char> {
    "HTTP/1.1 101 Switching Protocols\r\nUpgrade: websocket\r\nConnection: Upgrade\r\nSec-WebSocket-Accept: "@
        + token + "\r\nSec-WebSocket-Protocol: chat\r\n\r\n"@
}

/// Text of the rejection response: the 400 status line and no body.
pub open spec fn bad_request_text() -> Seq<char> {
    "HTTP/1.1 400 Bad Request\r\n\r\n"@
}

/// An upgrade request as the connection layer hands it over: the three
/// request-line tokens and the header mapping, names exactly as received.
pub struct HttpRequest {
    pub method: String,
    pub path: String,
    pub version: String,
    pub headers: Vec<(String, String)>,
}

/// Named by `sha1_of`: the SHA-1 digest of a string's bytes.
pub uninterp spec fn sha1_of(s: Seq<char>) -> Seq<u8>;

/// Relies on sha1::Sha1 through its Digest impl: the 20-byte SHA-1 digest
/// of the input's bytes, a function of the input alone.
#[verifier::external_body]
fn sha1_digest(input: &str) -> (r: Vec<u8>)
    ensures
        r@ == sha1_of(input@),
        r@.len() == 20,
{
    sha1::Sha1::digest(input.as_bytes()).to_vec()
}

/// Named by `base64_of`: base64 of a byte sequence, standard alphabet,
/// padded.
pub uninterp spec fn base64_of(b: Seq<u8>) -> Seq<char>;

/// Relies on base64's general_purpose::STANDARD engine: standard-alphabet
/// padded base64 of the input bytes, a function of the input alone. The
/// engine panics when the encoded size overflows `usize`, so inputs near
/// that size are excluded.
#[verifier::external_body]
fn base64_encode(b: &Vec<u8>) -> (r: String)
    requires
        b@.len() <= usize::MAX / 4,
    ensures
        r@ == base64_of(b@),
{
    base64::Engine::encode(&base64::engine::general_purpose::STANDARD, b.as_slice())
}

/// Derive the accept token: append the protocol GUID to the client's key,
/// take the SHA-1 digest, and base64 it.
pub fn compute_accept_token(client_key: &str) -> (r: String)
    ensures
        r@ == spec_accept_token(client_key@),
{
    let mut keyed: String = String::from_str(client_key);
    keyed.append("258EAFA5-E914-47DA-95CA-C5AB0DC85B11");
    let digest = sha1_digest(keyed.as_str());
    base64_encode(&digest)
}

/// Look up a header by name; the last occurrence wins.
fn lookup_header(headers: &Vec<(String, String)>, name: &str) -> (r: Option<String>)
    ensures
        r is Some <==> spec_lookup(headers@, name@) is Some,
        r matches Some(v) ==> spec_lookup(headers@, name@) == Some(v@),
{
    let name_s = String::from_str(name);
    let mut found: Option<String> = None;
    let mut i: usize = 0;
    while i < headers.len()
        invariant
            i <= headers@.len(),
            name_s@ == name@,
            found is Some <==> spec_lookup(headers@.take(i as int), name@) is Some,
            found matches Some(v) ==> spec_lookup(headers@.take(i as int), name@) == Some(v@),
        decreases headers@.len() - i,
    {
        let h = &headers[i];
        proof {
            let pre = headers@.take(i as int + 1);
            assert(pre.last() == headers@[i as int]);
            assert(pre.drop_last() =~= headers@.take(i as int));
        }
        if h.0 == name_s {
            found = Some(h.1.clone());
        }
        i += 1;
    }
    proof {
        assert(headers@.take(headers@.len() as int) =~= headers@);
    }
    found
}

/// Check that all five required headers are present.
fn has_required_headers(headers: &Vec<(String, String)>) -> (r: bool)
    ensures
        r == spec_required_present(headers@),
{
    let host = lookup_header(headers, "Host");
    let upgrade = lookup_header(headers, "Upgrade");
    let connection = lookup_header(headers, "Connection");
    let key = lookup_header(headers, "Sec-WebSocket-Key");
    let version = lookup_header(headers, "Sec-WebSocket-Version");
    host.is_some() && upgrade.is_some() && connection.is_some() && key.is_some()
        && version.is_some()
}

impl HttpRequest {
    /// Assemble a request from the request-line tokens and the header
    /// mapping. Fails with `MalformedHandshake` unless the request line
    /// has exactly its three tokens (method, path, version) and every
    /// required header is present.
    pub fn build(request_line: Vec<String>, headers: Vec<(String, String)>) -> (r: Result<
        HttpRequest,
        HandshakeError,
    >)
        ensures
            r is Ok <==> request_line@.len() == 3 && spec_required_present(headers@),
            r matches Ok(req) ==> {
                &&& req.method@ == request_line@[0]@
                &&& req.path@ == request_line@[1]@
                &&& req.version@ == request_line@[2]@
                &&& req.headers@ == headers@
            },
            r matches Err(e) ==> e == HandshakeError::MalformedHandshake,
    {
        if request_line.len() != 3 {
            return Err(HandshakeError::MalformedHandshake);
        }
        if !has_required_headers(&headers) {
            return Err(HandshakeError::MalformedHandshake);
        }
        let method = request_line[0].clone();
        let path = request_line[1].clone();
        let version = request_line[2].clone();
        Ok(HttpRequest { method, path, version, headers })
    }

    /// The value of the named header, the last occurrence winning.
    pub fn header_value(&self, name: &str) -> (r: Option<String>)
        ensures
            r is Some <==> spec_lookup(self.headers@, name@) is Some,
            r matches Some(v) ==> spec_lookup(self.headers@, name@) == Some(v@),
    {
        lookup_header(&self.headers, name)
    }
}

/// The 101 response carrying the accept token, as bytes for the caller to
/// write to its transport.
pub fn format_switching_protocols_response(token: &str) -> (r: Vec<u8>)
    ensures
        r@ == encode_utf8(switching_protocols_text(token@)),
{
    let mut s: String = String::from_str(
        "HTTP/1.1 101 Switching Protocols\r\nUpgrade: websocket\r\nConnection: Upgrade\r\nSec-WebSocket-Accept: ",
    );
    s.append(token);
    s.append("\r\nSec-WebSocket-Protocol: chat\r\n\r\n");
    s.as_str().as_bytes_vec()
}

/// The 400 response with no body, as bytes for the caller to write.
pub fn format_bad_request_response() -> (r: Vec<u8>)
    ensures
        r@ == encode_utf8(bad_request_text()),
{
    let s: String = String::from_str("HTTP/1.1 400 Bad Request\r\n\r\n");
    s.as_str().as_bytes_vec()
}

/// The whole handshake decision: the 101 response with the accept token
/// derived from the Sec-WebSocket-Key value when the request line has its
/// three tokens and every required header is present; the 400 response
/// otherwise. No accept token is derived on the failing path.
pub fn handshake_response(request_line: Vec<String>, headers: Vec<(String, String)>) -> (r: Vec<
    u8,
>)
    ensures
        request_line@.len() == 3 && spec_required_present(headers@) ==> r@ == encode_utf8(
            switching_protocols_text(
                spec_accept_token(spec_lookup(headers@, "Sec-WebSocket-Key"@)->0),
            ),
        ),
        !(request_line@.len() == 3 && spec_required_present(headers@)) ==> r@ == encode_utf8(
            bad_request_text(),
        ),
{
    match HttpRequest::build(request_line, headers) {
        Ok(req) => {
            match req.header_value("Sec-WebSocket-Key") {
                Some(k) => {
                    let token = compute_accept_token(k.as_str());
                    format_switching_protocols_response(token.as_str())
                },
                None => vstd::pervasive::unreached(),
            }
        },
        Err(_) => format_bad_request_response(),
    }
}

} // verus!
