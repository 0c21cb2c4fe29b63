//! The opening handshake's answer: the accept key derived from the client's
//! key, and the response that carries it.

use crate::header::push_all;
use base64::Engine;
use sha1::Digest;
use sha1::Sha1;
use vstd::prelude::*;
use vstd::string::StringExecFns;
use vstd::string::StringSliceAdditionalSpecFns;
use vstd::utf8::encode_utf8;
use vstd::utf8::is_char_boundary;

verus! {

/// The SHA-1 digest of `data`.
pub uninterp spec fn sha1_digest(data: Seq<u8>) -> Seq<u8>;

/// `data` in base64, standard alphabet, padded.
pub uninterp spec fn base64_text(data: Seq<u8>) -> Seq<char>;

/// `text` in lower case.
pub uninterp spec fn lowercase_text(text: Seq<char>) -> Seq<char>;

/// Whether `needle` occurs in `hay` as one stretch.
pub open spec fn text_contains(hay: Seq<char>, needle: Seq<char>) -> bool {
    exists|i: int|
        0 <= i <= hay.len() - needle.len() && #[trigger] hay.subrange(i, i + needle.len())
            == needle
}

/// The text that every accept key is derived with.
pub open spec fn magic_text() -> Seq<char> {
    "258EAFA5-E914-47DA-95CA-C5AB0DC85B11"@
}

/// The accept key for a client's key: the digest of the key followed by the
/// fixed text, in base64.
pub open spec fn accept_text(key: Seq<u8>) -> Seq<char> {
    base64_text(sha1_digest(key + encode_utf8(magic_text())))
}

/// Whether a request line names the client's key, in any case of letters.
pub open spec fn mentions_key(line: Seq<char>) -> bool {
    text_contains(lowercase_text(line), "sec-websocket-key"@)
}

/// The accept header for a line that names the client's key. The key is
/// what follows the line's first 19 bytes; a line that cannot be cut there
/// gives an error.
pub open spec fn key_line_outcome(line: Seq<char>) -> Result<Seq<char>, Seq<char>> {
    let bytes = encode_utf8(line);
    if is_char_boundary(bytes, 19) {
        Ok("Sec-WebSocket-Accept: "@ + accept_text(bytes.subrange(19, bytes.len() as int)))
    } else {
        Err("Sec-Websocket-Key header is too short"@)
    }
}

/// The text of a result, on either side.
pub open spec fn outcome_text(r: Result<String, String>) -> Result<Seq<char>, Seq<char>> {
    match r {
        Ok(s) => Ok(s@),
        Err(e) => Err(e@),
    }
}

/// The response that accepts the upgrade, around the accept header.
pub open spec fn response_text(accept_header: Seq<char>) -> Seq<char> {
    "HTTP/1.1 101 Switching Protocols\r\nUpgrade: websocket\r\nConnection: Upgrade\r\n"@
        + accept_header + "\r\nDate: Sat, 28 May 2022 18:12:34 GMT\r\n\r\n"@
}

/// Calls `sha1::Sha1::digest` (the `Digest` trait's one-shot function): the
/// SHA-1 digest of `data`, which has twenty bytes.
#[verifier::external_body]
fn sha1_of(data: &[u8]) -> (r: Vec<u8>)
    ensures
        r@ == sha1_digest(data@),
        r@.len() == 20,
{
    Sha1::digest(data).to_vec()
}

/// Calls `base64::Engine::encode` on the `STANDARD` engine: `data` in
/// base64. The outside function refuses an input whose encoded length does
/// not fit in `usize`, so callers must not pass one.
#[verifier::external_body]
fn base64_of(data: &[u8]) -> (r: String)
    requires
        (data@.len() / 3) * 4 + 4 <= usize::MAX,
    ensures
        r@ == base64_text(data@),
{
    base64::engine::general_purpose::STANDARD.encode(data)
}

/// Calls `str::to_lowercase`: the text in lower case.
#[verifier::external_body]
fn lowercase(text: &str) -> (r: String)
    ensures
        r@ == lowercase_text(text@),
{
    text.to_lowercase()
}

/// Calls `str::contains` with a string pattern: whether the pattern occurs
/// in the text as one stretch.
#[verifier::external_body]
fn contains(text: &str, pattern: &str) -> (r: bool)
    ensures
        r == text_contains(text@, pattern@),
{
    text.contains(pattern)
}

/// The accept key for a client's key.
pub fn accept_key(key: &[u8]) -> (r: String)
    ensures
        r@ == accept_text(key@),
{
    let magic_string = "258EAFA5-E914-47DA-95CA-C5AB0DC85B11";
    let mut data: Vec<u8> = Vec::new();
    push_all(&mut data, key);
    push_all(&mut data, magic_string.as_bytes());
    assert(data@ =~= key@ + encode_utf8(magic_text()));
    let digest = sha1_of(data.as_slice());
    base64_of(digest.as_slice())
}

/// The header line that carries an accept key.
pub fn accept_header(accept: &str) -> (r: String)
    ensures
        r@ == "Sec-WebSocket-Accept: "@ + accept@,
{
    "Sec-WebSocket-Accept: ".to_owned().concat(accept)
}

/// The accept header that answers a request, given by its lines: derived
/// from the first line that names the client's key. Without such a line, or
/// where that line is too short to hold a key, the result is an error.
pub fn get_accept_key_header(lines: &Vec<String>) -> (r: Result<String, String>)
    ensures
        (forall|i: int| 0 <= i < lines@.len() ==> !mentions_key(#[trigger] lines@[i]@))
            ==> outcome_text(r) == Err::<Seq<char>, _>("Sec-Websocket-Key header not found"@),
        forall|i: int|
            0 <= i < lines@.len() && mentions_key(#[trigger] lines@[i]@) && (forall|j: int|
                0 <= j < i ==> !mentions_key(#[trigger] lines@[j]@)) ==> outcome_text(r)
                == key_line_outcome(lines@[i]@),
{
    let n: usize = lines.len();
    let mut i: usize = 0;
    while i < n
        invariant
            i <= n,
            n == lines@.len(),
            forall|j: int| 0 <= j < i ==> !mentions_key(#[trigger] lines@[j]@),
        decreases n - i,
    {
        let line: &str = lines[i].as_str();
        let lowered = lowercase(line);
        if contains(lowered.as_str(), "sec-websocket-key") {
            if !line.is_char_boundary(19) {
                return Err("Sec-Websocket-Key header is too short".to_owned());
            }
            let (_, key) = line.split_at(19);
            let accept = accept_key(key.as_bytes());
            return Ok(accept_header(accept.as_str()));
        }
        i += 1;
    }
    Err("Sec-Websocket-Key header not found".to_owned())
}

/// The response that accepts the upgrade, around the given accept header.
pub fn switching_protocols(accept_header: &str) -> (r: String)
    ensures
        r@ == response_text(accept_header@),
{
    let mut response =
        "HTTP/1.1 101 Switching Protocols\r\nUpgrade: websocket\r\nConnection: Upgrade\r\n".to_owned();
    response.append(accept_header);
    response.append("\r\nDate: Sat, 28 May 2022 18:12:34 GMT\r\n\r\n");
    response
}

/// The response to a request, given by its lines: the upgrade accepted with
/// the accept header of `get_accept_key_header`, or that function's error.
pub fn handshake_response(lines: &Vec<String>) -> (r: Result<String, String>)
    ensures
        (forall|i: int| 0 <= i < lines@.len() ==> !mentions_key(#[trigger] lines@[i]@))
            ==> outcome_text(r) == Err::<Seq<char>, _>("Sec-Websocket-Key header not found"@),
        forall|i: int|
            0 <= i < lines@.len() && mentions_key(#[trigger] lines@[i]@) && (forall|j: int|
                0 <= j < i ==> !mentions_key(#[trigger] lines@[j]@)) ==> outcome_text(r) == (
            match key_line_outcome(lines@[i]@) {
                Ok(header) => Ok(response_text(header)),
                Err(e) => Err(e),
            }),
{
    match get_accept_key_header(lines) {
        Ok(header) => Ok(switching_protocols(header.as_str())),
        Err(e) => Err(e),
    }
}

} // verus!
