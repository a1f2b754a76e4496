use vstd::prelude::*;
use vstd::string::StrSliceExecFns;
use vstd::string::StringExecFns;
use vstd::utf8::encode_utf8;

verus! {

/// Mathematical model of one HTTP response: status code, optional headers,
/// and the exact body bytes.
pub ghost struct ResponseModel {
    pub status: u16,
    pub content_type: Option<Seq<char>>,
    pub cache_control: Option<Seq<char>>,
    pub body: Seq<u8>,
}

/// The one response produced for a request: every handler ends in a value of
/// this type, which the transport writes out unchanged.
pub struct HttpResponse {
    pub status: u16,
    pub content_type: Option<String>,
    pub cache_control: Option<String>,
    pub body: Vec<u8>,
}

impl View for HttpResponse {
    type V = ResponseModel;

    open spec fn view(&self) -> ResponseModel {
        ResponseModel {
            status: self.status,
            content_type: match self.content_type {
                Some(s) => Some(s@),
                None => None,
            },
            cache_control: match self.cache_control {
                Some(s) => Some(s@),
                None => None,
            },
            body: self.body@,
        }
    }
}

/// Response for a path that exists nowhere: plain-text 404.
pub open spec fn not_found_model() -> ResponseModel {
    ResponseModel {
        status: 404,
        content_type: Some("text/plain; charset=utf-8"@),
        cache_control: None,
        body: encode_utf8("page not found"@),
    }
}

/// Response for a request that names an unknown representation: plain-text 400.
pub open spec fn bad_request_model() -> ResponseModel {
    ResponseModel {
        status: 400,
        content_type: Some("text/plain; charset=utf-8"@),
        cache_control: None,
        body: encode_utf8("bad request"@),
    }
}

/// Response for a failure that is the server's own: plain-text 500.
pub open spec fn internal_error_model() -> ResponseModel {
    ResponseModel {
        status: 500,
        content_type: Some("text/plain; charset=utf-8"@),
        cache_control: None,
        body: encode_utf8("internal server error"@),
    }
}

/// Response that streams a regular file: its exact bytes, no declared type.
pub open spec fn file_model(bytes: Seq<u8>) -> ResponseModel {
    ResponseModel { status: 200, content_type: None, cache_control: None, body: bytes }
}

/// Response for a rendered directory listing: the negotiated template's
/// declared content type and the rendered text.
pub open spec fn rendered_model(content_type: Seq<char>, body: Seq<char>) -> ResponseModel {
    ResponseModel {
        status: 200,
        content_type: Some(content_type),
        cache_control: None,
        body: encode_utf8(body),
    }
}

/// Response that serves an embedded asset: its bytes under a long-lived
/// cache-control header.
pub open spec fn asset_model(bytes: Seq<u8>) -> ResponseModel {
    ResponseModel {
        status: 200,
        content_type: None,
        cache_control: Some("private, max-age=360000"@),
        body: bytes,
    }
}

pub fn not_found_response() -> (r: HttpResponse)
    ensures
        r@ == not_found_model(),
{
    HttpResponse {
        status: 404,
        content_type: Some(String::from_str("text/plain; charset=utf-8")),
        cache_control: None,
        body: "page not found".as_bytes_vec(),
    }
}

pub fn bad_request_response() -> (r: HttpResponse)
    ensures
        r@ == bad_request_model(),
{
    HttpResponse {
        status: 400,
        content_type: Some(String::from_str("text/plain; charset=utf-8")),
        cache_control: None,
        body: "bad request".as_bytes_vec(),
    }
}

pub fn internal_error_response() -> (r: HttpResponse)
    ensures
        r@ == internal_error_model(),
{
    HttpResponse {
        status: 500,
        content_type: Some(String::from_str("text/plain; charset=utf-8")),
        cache_control: None,
        body: "internal server error".as_bytes_vec(),
    }
}

pub fn file_response(bytes: Vec<u8>) -> (r: HttpResponse)
    ensures
        r@ == file_model(bytes@),
{
    HttpResponse { status: 200, content_type: None, cache_control: None, body: bytes }
}

pub fn rendered_response(content_type: String, body: &str) -> (r: HttpResponse)
    ensures
        r@ == rendered_model(content_type@, body@),
{
    HttpResponse {
        status: 200,
        content_type: Some(content_type),
        cache_control: None,
        body: body.as_bytes_vec(),
    }
}

pub fn asset_response(bytes: Vec<u8>) -> (r: HttpResponse)
    ensures
        r@ == asset_model(bytes@),
{
    HttpResponse {
        status: 200,
        content_type: None,
        cache_control: Some(String::from_str("private, max-age=360000")),
        body: bytes,
    }
}

/// Law: the not-found response is exactly a 404 whose body is non-empty
/// plain text.
pub proof fn lemma_not_found_shape()
    ensures
        not_found_model().status == 404,
        not_found_model().body.len() > 0,
        not_found_model().content_type == Some("text/plain; charset=utf-8"@),
{
    reveal_strlit("page not found");
    lemma_encode_utf8_len_pos("page not found"@);
}

/// The UTF-8 encoding of a non-empty character sequence is non-empty.
pub proof fn lemma_encode_utf8_len_pos(s: Seq<char>)
    requires
        s.len() > 0,
    ensures
        encode_utf8(s).len() > 0,
{
    assert(vstd::utf8::encode_scalar(s[0] as u32).len() >= 1);
}

} // verus!
