//! The browser preview's single-threaded HTTP core: response text built
//! character by character, and the request check that decides how to
//! answer what has been read so far.
//!
//! The socket loop lives outside; it hands each accumulated buffer to
//! `check_req` and writes back the response the verdict calls for. Only
//! `GET /` is answered with the page; anything else gets a short error
//! response.

use crate::text::{base_digits, push_base_digits, push_char, push_str};
use vstd::prelude::*;
use vstd::string::StringExecFns;

verus! {

/// What is wrong — or not — with a request read so far.
#[derive(Debug, Clone, Copy, PartialEq, Eq, Structural, PartialOrd, Ord, Hash)]
pub enum RequestStatus {
    /// The method is not `GET`.
    WrongMethod,
    /// The path is not `/`.
    WrongPath,
    /// The bytes are not HTTP at all.
    NotHttp,
    /// A well-formed `GET /` so far, still incomplete.
    Good,
}

/// The verdict on the bytes read so far.
#[derive(Debug, Clone, Copy, PartialEq, Eq, Structural, PartialOrd, Ord, Hash)]
pub enum CheckRequestResult {
    /// A complete, acceptable request: answer with the page.
    Complete,
    /// A verdict on an incomplete request.
    Part(RequestStatus),
    /// Too little data to judge yet.
    Unknown,
}

/// What one parse attempt saw in the buffer.
pub enum HttpParse {
    /// The bytes are not a well-formed request so far.
    Malformed,
    /// A request prefix: whatever of the method and path was readable.
    Partial { method: Option<String>, path: Option<String> },
    /// A complete request head.
    Complete { method: Option<String>, path: Option<String> },
}

/// Relies on `httparse::Request::parse`: reads an HTTP/1.x request head
/// from the buffer, reporting an error, a partial parse, or completion,
/// with the method and path once they have been seen.
#[verifier::external_body]
fn parse_http_request(buffer: &[u8]) -> (r: HttpParse)
{
    let mut headers = [httparse::EMPTY_HEADER; 16];
    let mut req = httparse::Request::new(&mut headers);
    match req.parse(buffer) {
        Err(_) => HttpParse::Malformed,
        Ok(status) => {
            let method = req.method.map(|m| m.to_string());
            let path = req.path.map(|p| p.to_string());
            if status.is_complete() {
                HttpParse::Complete { method, path }
            } else {
                HttpParse::Partial { method, path }
            }
        },
    }
}

/// The verdict after one parse attempt: while the last verdict is
/// `Unknown` the method and the path are checked, and a clean parse is
/// then judged by its completeness.
pub open spec fn spec_classify(p: HttpParse, last: CheckRequestResult) -> CheckRequestResult {
    match p {
        HttpParse::Malformed => CheckRequestResult::Part(RequestStatus::NotHttp),
        HttpParse::Partial { method, path } => spec_classify_clean(
            false,
            method,
            path,
            last,
        ),
        HttpParse::Complete { method, path } => spec_classify_clean(true, method, path, last),
    }
}

/// The verdict for a clean parse.
pub open spec fn spec_classify_clean(
    complete: bool,
    method: Option<String>,
    path: Option<String>,
    last: CheckRequestResult,
) -> CheckRequestResult {
    if last == CheckRequestResult::Unknown && method is None {
        CheckRequestResult::Unknown
    } else if last == CheckRequestResult::Unknown && method.unwrap()@ != "GET"@ {
        CheckRequestResult::Part(RequestStatus::WrongMethod)
    } else if last == CheckRequestResult::Unknown && path is None {
        CheckRequestResult::Unknown
    } else if last == CheckRequestResult::Unknown && path.unwrap()@ != "/"@ {
        CheckRequestResult::Part(RequestStatus::WrongPath)
    } else if complete {
        CheckRequestResult::Complete
    } else {
        CheckRequestResult::Part(RequestStatus::Good)
    }
}

/// Judge one parse outcome against the previous verdict.
fn classify_request(p: &HttpParse, last: CheckRequestResult) -> (r: CheckRequestResult)
    ensures
        r == spec_classify(*p, last),
{
    match p {
        HttpParse::Malformed => CheckRequestResult::Part(RequestStatus::NotHttp),
        HttpParse::Partial { method, path } => classify_clean(false, method, path, last),
        HttpParse::Complete { method, path } => classify_clean(true, method, path, last),
    }
}

fn classify_clean(
    complete: bool,
    method: &Option<String>,
    path: &Option<String>,
    last: CheckRequestResult,
) -> (r: CheckRequestResult)
    ensures
        r == spec_classify_clean(complete, *method, *path, last),
{
    if last == CheckRequestResult::Unknown {
        match method {
            None => {
                return CheckRequestResult::Unknown;
            },
            Some(m) => {
                let get = String::from_str("GET");
                if !m.eq(&get) {
                    return CheckRequestResult::Part(RequestStatus::WrongMethod);
                }
            },
        }
        match path {
            None => {
                return CheckRequestResult::Unknown;
            },
            Some(pth) => {
                let root = String::from_str("/");
                if !pth.eq(&root) {
                    return CheckRequestResult::Part(RequestStatus::WrongPath);
                }
            },
        }
    }
    if complete {
        CheckRequestResult::Complete
    } else {
        CheckRequestResult::Part(RequestStatus::Good)
    }
}

/// The HTTP status line for a code and reason phrase.
pub open spec fn spec_status_line(code: u16, reason: Seq<char>) -> Seq<char> {
    "HTTP/1.1 "@ + base_digits(code as int, 10) + seq![' '] + reason + "\r\n"@
}

/// The header lines, one after the other.
pub open spec fn join_headers(headers: Seq<String>) -> Seq<char>
    decreases headers.len(),
{
    if headers.len() == 0 {
        Seq::empty()
    } else {
        join_headers(headers.drop_last()) + headers.last()@
    }
}

/// A whole response head: status line, headers, and the closing
/// `Connection: close` line with the blank line that ends the head.
pub open spec fn spec_response_common(code: u16, reason: Seq<char>, headers: Seq<String>) -> Seq<
    char,
> {
    spec_status_line(code, reason) + join_headers(headers) + "Connection: close\r\n\r\n"@
}

/// The `Content-Length` header for a body of `len` bytes.
pub open spec fn spec_content_length_header(len: int) -> Seq<char> {
    "Content-Length: "@ + base_digits(len, 10) + "\r\n"@
}

/// The serving side of the browser preview: one prepared page, served to
/// every acceptable request.
pub struct SingleThread {
    html: String,
}

impl SingleThread {
    /// The page this server answers with.
    pub closed spec fn spec_html(self) -> Seq<char> {
        self.html@
    }

    pub fn new(html: String) -> (s: SingleThread)
        ensures
            s.spec_html() == html@,
    {
        SingleThread { html }
    }

    /// The prepared page.
    pub fn html(&self) -> (r: &String)
        ensures
            r@ == self.spec_html(),
    {
        &self.html
    }

    /// The status line for a code and reason phrase.
    pub fn response_status_line(code: u16, reason: &str) -> (r: String)
        ensures
            r@ == spec_status_line(code, reason@),
    {
        let mut s = String::new();
        push_str(&mut s, "HTTP/1.1 ");
        push_base_digits(&mut s, code as u64, 10, 0);
        proof {
            assert(crate::text::base_digits_padded(code as int, 10, 0) =~= base_digits(
                code as int,
                10,
            ));
        }
        push_char(&mut s, ' ');
        push_str(&mut s, reason);
        push_str(&mut s, "\r\n");
        proof {
            assert(s@ =~= spec_status_line(code, reason@));
        }
        s
    }

    /// A whole response head.
    pub fn response_common(code: u16, reason: &str, headers: &Vec<String>) -> (r: String)
        ensures
            r@ == spec_response_common(code, reason@, headers@),
    {
        let mut s = Self::response_status_line(code, reason);
        let n: usize = headers.len();
        let mut i: usize = 0;
        while i < n
            invariant
                n == headers@.len(),
                i <= n,
                s@ == spec_status_line(code, reason@) + join_headers(
                    headers@.subrange(0, i as int),
                ),
            decreases n - i,
        {
            push_str(&mut s, headers[i].as_str());
            proof {
                let pre = headers@.subrange(0, i as int);
                let post = headers@.subrange(0, i + 1);
                assert(post.drop_last() =~= pre);
                assert(post.last() == headers@[i as int]);
                assert(s@ =~= spec_status_line(code, reason@) + join_headers(post));
            }
            i = i + 1;
        }
        push_str(&mut s, "Connection: close\r\n\r\n");
        proof {
            assert(headers@.subrange(0, n as int) =~= headers@);
            assert(s@ =~= spec_response_common(code, reason@, headers@));
        }
        s
    }

    /// The success response head for the page: content type, encoding,
    /// and the page's byte length.
    pub fn response_200(content: &str) -> (r: String)
        ensures
            r@ == spec_response_200(content@),
    {
        let mut content_length_header = String::new();
        push_str(&mut content_length_header, "Content-Length: ");
        push_base_digits(&mut content_length_header, content.len() as u64, 10, 0);
        proof {
            assert(crate::text::base_digits_padded(
                vstd::utf8::encode_utf8(content@).len() as usize as int,
                10,
                0,
            ) =~= base_digits(vstd::utf8::encode_utf8(content@).len() as usize as int, 10));
        }
        push_str(&mut content_length_header, "\r\n");
        let mut headers: Vec<String> = Vec::new();
        headers.push(String::from_str("Content-Type: text/html\r\n"));
        headers.push(String::from_str("Content-Encoding: utf-8\r\n"));
        headers.push(content_length_header);
        let r = Self::response_common(200, "OK", &headers);
        proof {
            let h = headers@;
            let h2 = h.drop_last();
            let h1 = h2.drop_last();
            assert(h1.drop_last().len() == 0);
            assert(join_headers(h1.drop_last()) =~= Seq::<char>::empty());
            assert(h1.last() == h[0] && h2.last() == h[1] && h.last() == h[2]);
            assert(join_headers(h1) =~= h[0]@);
            assert(join_headers(h2) =~= h[0]@ + h[1]@);
            assert(join_headers(h) =~= h[0]@ + h[1]@ + h[2]@);
            assert(h[2]@ =~= spec_content_length_header(
                vstd::utf8::encode_utf8(content@).len() as usize as int,
            ));
            assert(r@ =~= spec_response_200(content@));
        }
        r
    }

    /// The response head for a request that is not HTTP or too large.
    pub fn response_400() -> (r: String)
        ensures
            r@ == spec_response_common(400, "Bad Request"@, Seq::empty()),
    {
        let headers: Vec<String> = Vec::new();
        Self::response_common(400, "Bad Request", &headers)
    }

    /// The response head for a path other than `/`.
    pub fn response_404() -> (r: String)
        ensures
            r@ == spec_response_common(404, "Not Found"@, Seq::empty()),
    {
        let headers: Vec<String> = Vec::new();
        Self::response_common(404, "Not Found", &headers)
    }

    /// The response head for a method other than `GET`.
    pub fn response_405() -> (r: String)
        ensures
            r@ == spec_response_common(405, "Method Not Allowed"@, Seq::empty()),
    {
        let headers: Vec<String> = Vec::new();
        Self::response_common(405, "Method Not Allowed", &headers)
    }

    /// Judge the bytes read so far. A verdict of `Complete` is final;
    /// otherwise the buffer is parsed again and the parse outcome judged
    /// against the previous verdict.
    pub fn check_req(buffer: &[u8], last: CheckRequestResult) -> (r: CheckRequestResult)
        ensures
            last == CheckRequestResult::Complete ==> r == CheckRequestResult::Complete,
    {
        if last == CheckRequestResult::Complete {
            return last;
        }
        let parsed = parse_http_request(buffer);
        classify_request(&parsed, last)
    }
}

/// The success response head for a page of this content: type, encoding
/// and byte length, then the closing line.
pub open spec fn spec_response_200(content: Seq<char>) -> Seq<char> {
    spec_status_line(200, "OK"@) + "Content-Type: text/html\r\n"@
        + "Content-Encoding: utf-8\r\n"@ + spec_content_length_header(
        vstd::utf8::encode_utf8(content).len() as usize as int,
    ) + "Connection: close\r\n\r\n"@
}

} // verus!
