//! The plain-HTTP exchange with a runtime pod: request texts, response parsing,
//! and the error replies the activator sends.

use crate::json::{compact_text, json_compact_text, JsonValue};
use crate::text::{concat2, concat3,
    all_digits, chars_of, chars_occur_at, decimal, decimal_text, digits_value, is_digit, is_whitespace, is_ws,
    occurs_at, owned, parse_u16_spec, string_of,
};
use vstd::prelude::*;
use vstd::utf8::{decode_utf8, valid_utf8};

verus! {

/// Status code and message of an HTTP error reply.
#[derive(Debug, PartialEq, Eq)]
pub struct HttpError {
    pub status: u16,
    pub message: String,
}

/// A 400 reply whose body is the message and a newline.
pub fn bad_request(message: &str) -> (r: HttpError)
    ensures
        r.status == 400,
        r.message@ == message@ + "\n"@,
{
    HttpError { status: 400, message: crate::text::concat2(message, "\n") }
}

/// A 500 reply whose body is the message and a newline.
pub fn api_error(message: &str) -> (r: HttpError)
    ensures
        r.status == 500,
        r.message@ == message@ + "\n"@,
{
    HttpError { status: 500, message: crate::text::concat2(message, "\n") }
}

/// What `String::from_utf8_lossy` makes of some bytes.
pub uninterp spec fn lossy_text(bytes: Seq<u8>) -> Seq<char>;

/// `String::from_utf8_lossy`: the bytes as text, invalid sequences replaced.
#[verifier::external_body]
pub(crate) fn utf8_lossy(bytes: &[u8]) -> (r: String)
    ensures
        r@ == lossy_text(bytes@),
        valid_utf8(bytes@) ==> r@ == decode_utf8(bytes@),
{
    String::from_utf8_lossy(bytes).into_owned()
}

/// A 2xx status.
pub fn is_success(status: u16) -> (r: bool)
    ensures
        r == (200 <= status < 300),
{
    200 <= status && status < 300
}

/// A parsed reply of a runtime pod.
#[derive(Debug, PartialEq, Eq)]
pub struct HttpResponse {
    pub status: u16,
    pub body: String,
}

/// Why a runtime pod's reply could not be read.
#[derive(Clone, Debug, PartialEq, Eq)]
pub enum ResponseError {
    /// No blank line ends the head.
    Malformed,
    /// The status line has no second word.
    MissingStatus,
    /// The status is not a `u16`; `cause` is why `u16::from_str` refused it.
    InvalidStatus { cause: String },
}

/// A `ResponseError` with its text as a character sequence.
pub enum ResponseErrorView {
    Malformed,
    MissingStatus,
    InvalidStatus { cause: Seq<char> },
}

impl View for ResponseError {
    type V = ResponseErrorView;

    open spec fn view(&self) -> ResponseErrorView {
        match self {
            ResponseError::Malformed => ResponseErrorView::Malformed,
            ResponseError::MissingStatus => ResponseErrorView::MissingStatus,
            ResponseError::InvalidStatus { cause } => ResponseErrorView::InvalidStatus { cause: cause@ },
        }
    }
}

impl ResponseErrorView {
    /// The error's text, its cause after a colon where it has one.
    pub open spec fn message_spec(self) -> Seq<char> {
        match self {
            ResponseErrorView::Malformed => "malformed HTTP response from serverless runtime"@,
            ResponseErrorView::MissingStatus => "missing HTTP status from serverless runtime"@,
            ResponseErrorView::InvalidStatus { cause } => "invalid HTTP status from serverless runtime: "@ + cause,
        }
    }
}

impl ResponseError {
    /// The error's text, its cause after a colon where it has one.
    pub fn message(&self) -> (r: String)
        ensures
            r@ == self@.message_spec(),
    {
        match self {
            ResponseError::Malformed => owned("malformed HTTP response from serverless runtime"),
            ResponseError::MissingStatus => owned("missing HTTP status from serverless runtime"),
            ResponseError::InvalidStatus { cause } => concat2("invalid HTTP status from serverless runtime: ", cause.as_str()),
        }
    }
}

/// The text of the error `u16::from_str` returns for a text it refuses.
pub uninterp spec fn u16_parse_error_text(text: Seq<char>) -> Seq<char>;

/// `u16::from_str` on a text it refuses: the error's text.
#[verifier::external_body]
fn u16_parse_error(text: &str) -> (r: String)
    requires
        parse_u16_spec(text@).is_none(),
    ensures
        r@ == u16_parse_error_text(text@),
{
    match text.parse::<u16>() {
        Err(e) => e.to_string(),
        Ok(_) => String::new(),
    }
}

/// The blank line that ends an HTTP head.
pub open spec fn head_end() -> Seq<char> {
    seq!['\r', '\n', '\r', '\n']
}

/// `i` is the first place where `pat` occurs in `s`.
pub open spec fn first_occurrence_at(s: Seq<char>, pat: Seq<char>, i: int) -> bool {
    occurs_at(s, pat, i) && forall|j: int| 0 <= j < i ==> !occurs_at(s, pat, j)
}

/// The first line of a text (`lines().next()`): nothing for empty text; else the text up
/// to the first newline, without a carriage return just before it.
pub open spec fn first_line(s: Seq<char>) -> Option<Seq<char>> {
    if s.len() == 0 {
        None
    } else if exists|i: int| 0 <= i < s.len() && s[i] == '\n' {
        let i = choose|i: int| 0 <= i < s.len() && s[i] == '\n' && forall|j: int| 0 <= j < i ==> s[j] != '\n';
        let l = s.take(i);
        Some(if l.len() > 0 && l.last() == '\r' { l.drop_last() } else { l })
    } else {
        Some(s)
    }
}

/// The words of a text (`split_whitespace`).
pub open spec fn words(s: Seq<char>) -> Seq<Seq<char>>
    decreases s.len(),
{
    if s.len() == 0 {
        Seq::empty()
    } else {
        let r = words(s.drop_last());
        let c = s.last();
        if is_ws(c) {
            r
        } else if s.len() >= 2 && !is_ws(s[s.len() - 2]) && r.len() > 0 {
            r.update(r.len() - 1, r.last().push(c))
        } else {
            r.push(seq![c])
        }
    }
}

/// What reading a runtime pod's reply text gives: the status from the second word of the
/// first line of the head, and the body after the blank line that ends the head.
pub open spec fn parse_response_spec(text: Seq<char>) -> Result<(u16, Seq<char>), ResponseErrorView> {
    if !(exists|i: int| first_occurrence_at(text, head_end(), i)) {
        Err(ResponseErrorView::Malformed)
    } else {
        let k = choose|i: int| first_occurrence_at(text, head_end(), i);
        let head = text.take(k);
        let body = text.skip(k + 4);
        match first_line(head) {
            None => Err(ResponseErrorView::MissingStatus),
            Some(line) => if words(line).len() < 2 {
                Err(ResponseErrorView::MissingStatus)
            } else {
                match parse_u16_spec(words(line)[1]) {
                    Some(st) => Ok((st, body)),
                    None => Err(ResponseErrorView::InvalidStatus { cause: u16_parse_error_text(words(line)[1]) }),
                }
            },
        }
    }
}


fn find_head_end(v: &Vec<char>) -> (r: Option<usize>)
    ensures
        r.is_some() ==> first_occurrence_at(v@, head_end(), r.unwrap() as int),
        r.is_none() ==> !(exists|i: int| first_occurrence_at(v@, head_end(), i)),
{
    let mut pat: Vec<char> = Vec::new();
    pat.push('\r');
    pat.push('\n');
    pat.push('\r');
    pat.push('\n');
    assert(pat@ =~= head_end());
    if v.len() < 4 {
        assert forall|i: int| !occurs_at(v@, head_end(), i) by {}
        return None;
    }
    let last = v.len() - 4;
    let mut i: usize = 0;
    while i <= last
        invariant
            last == v@.len() - 4,
            pat@ == head_end(),
            forall|j: int| 0 <= j < i ==> !occurs_at(v@, head_end(), j),
        ensures
            forall|j: int| 0 <= j <= last ==> !occurs_at(v@, head_end(), j),
        decreases last + 1 - i,
    {
        if chars_occur_at(v, &pat, i) {
            return Some(i);
        }
        if i == last {
            break;
        }
        i = i + 1;
    }
    assert forall|j: int| !occurs_at(v@, head_end(), j) by {
        if 0 <= j <= last {
        }
    }
    None
}

fn first_line_of(s: &Vec<char>) -> (r: Option<Vec<char>>)
    ensures
        r.is_some() == first_line(s@).is_some(),
        r.is_some() ==> r.unwrap()@ == first_line(s@).unwrap(),
{
    if s.len() == 0 {
        return None;
    }
    let mut i: usize = 0;
    while i < s.len()
        invariant
            i <= s@.len(),
            forall|j: int| 0 <= j < i ==> s@[j] != '\n',
        decreases s@.len() - i,
    {
        if s[i] == '\n' {
            let mut l: Vec<char> = Vec::new();
            let mut k: usize = 0;
            while k < i
                invariant
                    k <= i,
                    i < s@.len(),
                    l@ == s@.take(k as int),
                decreases i - k,
            {
                l.push(s[k]);
                assert(s@.take(k + 1) == s@.take(k as int).push(s@[k as int]));
                k = k + 1;
            }
            proof {
                let c = choose|c: int| 0 <= c < s@.len() && s@[c] == '\n' && forall|j: int| 0 <= j < c ==> s@[j] != '\n';
                assert(c == i) by {
                    if c < i {
                    } else if c > i {
                        assert(s@[i as int] == '\n');
                    }
                }
            }
            if l.len() > 0 && l[l.len() - 1] == '\r' {
                l.pop();
            }
            return Some(l);
        }
        i = i + 1;
    }
    let mut all: Vec<char> = Vec::new();
    let mut k: usize = 0;
    while k < s.len()
        invariant
            k <= s@.len(),
            all@ == s@.take(k as int),
        decreases s@.len() - k,
    {
        all.push(s[k]);
        assert(s@.take(k + 1) == s@.take(k as int).push(s@[k as int]));
        k = k + 1;
    }
    assert(s@.take(s@.len() as int) == s@);
    Some(all)
}

fn split_words(s: &Vec<char>) -> (r: Vec<Vec<char>>)
    ensures
        r@.len() == words(s@).len(),
        forall|i: int| 0 <= i < r@.len() ==> (#[trigger] r@[i])@ == words(s@)[i],
{
    let mut out: Vec<Vec<char>> = Vec::new();
    let mut i: usize = 0;
    while i < s.len()
        invariant
            i <= s@.len(),
            out@.len() == words(s@.take(i as int)).len(),
            forall|j: int| 0 <= j < out@.len() ==> (#[trigger] out@[j])@ == words(s@.take(i as int))[j],
        decreases s@.len() - i,
    {
        let c = s[i];
        let ghost pre = s@.take(i as int);
        let ghost cur = s@.take(i + 1);
        assert(cur.drop_last() == pre);
        assert(cur.last() == c);
        if is_whitespace(c) {
        } else if i >= 1 && !is_whitespace(s[i - 1]) && out.len() > 0 {
            assert(cur[cur.len() - 2] == s@[i - 1]);
            let last = out.len() - 1;
            let mut w = out.pop().unwrap();
            w.push(c);
            out.push(w);
            proof {
                let ws = words(cur);
                assert forall|j: int| 0 <= j < out@.len() implies (#[trigger] out@[j])@ == ws[j] by {
                    if j < last {
                    }
                }
            }
        } else {
            proof {
                if i >= 1 {
                    assert(cur[cur.len() - 2] == s@[i - 1]);
                }
            }
            let mut w: Vec<char> = Vec::new();
            w.push(c);
            assert(w@ =~= seq![c]);
            out.push(w);
        }
        i = i + 1;
    }
    assert(s@.take(s@.len() as int) == s@);
    out
}

proof fn lemma_digits_value_push(s: Seq<char>, c: char)
    ensures
        digits_value(s.push(c)) == digits_value(s) * 10 + ((c as u32) - ('0' as u32)) as nat,
{
    assert(s.push(c).drop_last() == s);
}

proof fn lemma_digits_value_bound(s: Seq<char>, i: int)
    requires
        all_digits(s),
        0 <= i <= s.len(),
    ensures
        digits_value(s.take(i)) <= digits_value(s),
    decreases s.len() - i,
{
    if i < s.len() {
        lemma_digits_value_bound(s, i + 1);
        assert(s.take(i + 1).drop_last() == s.take(i));
    } else {
        assert(s.take(i) == s);
    }
}

/// `u16::from_str`.
pub fn parse_u16(s: &Vec<char>) -> (r: Option<u16>)
    ensures
        r == parse_u16_spec(s@),
{
    let start: usize = if s.len() > 0 && s[0] == '+' { 1 } else { 0 };
    let ghost d = if s@.len() > 0 && s@[0] == '+' { s@.drop_first() } else { s@ };
    assert(d == s@.skip(start as int));
    if start >= s.len() {
        return None;
    }
    let mut value: u32 = 0;
    let mut i: usize = start;
    while i < s.len()
        invariant
            start <= i <= s@.len(),
            start < s@.len(),
            d == s@.skip(start as int),
            d == (if s@.len() > 0 && s@[0] == '+' { s@.drop_first() } else { s@ }),
            all_digits(d.take(i - start)),
            value as nat == digits_value(d.take(i - start)),
            value <= u16::MAX,
        decreases s@.len() - i,
    {
        let c = s[i];
        assert(d[i - start] == c);
        assert(d.take(i - start + 1) == d.take(i - start).push(c));
        if !('0' <= c && c <= '9') {
            assert(!all_digits(d)) by {
                assert(!is_digit(d[i - start]));
            }
            return None;
        }
        proof {
            lemma_digits_value_push(d.take(i - start), c);
        }
        let dv = (c as u32) - ('0' as u32);
        let next = value * 10 + dv;
        if next > 65535 {
            proof {
                if all_digits(d) {
                    lemma_digits_value_bound(d, i - start + 1);
                }
            }
            return None;
        }
        value = next;
        i = i + 1;
    }
    assert(d.take(i - start) == d);
    Some(value as u16)
}

/// A parse result is the one a spec result describes.
pub open spec fn response_outcome(r: Result<HttpResponse, ResponseError>, want: Result<(u16, Seq<char>), ResponseErrorView>) -> bool {
    match want {
        Ok((st, body)) => r.is_ok() && r.unwrap().status == st && r.unwrap().body@ == body,
        Err(e) => r.is_err() && r->Err_0@ == e,
    }
}

/// Reads a runtime pod's reply: the text of the bytes (invalid UTF-8 replaced) must hold a
/// blank line; the status is the second word of the first line before it and must be a
/// `u16`; the body is everything after it.
pub fn parse_http_response(bytes: &[u8]) -> (r: Result<HttpResponse, ResponseError>)
    ensures
        response_outcome(r, parse_response_spec(lossy_text(bytes@))),
        valid_utf8(bytes@) ==> response_outcome(r, parse_response_spec(decode_utf8(bytes@))),
{
    let text = utf8_lossy(bytes);
    let v = chars_of(text.as_str());
    let ghost tv = v@;
    let k = match find_head_end(&v) {
        Some(k) => k,
        None => {
            return Err(ResponseError::Malformed);
        },
    };
    proof {
        let c = choose|i: int| first_occurrence_at(tv, head_end(), i);
        assert(c == k) by {
            if c < k {
                assert(!occurs_at(tv, head_end(), c));
            } else if c > k {
                assert(!occurs_at(tv, head_end(), k as int));
            }
        }
    }
    let vl = v.len();
    assert(k + 4 <= vl);
    let head = crate::text::slice_chars(&v, 0, k);
    let body = crate::text::slice_chars(&v, k + 4, v.len());
    assert(head@ == tv.take(k as int));
    assert(body@ == tv.skip(k + 4));
    let line = match first_line_of(&head) {
        Some(l) => l,
        None => {
            return Err(ResponseError::MissingStatus);
        },
    };
    let ws = split_words(&line);
    if ws.len() < 2 {
        return Err(ResponseError::MissingStatus);
    }
    match parse_u16(&ws[1]) {
        Some(status) => Ok(HttpResponse { status, body: string_of(body.as_slice()) }),
        None => {
            let word = string_of(ws[1].as_slice());
            Err(ResponseError::InvalidStatus { cause: u16_parse_error(word.as_str()) })
        },
    }
}


/// Text of the health-check request sent to a runtime pod.
pub open spec fn get_request_spec(host: Seq<char>, port: u16, path: Seq<char>) -> Seq<char> {
    "GET "@ + path + " HTTP/1.1\r\nHost: "@ + host + ":"@ + decimal(port as nat)
        + "\r\nConnection: close\r\n\r\n"@
}

/// Text of a JSON `POST` to a runtime pod carrying `body`, whose length in bytes is `len`.
pub open spec fn post_request_spec(host: Seq<char>, port: u16, path: Seq<char>, body: Seq<char>, len: nat) -> Seq<char> {
    "POST "@ + path + " HTTP/1.1\r\nHost: "@ + host + ":"@ + decimal(port as nat)
        + "\r\nContent-Type: application/json\r\nContent-Length: "@ + decimal(len)
        + "\r\nConnection: close\r\n\r\n"@ + body
}

/// The health-check request for `path` on `host:port`.
pub fn get_request(host: &str, port: u16, path: &str) -> (r: String)
    ensures
        r@ == get_request_spec(host@, port, path@),
{
    let mut r = concat3("GET ", path, " HTTP/1.1\r\nHost: ");
    r.append(host);
    r.append(":");
    let p = decimal_text(port as u64);
    r.append(p.as_str());
    r.append("\r\nConnection: close\r\n\r\n");
    r
}

/// The request that invokes a runtime pod: `input` as compact JSON, posted to `path`.
pub fn post_json_request(host: &str, port: u16, path: &str, input: &JsonValue) -> (r: String)
    ensures
        r@ == post_request_spec(
            host@,
            port,
            path@,
            json_compact_text(input@),
            (vstd::utf8::encode_utf8(json_compact_text(input@)).len() as usize) as nat,
        ),
{
    let body = compact_text(input);
    let len = body.as_str().len();
    let mut r = concat3("POST ", path, " HTTP/1.1\r\nHost: ");
    r.append(host);
    r.append(":");
    let p = decimal_text(port as u64);
    r.append(p.as_str());
    r.append("\r\nContent-Type: application/json\r\nContent-Length: ");
    let l = decimal_text(len as u64);
    r.append(l.as_str());
    r.append("\r\nConnection: close\r\n\r\n");
    r.append(body.as_str());
    r
}

/// Which of `len` ready pods takes a request, given the clock reading in nanoseconds since
/// the epoch (none when the clock reads before the epoch).
pub fn pick_index_at(since_epoch_nanos: Option<u128>, len: usize) -> (r: usize)
    requires
        since_epoch_nanos.is_some() ==> len > 0,
    ensures
        match since_epoch_nanos {
            Some(n) => r == (n as usize) % len,
            None => r == 0,
        },
{
    match since_epoch_nanos {
        Some(n) => (n as usize) % len,
        None => 0,
    }
}

/// Which of `len` ready pods takes a request, chosen by the clock.
pub fn pod_pick_index(len: usize) -> (r: usize)
    requires
        len > 0,
    ensures
        r < len,
{
    pick_index_at(crate::time::clock_nanos_since_epoch(), len)
}

} // verus!
