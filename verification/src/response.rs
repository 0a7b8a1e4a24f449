//! Responses and their rendering into wire-ready form.
//!
//! A [`Response`] accumulates a body, a status code and headers through
//! value-returning configuration calls; [`Response::build`] validates the
//! headers, lowercases their names, and produces a [`Rendered`] response
//! whose `Content-Length` is the exact byte length of the body.

use vstd::prelude::*;
use crate::kv::{distinct_keys, has_key, key_index, kv_copy, kv_insert, kv_map};

verus! {

/// Why rendering a response failed.
#[derive(Clone, Copy, PartialEq, Eq, Structural, Debug)]
pub enum ResponseError {
    CannotGetHeaders,
    InvalidHeaderName,
    InvalidHeaderValue,
    FailedToCreateHeader,
}

/// A response under construction: body, status code, accumulated headers.
///
/// Configuration goes through value-returning calls on a shared borrow, so a
/// partially configured response can serve as a template: deriving from it
/// never changes it.
pub struct Response {
    pub body: String,
    pub status: u16,
    pub headers: Vec<(String, String)>,
}

/// A wire-ready response: status, validated headers, body.
pub struct Rendered {
    pub status: u16,
    pub headers: Vec<(String, String)>,
    pub body: String,
}

/// A status code the wire format can carry.
pub open spec fn valid_status(s: u16) -> bool {
    100 <= s < 1000
}

/// A character legal in a header field name: the HTTP token characters.
pub open spec fn header_name_char(c: char) -> bool {
    ||| 'a' <= c <= 'z'
    ||| 'A' <= c <= 'Z'
    ||| '0' <= c <= '9'
    ||| c == '!' || c == '#' || c == '$' || c == '%' || c == '&' || c == '\'' || c == '*'
        || c == '+' || c == '-' || c == '.' || c == '^' || c == '_' || c == '`' || c == '|'
        || c == '~'
}

/// A legal header field name: non-empty, at most 65535 token characters.
pub open spec fn valid_header_name(s: Seq<char>) -> bool {
    1 <= s.len() <= 65535 && forall|i: int| 0 <= i < s.len() ==> header_name_char(#[trigger] s[i])
}

/// A character legal in a header value: no control characters besides tab.
pub open spec fn header_value_char(c: char) -> bool {
    c == '\t' || (c as u32 >= 32 && c as u32 != 127)
}

/// A legal header value.
pub open spec fn valid_header_value(s: Seq<char>) -> bool {
    forall|i: int| 0 <= i < s.len() ==> header_value_char(#[trigger] s[i])
}

/// An upper-case ASCII letter mapped to lower case; all else unchanged.
pub open spec fn lower_char(c: char) -> char {
    if 'A' <= c <= 'Z' {
        ((c as u32) + 32) as char
    } else {
        c
    }
}

/// ASCII lower-casing, character by character.
pub open spec fn ascii_lower(s: Seq<char>) -> Seq<char> {
    s.map_values(|c: char| lower_char(c))
}

/// Relies on hyper's `HeaderName::from_bytes` (from the `http` crate): it
/// accepts exactly the non-empty names of at most 65535 token characters,
/// and normalizes the accepted name to lower case.
#[verifier::external_body]
fn parse_header_name(s: &str) -> (r: Option<String>)
    ensures
        r is Some <==> valid_header_name(s@),
        r matches Some(n) ==> n@ == ascii_lower(s@),
{
    match hyper::header::HeaderName::from_bytes(s.as_bytes()) {
        Ok(n) => Some(n.as_str().to_string()),
        Err(_) => None,
    }
}

/// Relies on hyper's `HeaderValue::from_str` (from the `http` crate): it
/// accepts exactly the strings free of control characters other than tab.
#[verifier::external_body]
fn header_value_is_valid(s: &str) -> (r: bool)
    ensures
        r == valid_header_value(s@),
{
    hyper::header::HeaderValue::from_str(s).is_ok()
}

/// Relies on hyper's `StatusCode::from_u16` (from the `http` crate): it
/// accepts exactly the codes 100 through 999.
#[verifier::external_body]
fn status_is_valid(s: u16) -> (r: bool)
    ensures
        r == valid_status(s),
{
    hyper::StatusCode::from_u16(s).is_ok()
}

/// The character of a single decimal digit.
pub open spec fn digit_char(d: nat) -> char {
    if d == 0 {
        '0'
    } else if d == 1 {
        '1'
    } else if d == 2 {
        '2'
    } else if d == 3 {
        '3'
    } else if d == 4 {
        '4'
    } else if d == 5 {
        '5'
    } else if d == 6 {
        '6'
    } else if d == 7 {
        '7'
    } else if d == 8 {
        '8'
    } else {
        '9'
    }
}

/// The decimal digits of `n`, most significant first.
pub open spec fn dec_of(n: nat) -> Seq<char>
    decreases n,
{
    if n < 10 {
        seq![digit_char(n)]
    } else {
        dec_of(n / 10).push(digit_char(n % 10))
    }
}

fn digit_str(d: usize) -> (r: &'static str)
    requires
        d < 10,
    ensures
        r@ == seq![digit_char(d as nat)],
{
    if d == 0 {
        proof {
            reveal_strlit("0");
            assert("0"@ =~= seq![digit_char(d as nat)]);
        }
        "0"
    } else if d == 1 {
        proof {
            reveal_strlit("1");
            assert("1"@ =~= seq![digit_char(d as nat)]);
        }
        "1"
    } else if d == 2 {
        proof {
            reveal_strlit("2");
            assert("2"@ =~= seq![digit_char(d as nat)]);
        }
        "2"
    } else if d == 3 {
        proof {
            reveal_strlit("3");
            assert("3"@ =~= seq![digit_char(d as nat)]);
        }
        "3"
    } else if d == 4 {
        proof {
            reveal_strlit("4");
            assert("4"@ =~= seq![digit_char(d as nat)]);
        }
        "4"
    } else if d == 5 {
        proof {
            reveal_strlit("5");
            assert("5"@ =~= seq![digit_char(d as nat)]);
        }
        "5"
    } else if d == 6 {
        proof {
            reveal_strlit("6");
            assert("6"@ =~= seq![digit_char(d as nat)]);
        }
        "6"
    } else if d == 7 {
        proof {
            reveal_strlit("7");
            assert("7"@ =~= seq![digit_char(d as nat)]);
        }
        "7"
    } else if d == 8 {
        proof {
            reveal_strlit("8");
            assert("8"@ =~= seq![digit_char(d as nat)]);
        }
        "8"
    } else {
        proof {
            reveal_strlit("9");
            assert("9"@ =~= seq![digit_char(d as nat)]);
        }
        "9"
    }
}

/// The decimal rendering of `n`.
pub fn dec_string(n: usize) -> (r: String)
    ensures
        r@ == dec_of(n as nat),
    decreases n,
{
    if n < 10 {
        digit_str(n).to_owned()
    } else {
        let mut s = dec_string(n / 10);
        s.append(digit_str(n % 10));
        proof {
            assert(s@ =~= dec_of((n / 10) as nat).push(digit_char((n % 10) as nat)));
        }
        s
    }
}

/// The byte length of a string on the wire: the length of its UTF-8 encoding.
pub open spec fn byte_len(s: Seq<char>) -> nat {
    vstd::utf8::encode_utf8(s).len()
}

/// The header map of a rendered response before the authoritative
/// `Content-Length`: every accumulated header, its name lowercased, inserted
/// in accumulation order.
pub open spec fn render_fold(es: Seq<(String, String)>) -> Map<Seq<char>, Seq<char>>
    decreases es.len(),
{
    if es.len() == 0 {
        Map::empty()
    } else {
        render_fold(es.drop_last()).insert(ascii_lower(es.last().0@), es.last().1@)
    }
}

/// The first header construction error in accumulation order, if any; an
/// illegal name is reported before an illegal value of the same entry.
pub open spec fn header_error(es: Seq<(String, String)>) -> Option<ResponseError>
    decreases es.len(),
{
    if es.len() == 0 {
        None
    } else if !valid_header_name(es[0].0@) {
        Some(ResponseError::InvalidHeaderName)
    } else if !valid_header_value(es[0].1@) {
        Some(ResponseError::InvalidHeaderValue)
    } else {
        header_error(es.drop_first())
    }
}

/// A successful rendering of `r`.
pub open spec fn build_ok(r: Response, out: Rendered) -> bool {
    &&& out.status == r.status
    &&& out.body@ == r.body@
    &&& distinct_keys(out.headers@)
    &&& kv_map(out.headers@) == render_fold(r.headers@).insert(
        "content-length"@,
        dec_of(byte_len(r.body@)),
    )
}

/// The full contract of `build`: exactly one of three outcomes, decided by
/// the status code and the first offending header.
pub open spec fn build_spec(r: Response, res: Result<Rendered, ResponseError>) -> bool {
    if !valid_status(r.status) {
        res == Err::<Rendered, ResponseError>(ResponseError::CannotGetHeaders)
    } else if header_error(r.headers@) is Some {
        res == Err::<Rendered, ResponseError>(header_error(r.headers@)->0)
    } else {
        res matches Ok(out) && build_ok(r, out)
    }
}

/// The rendering of the `404` fallback: some response with body
/// `Not found.`, status 404, and the single accumulated header
/// `Content-Type: text/html` was passed through `build` to produce `res`.
pub open spec fn not_found_rendering(res: Result<Rendered, ResponseError>) -> bool {
    exists|r: Response|
        {
            &&& #[trigger] build_spec(r, res)
            &&& r.status == 404
            &&& r.body@ == "Not found."@
            &&& r.headers@.len() == 1
            &&& r.headers@[0].0@ == "Content-Type"@
            &&& r.headers@[0].1@ == "text/html"@
        }
}

/// Law: a successful rendering always carries `Content-Length` equal to the
/// exact byte length of the body, whatever value the accumulated headers
/// held for that name.
pub proof fn lemma_content_length_authoritative(
    r: Response,
    res: Result<Rendered, ResponseError>,
    out: Rendered,
)
    requires
        build_spec(r, res),
        res == Ok::<Rendered, ResponseError>(out),
    ensures
        kv_map(out.headers@).contains_key("content-length"@),
        kv_map(out.headers@)["content-length"@] == dec_of(byte_len(r.body@)),
{
}

proof fn lemma_content_type_facts()
    ensures
        valid_header_name("Content-Type"@),
        valid_header_value("text/html"@),
        ascii_lower("Content-Type"@) == "content-type"@,
{
    reveal_strlit("Content-Type");
    reveal_strlit("content-type");
    reveal_strlit("text/html");
    assert forall|i: int| 0 <= i < "Content-Type"@.len() implies header_name_char(
        #[trigger] "Content-Type"@[i],
    ) by {
        let c = "Content-Type"@[i];
        assert(header_name_char(c));
    }
    assert forall|i: int| 0 <= i < "text/html"@.len() implies header_value_char(
        #[trigger] "text/html"@[i],
    ) by {
        let c = "text/html"@[i];
        assert(header_value_char(c));
    }
    assert(ascii_lower("Content-Type"@) =~= "content-type"@);
}

/// Law: when no route matched and the `404` fallback was rendered, the
/// rendering succeeded and carries status 404, body `Not found.`,
/// `Content-Type: text/html` and `Content-Length: 10`.
pub proof fn lemma_not_found_rendering(res: Result<Rendered, ResponseError>)
    requires
        not_found_rendering(res),
    ensures
        res is Ok,
        res->Ok_0.status == 404,
        res->Ok_0.body@ == "Not found."@,
        kv_map(res->Ok_0.headers@).contains_key("content-type"@),
        kv_map(res->Ok_0.headers@)["content-type"@] == "text/html"@,
        kv_map(res->Ok_0.headers@).contains_key("content-length"@),
        kv_map(res->Ok_0.headers@)["content-length"@] == "10"@,
{
    let r = choose|r: Response|
        {
            &&& #[trigger] build_spec(r, res)
            &&& r.status == 404
            &&& r.body@ == "Not found."@
            &&& r.headers@.len() == 1
            &&& r.headers@[0].0@ == "Content-Type"@
            &&& r.headers@[0].1@ == "text/html"@
        };
    lemma_content_type_facts();
    reveal_with_fuel(header_error, 3);
    reveal_with_fuel(render_fold, 3);
    assert(r.headers@.drop_first() =~= Seq::<(String, String)>::empty());
    assert(valid_header_name(r.headers@[0].0@));
    assert(valid_header_value(r.headers@[0].1@));
    assert(header_error(r.headers@.drop_first()) is None);
    assert(header_error(r.headers@) is None);
    assert(r.headers@.drop_last() =~= Seq::<(String, String)>::empty());
    assert(render_fold(r.headers@) =~= Map::<Seq<char>, Seq<char>>::empty().insert(
        "content-type"@,
        "text/html"@,
    ));
    reveal_strlit("Not found.");
    assert(vstd::utf8::is_ascii_chars(r.body@)) by {
        assert forall|i: int| 0 <= i < r.body@.len() implies '\0' <= #[trigger] r.body@[i]
            <= '\u{7f}' by {
            let c = r.body@[i];
            assert('\0' <= c <= '\u{7f}');
        }
    }
    vstd::utf8::is_ascii_chars_encode_utf8(r.body@);
    assert(byte_len(r.body@) == 10);
    assert(dec_of(10) =~= "10"@) by {
        reveal_with_fuel(dec_of, 3);
        reveal_strlit("10");
    }
    reveal_strlit("content-type");
    reveal_strlit("content-length");
    assert("content-type"@ != "content-length"@) by {
        assert("content-type"@.len() != "content-length"@.len());
    }
}

proof fn lemma_x_test_facts()
    ensures
        valid_header_name("X-Test"@),
        ascii_lower("X-Test"@) == "x-test"@,
{
    reveal_strlit("X-Test");
    reveal_strlit("x-test");
    assert forall|i: int| 0 <= i < "X-Test"@.len() implies header_name_char(
        #[trigger] "X-Test"@[i],
    ) by {
        let c = "X-Test"@[i];
        assert(header_name_char(c));
    }
    assert(ascii_lower("X-Test"@) =~= "x-test"@);
}

/// Law (round trip): a response whose accumulated headers are exactly the
/// default `Content-Type` and `X-Test: v`, with status 201, renders
/// successfully: the rendered status is 201, `X-Test`'s value is kept under
/// its lowercased name, the default `Content-Type` is kept, and a computed
/// `Content-Length` is present.
pub proof fn lemma_round_trip(r: Response, res: Result<Rendered, ResponseError>)
    requires
        build_spec(r, res),
        r.status == 201,
        r.headers@.len() == 2,
        r.headers@[0].0@ == "Content-Type"@,
        r.headers@[0].1@ == "text/html"@,
        r.headers@[1].0@ == "X-Test"@,
        r.headers@[1].1@ == "v"@,
    ensures
        res is Ok,
        res->Ok_0.status == 201,
        kv_map(res->Ok_0.headers@).contains_key("x-test"@),
        kv_map(res->Ok_0.headers@)["x-test"@] == "v"@,
        kv_map(res->Ok_0.headers@).contains_key("content-type"@),
        kv_map(res->Ok_0.headers@)["content-type"@] == "text/html"@,
        kv_map(res->Ok_0.headers@).contains_key("content-length"@),
{
    lemma_content_type_facts();
    lemma_x_test_facts();
    reveal_with_fuel(header_error, 4);
    reveal_with_fuel(render_fold, 4);
    reveal_strlit("v");
    assert(valid_header_value("v"@)) by {
        assert forall|i: int| 0 <= i < "v"@.len() implies header_value_char(
            #[trigger] "v"@[i],
        ) by {
            let c = "v"@[i];
            assert(header_value_char(c));
        }
    }
    assert(r.headers@.drop_first()[0] == r.headers@[1]);
    assert(r.headers@.drop_first().drop_first() =~= Seq::<(String, String)>::empty());
    assert(header_error(r.headers@.drop_first()) is None);
    assert(header_error(r.headers@) is None);
    assert(r.headers@.drop_last().drop_last() =~= Seq::<(String, String)>::empty());
    assert(r.headers@.drop_last()[0] == r.headers@[0]);
    assert(render_fold(r.headers@.drop_last()) =~= Map::<Seq<char>, Seq<char>>::empty().insert(
        "content-type"@,
        "text/html"@,
    ));
    assert(render_fold(r.headers@) =~= Map::<Seq<char>, Seq<char>>::empty().insert(
        "content-type"@,
        "text/html"@,
    ).insert("x-test"@, "v"@));
    reveal_strlit("content-type");
    reveal_strlit("content-length");
    reveal_strlit("x-test");
    assert("x-test"@ != "content-length"@) by {
        assert("x-test"@.len() != "content-length"@.len());
    }
    assert("content-type"@ != "content-length"@) by {
        assert("content-type"@.len() != "content-length"@.len());
    }
}

impl Response {
    /// Accumulated header keys are pairwise distinct.
    pub open spec fn wf(self) -> bool {
        distinct_keys(self.headers@)
    }

    /// A fresh response: the given body, status 200, `Content-Type:
    /// text/html`.
    pub fn html(body: &str) -> (r: Response)
        ensures
            r.wf(),
            r.body@ == body@,
            r.status == 200,
            r.headers@.len() == 1,
            r.headers@[0].0@ == "Content-Type"@,
            r.headers@[0].1@ == "text/html"@,
    {
        let mut headers: Vec<(String, String)> = Vec::new();
        headers.push(("Content-Type".to_owned(), "text/html".to_owned()));
        Response { body: body.to_owned(), status: 200, headers }
    }

    /// The same response with the status replaced; `self` is left untouched.
    pub fn with_status(&self, status: u16) -> (r: Response)
        ensures
            r.body == self.body,
            r.status == status,
            r.headers@ == self.headers@,
            self.wf() ==> r.wf(),
    {
        Response { body: self.body.clone(), status, headers: kv_copy(&self.headers) }
    }

    /// The same response with `key` set to `value` among the headers,
    /// replacing the value of an entry already carrying `key`; `self` is
    /// left untouched.
    pub fn with_header(&self, key: &str, value: &str) -> (r: Response)
        requires
            self.wf(),
        ensures
            r.wf(),
            r.body == self.body,
            r.status == self.status,
            kv_map(r.headers@) == kv_map(self.headers@).insert(key@, value@),
            forall|j: int|
                0 <= j < self.headers@.len() && self.headers@[j].0@ != key@
                    ==> r.headers@[j] == self.headers@[j],
            has_key(self.headers@, key@) ==> {
                &&& r.headers@.len() == self.headers@.len()
                &&& r.headers@[key_index(self.headers@, key@)].0@ == key@
                &&& r.headers@[key_index(self.headers@, key@)].1@ == value@
            },
            !has_key(self.headers@, key@) ==> {
                &&& r.headers@.len() == self.headers@.len() + 1
                &&& r.headers@[self.headers@.len() as int].0@ == key@
                &&& r.headers@[self.headers@.len() as int].1@ == value@
            },
    {
        let headers = kv_insert(kv_copy(&self.headers), key.to_owned(), value.to_owned());
        Response { body: self.body.clone(), status: self.status, headers }
    }

    /// Renders the response for the wire: validates every accumulated
    /// header, lowercases the names, and sets `Content-Length` to the exact
    /// byte length of the body, overriding any accumulated value for it.
    pub fn build(self) -> (res: Result<Rendered, ResponseError>)
        requires
            self.wf(),
        ensures
            build_spec(self, res),
    {
        if !status_is_valid(self.status) {
            return Err(ResponseError::CannotGetHeaders);
        }
        let n = self.headers.len();
        let mut out: Vec<(String, String)> = Vec::new();
        let mut i: usize = 0;
        proof {
            assert(self.headers@.skip(0) =~= self.headers@);
            assert(self.headers@.take(0) =~= Seq::<(String, String)>::empty());
        }
        while i < n
            invariant
                0 <= i <= n,
                n == self.headers@.len(),
                valid_status(self.status),
                distinct_keys(out@),
                header_error(self.headers@) == header_error(self.headers@.skip(i as int)),
                kv_map(out@) == render_fold(self.headers@.take(i as int)),
            decreases n - i,
        {
            let ghost rest = self.headers@.skip(i as int);
            proof {
                assert(rest[0] == self.headers@[i as int]);
                assert(rest.drop_first() =~= self.headers@.skip(i + 1));
                assert(self.headers@.take(i + 1).drop_last() =~= self.headers@.take(i as int));
                assert(self.headers@.take(i + 1).last() == self.headers@[i as int]);
            }
            let name_opt = parse_header_name(self.headers[i].0.as_str());
            match name_opt {
                None => {
                    return Err(ResponseError::InvalidHeaderName);
                },
                Some(lname) => {
                    if !header_value_is_valid(self.headers[i].1.as_str()) {
                        return Err(ResponseError::InvalidHeaderValue);
                    }
                    out = kv_insert(out, lname, self.headers[i].1.clone());
                },
            }
            i += 1;
        }
        proof {
            assert(self.headers@.take(n as int) =~= self.headers@);
            assert(self.headers@.skip(n as int) =~= Seq::<(String, String)>::empty());
        }
        let len = self.body.as_str().as_bytes().len();
        proof {
            broadcast use vstd::slice::axiom_spec_len;

            assert(len as nat == byte_len(self.body@));
        }
        let cl = dec_string(len);
        let out = kv_insert(out, "content-length".to_owned(), cl);
        Ok(Rendered { status: self.status, headers: out, body: self.body })
    }
}

} // verus!
