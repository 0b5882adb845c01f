//! The parsed request: request line, header fields and decoded body.

use crate::text::{
    chars_of, find, find_in, has_prefix, lemma_find_behind_clean_prefix,
    lemma_find_in_clean_text, lemma_find_pair_behind_clean_prefix, parse_u64, read_u64,
};
use std::collections::HashMap;
use vstd::prelude::*;
use vstd::string::*;

verus! {

/// `serde_json::Value`, a JSON value of any kind. It is carried to the
/// handler as it is; nothing here looks into it.
#[verifier::external_type_specification]
#[verifier::external_body]
pub struct ExJsonValue(serde_json::Value);

/// `serde_json::Error`, the failure of a JSON decoding. Only its presence
/// is read.
#[verifier::external_type_specification]
#[verifier::external_body]
pub struct ExJsonError(serde_json::Error);

/// `serde_urlencoded::de::Error`, the failure of a form decoding. Only its
/// presence is read.
#[verifier::external_type_specification]
#[verifier::external_body]
pub struct ExFormError(serde_urlencoded::de::Error);

/// The method of a request. Every method but GET and POST is `UNDEFINED`.
#[derive(Clone, Copy, Debug, PartialEq, Eq, Structural)]
pub enum RequestType {
    GET,
    POST,
    UNDEFINED,
}

/// Why a body could not be decoded.
#[derive(Clone, Copy, Debug, PartialEq, Eq, Structural)]
pub enum BodyDecodeError {
    /// The content type announced JSON and the body is no JSON object.
    InvalidJson,
    /// The content type announced form data and the body is none.
    InvalidForm,
}

/// The body of a request: raw text, or fields decoded from JSON or from
/// form data.
pub enum RequestBody {
    String(String),
    Fields(HashMap<String, serde_json::Value>),
}

/// What a `RequestBody` holds.
pub ghost enum BodyView {
    Text(Seq<char>),
    Fields(Map<String, serde_json::Value>),
}

impl View for RequestBody {
    type V = BodyView;

    open spec fn view(&self) -> BodyView {
        match self {
            RequestBody::String(s) => BodyView::Text(s@),
            RequestBody::Fields(m) => BodyView::Fields(m@),
        }
    }
}

/// The header fields that the engine knows by name.
pub struct RequestHeader {
    pub content_type: String,
    pub user_agent: String,
    pub host: String,
    pub content_length: u64,
}

/// What a `RequestHeader` holds.
pub ghost struct HeaderView {
    pub content_type: Seq<char>,
    pub user_agent: Seq<char>,
    pub host: Seq<char>,
    pub content_length: u64,
}

impl View for RequestHeader {
    type V = HeaderView;

    open spec fn view(&self) -> HeaderView {
        HeaderView {
            content_type: self.content_type@,
            user_agent: self.user_agent@,
            host: self.host@,
            content_length: self.content_length,
        }
    }
}

/// The header of a request that named no field: empty texts, length 0.
pub open spec fn empty_header() -> HeaderView {
    HeaderView {
        content_type: Seq::empty(),
        user_agent: Seq::empty(),
        host: Seq::empty(),
        content_length: 0,
    }
}

impl Default for RequestHeader {
    fn default() -> (h: Self)
        ensures
            h@ == empty_header(),
    {
        RequestHeader {
            content_type: String::new(),
            user_agent: String::new(),
            host: String::new(),
            content_length: 0,
        }
    }
}

/// Are the two texts the same?
pub fn same_text(a: &str, b: &str) -> (r: bool)
    ensures
        r == (a@ == b@),
{
    let x = String::from_str(a);
    let y = String::from_str(b);
    x == y
}

/// The character that parts the tokens of a request line.
pub open spec fn space() -> Seq<char> {
    seq![' ']
}

/// The two characters that part a header's name from its value.
pub open spec fn separator() -> Seq<char> {
    seq![':', ' ']
}

/// What stands before the first occurrence of `pat` in `s`: all of `s` where
/// there is none.
pub open spec fn before(s: Seq<char>, pat: Seq<char>) -> Seq<char> {
    s.subrange(0, find(s, pat))
}

/// What stands behind the first occurrence of `pat` in `s`, if there is one.
pub open spec fn behind(s: Seq<char>, pat: Seq<char>) -> Option<Seq<char>> {
    let i = find(s, pat);
    if i < s.len() {
        Some(s.subrange(i + pat.len(), s.len() as int))
    } else {
        None
    }
}

/// The method that a token names: GET and POST in capitals, and no other.
pub open spec fn token_method(token: Seq<char>) -> RequestType {
    if token == "GET"@ {
        RequestType::GET
    } else if token == "POST"@ {
        RequestType::POST
    } else {
        RequestType::UNDEFINED
    }
}

/// The method that a request line names: that of its first token.
pub open spec fn line_method(line: Seq<char>) -> RequestType {
    token_method(before(line, space()))
}

/// The path that a request line names: its second token, empty where the
/// line has one token only.
pub open spec fn line_path(line: Seq<char>) -> Seq<char> {
    match behind(line, space()) {
        Some(rest) => before(rest, space()),
        None => Seq::empty(),
    }
}

/// The header after one more header line. A line without the separator, one
/// with a name that the engine does not know, and a content length that is
/// no number of 64 bits all leave the header as it was.
pub open spec fn header_after(h: HeaderView, line: Seq<char>) -> HeaderView {
    let name = before(line, separator());
    match behind(line, separator()) {
        None => h,
        Some(value) => if name == "Content-Type"@ {
            HeaderView { content_type: value, ..h }
        } else if name == "User-Agent"@ {
            HeaderView { user_agent: value, ..h }
        } else if name == "Host"@ {
            HeaderView { host: value, ..h }
        } else if name == "Content-Length"@ {
            match parse_u64(value) {
                Some(n) => HeaderView { content_length: n, ..h },
                None => h,
            }
        } else {
            h
        },
    }
}

/// How a body is read, by the content type that the header declared.
pub enum BodyKind {
    Text,
    Json,
    Form,
    Other,
}

/// A content type that begins with `text/` is text; JSON and form data are
/// known by their exact names.
pub open spec fn body_kind(content_type: Seq<char>) -> BodyKind {
    if "text/"@.is_prefix_of(content_type) {
        BodyKind::Text
    } else if content_type == "application/json"@ {
        BodyKind::Json
    } else if content_type == "application/x-www-form-urlencoded"@ {
        BodyKind::Form
    } else {
        BodyKind::Other
    }
}

/// The fields of the JSON object that `text` writes; `None` where `text` is
/// no JSON object.
pub uninterp spec fn json_fields(text: Seq<char>) -> Option<Map<String, serde_json::Value>>;

/// The fields that `text` holds as form data; `None` where it is none.
pub uninterp spec fn form_fields(text: Seq<char>) -> Option<Map<String, serde_json::Value>>;

/// The body that `raw` decodes to under `content_type`. Text is kept as it
/// is. Under a content type of no known kind nothing is decoded: the
/// request keeps the body that it has, which `None` stands for.
pub open spec fn decoded_body(content_type: Seq<char>, raw: Seq<char>) -> Result<
    Option<BodyView>,
    BodyDecodeError,
> {
    match body_kind(content_type) {
        BodyKind::Text => Ok(Some(BodyView::Text(raw))),
        BodyKind::Json => match json_fields(raw) {
            Some(m) => Ok(Some(BodyView::Fields(m))),
            None => Err(BodyDecodeError::InvalidJson),
        },
        BodyKind::Form => match form_fields(raw) {
            Some(m) => Ok(Some(BodyView::Fields(m))),
            None => Err(BodyDecodeError::InvalidForm),
        },
        BodyKind::Other => Ok(None),
    }
}

/// Calls `serde_json::from_str` for a map from names to JSON values. The
/// outcome depends on the text alone: the fields on success, no fields on
/// any error.
#[verifier::external_body]
fn decode_json(body: &str) -> (r: Result<HashMap<String, serde_json::Value>, serde_json::Error>)
    ensures
        json_fields(body@) == match r {
            Ok(m) => Some(m@),
            Err(_) => None,
        },
{
    serde_json::from_str(body)
}

/// Calls `serde_urlencoded::from_str` for a map from names to values. The
/// outcome depends on the text alone: the fields on success, no fields on
/// any error.
#[verifier::external_body]
fn decode_form(body: &str) -> (r: Result<
    HashMap<String, serde_json::Value>,
    serde_urlencoded::de::Error,
>)
    ensures
        form_fields(body@) == match r {
            Ok(m) => Some(m@),
            Err(_) => None,
        },
{
    serde_urlencoded::from_str(body)
}

/// The body that a JSON decoding gave, or the error that stands for its
/// failure.
pub fn body_of_json(decoded: Result<HashMap<String, serde_json::Value>, serde_json::Error>) -> (r:
    Result<RequestBody, BodyDecodeError>)
    ensures
        match decoded {
            Ok(m) => r == Ok::<RequestBody, BodyDecodeError>(RequestBody::Fields(m)),
            Err(_) => r == Err::<RequestBody, BodyDecodeError>(BodyDecodeError::InvalidJson),
        },
{
    match decoded {
        Ok(m) => Ok(RequestBody::Fields(m)),
        Err(_) => Err(BodyDecodeError::InvalidJson),
    }
}

/// The body that a form decoding gave, or the error that stands for its
/// failure.
pub fn body_of_form(
    decoded: Result<HashMap<String, serde_json::Value>, serde_urlencoded::de::Error>,
) -> (r: Result<RequestBody, BodyDecodeError>)
    ensures
        match decoded {
            Ok(m) => r == Ok::<RequestBody, BodyDecodeError>(RequestBody::Fields(m)),
            Err(_) => r == Err::<RequestBody, BodyDecodeError>(BodyDecodeError::InvalidForm),
        },
{
    match decoded {
        Ok(m) => Ok(RequestBody::Fields(m)),
        Err(_) => Err(BodyDecodeError::InvalidForm),
    }
}

/// Cuts `s` at the first occurrence of `pat`: what stands before it, and
/// what stands behind it where it occurs.
pub fn cut<'a>(s: &'a str, pat: &Vec<char>) -> (r: (&'a str, Option<&'a str>))
    ensures
        r.0@ == before(s@, pat@),
        match r.1 {
            Some(rest) => behind(s@, pat@) == Some(rest@),
            None => behind(s@, pat@) is None,
        },
{
    let chars = chars_of(s);
    let i = find_in(&chars, pat);
    let head = s.substring_char(0, i);
    if i < chars.len() {
        (head, Some(s.substring_char(i + pat.len(), chars.len())))
    } else {
        (head, None)
    }
}

/// A request: its line, its header and its body.
pub struct HttpRequest {
    pub route: String,
    pub request_type: RequestType,
    pub header: RequestHeader,
    pub body: RequestBody,
}

/// What a `HttpRequest` holds.
pub ghost struct RequestView {
    pub route: Seq<char>,
    pub request_type: RequestType,
    pub header: HeaderView,
    pub body: BodyView,
}

impl View for HttpRequest {
    type V = RequestView;

    open spec fn view(&self) -> RequestView {
        RequestView {
            route: self.route@,
            request_type: self.request_type,
            header: self.header@,
            body: self.body@,
        }
    }
}

/// The request of which nothing has been read: no path, no method, the
/// empty header and an empty text for a body.
pub open spec fn empty_request() -> RequestView {
    RequestView {
        route: Seq::empty(),
        request_type: RequestType::UNDEFINED,
        header: empty_header(),
        body: BodyView::Text(Seq::empty()),
    }
}

impl HttpRequest {
    /// A request of which nothing has been read yet.
    pub fn new() -> (r: Self)
        ensures
            r@ == empty_request(),
    {
        HttpRequest {
            route: String::new(),
            request_type: RequestType::UNDEFINED,
            header: RequestHeader::default(),
            body: RequestBody::String(String::new()),
        }
    }

    /// Reads method and path from a request line. The tokens are parted by
    /// single spaces; what follows the second token is not looked at.
    pub fn parse_request_line(&mut self, line: &str)
        ensures
            final(self).request_type == line_method(line@),
            final(self).route@ == line_path(line@),
            final(self).header == old(self).header,
            final(self).body == old(self).body,
    {
        let mut sp: Vec<char> = Vec::new();
        sp.push(' ');
        assert(sp@ =~= space());
        let (token, rest) = cut(line, &sp);
        if same_text(token, "GET") {
            self.request_type = RequestType::GET;
        } else if same_text(token, "POST") {
            self.request_type = RequestType::POST;
        } else {
            self.request_type = RequestType::UNDEFINED;
        }
        match rest {
            Some(rest) => {
                let (path, _) = cut(rest, &sp);
                self.route = String::from_str(path);
            },
            None => {
                self.route = String::new();
            },
        }
    }

    /// Takes one header line into the header.
    pub fn parse_header(&mut self, line: &str)
        ensures
            final(self).header@ == header_after(old(self).header@, line@),
            final(self).route == old(self).route,
            final(self).request_type == old(self).request_type,
            final(self).body == old(self).body,
    {
        let mut sep: Vec<char> = Vec::new();
        sep.push(':');
        sep.push(' ');
        assert(sep@ =~= separator());
        let (name, rest) = cut(line, &sep);
        match rest {
            Some(value) => {
                if same_text(name, "Content-Type") {
                    self.header.content_type = String::from_str(value);
                } else if same_text(name, "User-Agent") {
                    self.header.user_agent = String::from_str(value);
                } else if same_text(name, "Host") {
                    self.header.host = String::from_str(value);
                } else if same_text(name, "Content-Length") {
                    let digits = chars_of(value);
                    match read_u64(&digits) {
                        Some(n) => {
                            self.header.content_length = n;
                        },
                        None => {},
                    }
                }
            },
            None => {},
        }
    }

    /// Which kind of body the header declares.
    pub fn declared_body_kind(&self) -> (k: BodyKind)
        ensures
            k == body_kind(self.header.content_type@),
    {
        let ct = chars_of(self.header.content_type.as_str());
        let text = chars_of("text/");
        if has_prefix(&ct, &text) {
            BodyKind::Text
        } else if same_text(self.header.content_type.as_str(), "application/json") {
            BodyKind::Json
        } else if same_text(self.header.content_type.as_str(), "application/x-www-form-urlencoded") {
            BodyKind::Form
        } else {
            BodyKind::Other
        }
    }

    /// Decodes the body as the header's content type asks. Under a content
    /// type of no known kind the payload is dropped and the request keeps
    /// the body that it had; so it does on an error.
    pub fn parse_body(&mut self, body: &str) -> (r: Result<(), BodyDecodeError>)
        ensures
            final(self).route == old(self).route,
            final(self).request_type == old(self).request_type,
            final(self).header == old(self).header,
            match decoded_body(old(self).header.content_type@, body@) {
                Ok(Some(b)) => r is Ok && final(self).body@ == b,
                Ok(None) => r is Ok && final(self).body == old(self).body,
                Err(e) => r == Err::<(), BodyDecodeError>(e) && final(self).body == old(self).body,
            },
    {
        let decoded = match self.declared_body_kind() {
            BodyKind::Text => Ok(RequestBody::String(String::from_str(body))),
            BodyKind::Json => body_of_json(decode_json(body)),
            BodyKind::Form => body_of_form(decode_form(body)),
            BodyKind::Other => {
                return Ok(());
            },
        };
        match decoded {
            Ok(b) => {
                self.body = b;
                Ok(())
            },
            Err(e) => Err(e),
        }
    }
}

/// `s` holds the character `c` nowhere.
pub open spec fn free_of(s: Seq<char>, c: char) -> bool {
    forall|i: int| 0 <= i < s.len() ==> s[i] != c
}

/// A request line that begins with a method and a path, one space between
/// them, gives back that method and that path, whether the line ends there
/// or goes on behind another space. Method and path hold no space.
pub proof fn lemma_request_line_recovers(method: Seq<char>, path: Seq<char>, tail: Seq<char>)
    requires
        free_of(method, ' '),
        free_of(path, ' '),
    ensures
        line_method(method + space() + path) == token_method(method),
        line_path(method + space() + path) == path,
        line_method(method + space() + (path + space() + tail)) == token_method(method),
        line_path(method + space() + (path + space() + tail)) == path,
{
    lemma_find_behind_clean_prefix(method, ' ', path);
    lemma_find_in_clean_text(path, ' ');
    assert(path.subrange(0, path.len() as int) =~= path);
    lemma_find_behind_clean_prefix(method, ' ', path + space() + tail);
    lemma_find_behind_clean_prefix(path, ' ', tail);
}

/// A line that begins with `GET` or `POST`, a space and a path gives that
/// method and that path; a line whose first token is neither gives
/// `UNDEFINED`.
pub proof fn lemma_method_of_request_line(path: Seq<char>, token: Seq<char>)
    requires
        free_of(path, ' '),
        free_of(token, ' '),
    ensures
        line_method("GET"@ + space() + path) == RequestType::GET,
        line_path("GET"@ + space() + path) == path,
        line_method("POST"@ + space() + path) == RequestType::POST,
        line_path("POST"@ + space() + path) == path,
        token != "GET"@ && token != "POST"@ ==> line_method(token + space() + path)
            == RequestType::UNDEFINED,
{
    reveal_strlit("GET");
    reveal_strlit("POST");
    lemma_request_line_recovers("GET"@, path, Seq::empty());
    lemma_request_line_recovers("POST"@, path, Seq::empty());
    lemma_request_line_recovers(token, path, Seq::empty());
}

/// A header line made of a name without a colon, the separator and a value
/// parts into that name and that value.
pub proof fn lemma_header_line_parts(name: Seq<char>, value: Seq<char>)
    requires
        free_of(name, ':'),
    ensures
        before(name + separator() + value, separator()) == name,
        behind(name + separator() + value, separator()) == Some(value),
{
    lemma_find_pair_behind_clean_prefix(name, ':', ' ', value);
}

/// Each of the four known fields is set by a line of its name, the
/// separator and its value, and that line changes no other field.
pub proof fn lemma_known_header_is_stored(h: HeaderView, value: Seq<char>)
    ensures
        header_after(h, "Content-Type"@ + separator() + value) == (HeaderView {
            content_type: value,
            ..h
        }),
        header_after(h, "User-Agent"@ + separator() + value) == (HeaderView {
            user_agent: value,
            ..h
        }),
        header_after(h, "Host"@ + separator() + value) == (HeaderView { host: value, ..h }),
        parse_u64(value) is Some ==> header_after(h, "Content-Length"@ + separator() + value) == (
        HeaderView { content_length: parse_u64(value)->0, ..h }),
{
    reveal_strlit("Content-Type");
    reveal_strlit("User-Agent");
    reveal_strlit("Host");
    reveal_strlit("Content-Length");
    lemma_header_line_parts("Content-Type"@, value);
    lemma_header_line_parts("User-Agent"@, value);
    lemma_header_line_parts("Host"@, value);
    lemma_header_line_parts("Content-Length"@, value);
}

/// A line with a name that is none of the four known ones leaves every
/// field as it was, and so does a line without the separator.
pub proof fn lemma_unknown_header_is_ignored(h: HeaderView, line: Seq<char>)
    requires
        ({
            let name = before(line, separator());
            ||| behind(line, separator()) is None
            ||| (name != "Content-Type"@ && name != "User-Agent"@ && name != "Host"@ && name
                != "Content-Length"@)
        }),
    ensures
        header_after(h, line) == h,
{
}

/// The header after each line of `lines` in turn.
pub open spec fn header_after_lines(h: HeaderView, lines: Seq<Seq<char>>) -> HeaderView
    decreases lines.len(),
{
    if lines.len() == 0 {
        h
    } else {
        header_after(header_after_lines(h, lines.drop_last()), lines.last())
    }
}

/// A body under a content type that begins with `text/` is kept as it is,
/// whatever it holds; `text/plain` is such a type.
pub proof fn lemma_text_body_is_kept(content_type: Seq<char>, raw: Seq<char>)
    ensures
        "text/"@.is_prefix_of(content_type) ==> decoded_body(content_type, raw) == Ok::<
            Option<BodyView>,
            BodyDecodeError,
        >(Some(BodyView::Text(raw))),
        decoded_body("text/plain"@, raw) == Ok::<Option<BodyView>, BodyDecodeError>(
            Some(BodyView::Text(raw)),
        ),
{
    reveal_strlit("text/");
    reveal_strlit("text/plain");
    assert("text/plain"@.subrange(0, 5) =~= "text/"@);
}

/// Under a content type that neither begins with `text/` nor names JSON or
/// form data, nothing is decoded, whatever the payload: no error, and the
/// body stays.
pub proof fn lemma_unknown_body_is_dropped(content_type: Seq<char>, raw: Seq<char>)
    requires
        !"text/"@.is_prefix_of(content_type),
        content_type != "application/json"@,
        content_type != "application/x-www-form-urlencoded"@,
    ensures
        decoded_body(content_type, raw) == Ok::<Option<BodyView>, BodyDecodeError>(None),
{
}

} // verus!
