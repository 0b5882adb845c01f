//! The response: its status, its message and the text that goes on the wire.

use crate::text::{decimal_string, decimal_text};
use vstd::prelude::*;
use vstd::string::*;

verus! {

/// The status of a response that nobody has set.
pub const DEFAULT_STATUS: u32 = 200;

/// The text of a response with status `code` and body `message`: the status
/// line, the content type, the length of the body in bytes, an empty line,
/// the body.
pub open spec fn response_text(code: u32, message: Seq<char>) -> Seq<char> {
    "HTTP/1.1 "@ + decimal_text(code as nat) + " OK\r\nContent-Type: text/plain\r\nContent-Length: "@
        + decimal_text(vstd::utf8::encode_utf8(message).len()) + "\r\n\r\n"@ + message
}

/// The text of the response to a request that no route answers: status 404
/// and a body of no bytes.
pub open spec fn not_found_text() -> Seq<char> {
    "HTTP/1.1 404 Not Found\r\nContent-Type: text/plain\r\nContent-length: 0\r\n\r\n"@
}

/// The response for a request that no route answers is made like every
/// response: a status line, the content type, the length of the body, a
/// blank line, the body. The length it declares is 0, and nothing stands
/// behind its blank line.
pub proof fn lemma_not_found_has_no_body()
    ensures
        not_found_text()
            == "HTTP/1.1 404 Not Found\r\nContent-Type: text/plain\r\nContent-length: "@
            + decimal_text(0) + "\r\n\r\n"@ + Seq::<char>::empty(),
{
    reveal_strlit(
        "HTTP/1.1 404 Not Found\r\nContent-Type: text/plain\r\nContent-length: 0\r\n\r\n",
    );
    reveal_strlit("HTTP/1.1 404 Not Found\r\nContent-Type: text/plain\r\nContent-length: ");
    reveal_strlit("\r\n\r\n");
    assert(decimal_text(0) =~= seq!['0']);
    assert(not_found_text()
        =~= "HTTP/1.1 404 Not Found\r\nContent-Type: text/plain\r\nContent-length: "@
        + decimal_text(0) + "\r\n\r\n"@ + Seq::<char>::empty());
}

/// What a `HttpResponse` holds.
pub ghost struct ResponseView {
    pub code: u32,
    pub message: Seq<char>,
    pub sent: bool,
}

/// A response in the making. Status and message can change until it is
/// sent; it is sent once.
pub struct HttpResponse {
    code: u32,
    message: String,
    sent: bool,
}

impl View for HttpResponse {
    type V = ResponseView;

    closed spec fn view(&self) -> ResponseView {
        ResponseView { code: self.code, message: self.message@, sent: self.sent }
    }
}

impl HttpResponse {
    /// A response with status 200 and an empty message, not sent.
    pub fn new() -> (r: Self)
        ensures
            r@ == (ResponseView { code: DEFAULT_STATUS, message: Seq::empty(), sent: false }),
    {
        HttpResponse { code: DEFAULT_STATUS, message: String::new(), sent: false }
    }

    /// Sets the status and hands the response back, for the call that
    /// follows.
    pub fn status(&mut self, status_code: u32) -> (r: &mut Self)
        ensures
            r@ == (ResponseView { code: status_code, ..old(self)@ }),
            *final(self) == *final(r),
    {
        self.code = status_code;
        self
    }

    /// The status as it stands.
    pub fn code(&self) -> (c: u32)
        ensures
            c == self@.code,
    {
        self.code
    }

    /// The message as it stands: empty until one is sent.
    pub fn message(&self) -> (m: &str)
        ensures
            m@ == self@.message,
    {
        self.message.as_str()
    }

    /// Has the response been sent?
    pub fn is_sent(&self) -> (b: bool)
        ensures
            b == self@.sent,
    {
        self.sent
    }

    /// Sends the fixed answer for a request that no route answers: its text
    /// is returned, once; a response that was sent before gives nothing and
    /// stays as it was.
    pub fn send_not_found(&mut self) -> (r: Option<String>)
        ensures
            final(self)@ == (ResponseView { sent: true, ..old(self)@ }),
            old(self)@.sent ==> r is None,
            !old(self)@.sent ==> r is Some && r->0@ == not_found_text(),
    {
        if self.sent {
            return None;
        }
        self.sent = true;
        Some(
            String::from_str(
                "HTTP/1.1 404 Not Found\r\nContent-Type: text/plain\r\nContent-length: 0\r\n\r\n",
            ),
        )
    }

    /// Sends `msg` under the status as it stands: the message is kept and
    /// the text of the response returned, once; a response that was sent
    /// before gives nothing and stays as it was.
    pub fn send(&mut self, msg: &str) -> (r: Option<String>)
        ensures
            old(self)@.sent ==> r is None && final(self)@ == old(self)@,
            !old(self)@.sent ==> r is Some && r->0@ == response_text(old(self)@.code, msg@)
                && final(self)@ == (ResponseView {
                code: old(self)@.code,
                message: msg@,
                sent: true,
            }),
    {
        if self.sent {
            return None;
        }
        self.message = String::from_str(msg);
        self.sent = true;
        let length: usize = msg.as_bytes().len();
        let mut out = String::from_str("HTTP/1.1 ");
        out.append(decimal_string(self.code as u64).as_str());
        out.append(" OK\r\nContent-Type: text/plain\r\nContent-Length: ");
        out.append(decimal_string(length as u64).as_str());
        out.append("\r\n\r\n");
        out.append(msg);
        Some(out)
    }
}

} // verus!
