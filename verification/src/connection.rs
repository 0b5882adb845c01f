//! One connection from its first line to its close: what to read next, when
//! to dispatch, what to write.

use crate::request::{
    decoded_body, empty_header, empty_request, header_after, header_after_lines, line_method,
    line_path,
    BodyDecodeError, BodyView, HttpRequest, RequestView,
};
use crate::text::chars_of;
use vstd::prelude::*;
use vstd::string::*;
use vstd::utf8::{decode_utf8, valid_utf8};

verus! {

/// Where a connection stands.
#[derive(Clone, Copy, Debug, PartialEq, Eq, Structural)]
pub enum Phase {
    AwaitingRequestLine,
    ParsingHeaders,
    ReadingBody,
    Dispatching,
    WritingResponse,
    Error,
    Closed,
}

/// What happened on the connection since the last step.
pub enum Event {
    /// A line was read: its bytes up to and with the line feed, or up to
    /// the end of the stream.
    Line(Vec<u8>),
    /// The body was read: the bytes that the stream gave.
    Body(Vec<u8>),
    /// Reading failed.
    ReadFailed,
    /// The request was answered: the text of the response.
    Response(String),
    /// The handler came back without a response.
    Unanswered,
    /// The response was written and flushed.
    Written,
    /// Writing failed.
    WriteFailed,
}

/// What is to be done on the connection next.
pub enum Action {
    /// Read one line.
    ReadLine,
    /// Read the body: as many bytes as given.
    ReadBody(u64),
    /// Resolve the request and let its handler answer it.
    Dispatch,
    /// Write this text and flush.
    Write(String),
    /// Close the connection.
    Close,
}

/// What an `Event` holds.
pub ghost enum EventView {
    Line(Seq<u8>),
    Body(Seq<u8>),
    ReadFailed,
    Response(Seq<char>),
    Unanswered,
    Written,
    WriteFailed,
}

/// What an `Action` holds.
pub ghost enum ActionView {
    ReadLine,
    ReadBody(u64),
    Dispatch,
    Write(Seq<char>),
    Close,
}

impl View for Event {
    type V = EventView;

    open spec fn view(&self) -> EventView {
        match self {
            Event::Line(b) => EventView::Line(b@),
            Event::Body(b) => EventView::Body(b@),
            Event::ReadFailed => EventView::ReadFailed,
            Event::Response(t) => EventView::Response(t@),
            Event::Unanswered => EventView::Unanswered,
            Event::Written => EventView::Written,
            Event::WriteFailed => EventView::WriteFailed,
        }
    }
}

impl View for Action {
    type V = ActionView;

    open spec fn view(&self) -> ActionView {
        match self {
            Action::ReadLine => ActionView::ReadLine,
            Action::ReadBody(n) => ActionView::ReadBody(*n),
            Action::Dispatch => ActionView::Dispatch,
            Action::Write(t) => ActionView::Write(t@),
            Action::Close => ActionView::Close,
        }
    }
}

/// The text of the response to a request that could not be read.
pub open spec fn bad_request_text() -> Seq<char> {
    "HTTP/1.1 400 Bad Request\r\nContent-Type: text/plain\r\nContent-Length: 0\r\n\r\n"@
}

/// `s` without the line feed at its end, and without the carriage return
/// before that line feed.
pub open spec fn strip_line_end(s: Seq<char>) -> Seq<char> {
    if s.len() > 0 && s.last() == '\n' {
        if s.len() > 1 && s[s.len() - 2] == '\r' {
            s.subrange(0, s.len() - 2)
        } else {
            s.subrange(0, s.len() - 1)
        }
    } else {
        s
    }
}

/// The text of a line of bytes, without its line end; `None` where the
/// bytes are no UTF-8.
pub open spec fn line_text(bytes: Seq<u8>) -> Option<Seq<char>> {
    if valid_utf8(bytes) {
        Some(strip_line_end(decode_utf8(bytes)))
    } else {
        None
    }
}

/// Why a connection gave up on its request, or could not answer it.
#[derive(Clone, Copy, Debug, PartialEq, Eq, Structural)]
pub enum ConnectionError {
    /// The request line is blank, or its bytes are no text.
    MalformedRequestLine,
    /// The bytes of a header line are no text.
    MalformedHeader,
    /// The stream gave another number of bytes for the body than the
    /// header declared.
    BodyReadShortfall,
    /// The bytes of the body are no text.
    MalformedBody,
    /// Reading from the connection failed.
    ReadError,
    /// The handler came back without a response.
    NoResponse,
    /// Something happened that the connection was not waiting for.
    UnexpectedEvent,
    /// Writing the response failed.
    WriteFailure,
}

/// What a `Connection` holds.
pub ghost struct ConnectionView {
    pub phase: Phase,
    pub request: RequestView,
    pub body_error: Option<BodyDecodeError>,
    pub failure: Option<ConnectionError>,
}

/// The connection gives up on its request for the reason `why`: it keeps
/// the reason and answers with status 400.
pub open spec fn failed(c: ConnectionView, why: ConnectionError) -> (ConnectionView, ActionView) {
    (
        ConnectionView { phase: Phase::Error, failure: Some(why), ..c },
        ActionView::Write(bad_request_text()),
    )
}

/// What an event stands for where the connection was waiting for another:
/// a failed read is a read error, anything else is unexpected.
pub open spec fn stray(e: EventView) -> ConnectionError {
    match e {
        EventView::ReadFailed => ConnectionError::ReadError,
        _ => ConnectionError::UnexpectedEvent,
    }
}

/// The step from the first line: a line of text that is not blank gives
/// method and path.
pub open spec fn after_request_line(c: ConnectionView, e: EventView) -> (
    ConnectionView,
    ActionView,
) {
    match e {
        EventView::Line(bytes) => match line_text(bytes) {
            Some(line) => if line.len() > 0 {
                (
                    ConnectionView {
                        phase: Phase::ParsingHeaders,
                        request: RequestView {
                            request_type: line_method(line),
                            route: line_path(line),
                            ..c.request
                        },
                        ..c
                    },
                    ActionView::ReadLine,
                )
            } else {
                failed(c, ConnectionError::MalformedRequestLine)
            },
            None => failed(c, ConnectionError::MalformedRequestLine),
        },
        _ => failed(c, stray(e)),
    }
}

/// The step from a header line: a blank line ends the header and asks for
/// the body, as long as the header said; any other line goes into the
/// header.
pub open spec fn after_header_line(c: ConnectionView, e: EventView) -> (
    ConnectionView,
    ActionView,
) {
    match e {
        EventView::Line(bytes) => match line_text(bytes) {
            Some(line) => if line.len() == 0 {
                (
                    ConnectionView { phase: Phase::ReadingBody, ..c },
                    ActionView::ReadBody(c.request.header.content_length),
                )
            } else {
                (
                    ConnectionView {
                        phase: Phase::ParsingHeaders,
                        request: RequestView {
                            header: header_after(c.request.header, line),
                            ..c.request
                        },
                        ..c
                    },
                    ActionView::ReadLine,
                )
            },
            None => failed(c, ConnectionError::MalformedHeader),
        },
        _ => failed(c, stray(e)),
    }
}

/// The step from the body: bytes of the length that the header said, that
/// are text, go on to the handler. Where they decode under the content
/// type, the request gets the body; where the content type is of no known
/// kind, the request keeps the body that it had; where they do not decode,
/// it keeps that body too, the connection keeps the error, and the handler
/// decides what to answer.
pub open spec fn after_body(c: ConnectionView, e: EventView) -> (ConnectionView, ActionView) {
    match e {
        EventView::Body(bytes) => if bytes.len() != c.request.header.content_length {
            failed(c, ConnectionError::BodyReadShortfall)
        } else if !valid_utf8(bytes) {
            failed(c, ConnectionError::MalformedBody)
        } else {
            match decoded_body(c.request.header.content_type, decode_utf8(bytes)) {
                Ok(Some(body)) => (
                    ConnectionView {
                        phase: Phase::Dispatching,
                        request: RequestView { body, ..c.request },
                        ..c
                    },
                    ActionView::Dispatch,
                ),
                Ok(None) => (ConnectionView { phase: Phase::Dispatching, ..c }, ActionView::Dispatch),
                Err(e) => (
                    ConnectionView { phase: Phase::Dispatching, body_error: Some(e), ..c },
                    ActionView::Dispatch,
                ),
            }
        },
        _ => failed(c, stray(e)),
    }
}

/// The step from dispatching: the response that the request got is to be
/// written; a handler that gave none makes the connection fail.
pub open spec fn after_dispatch(c: ConnectionView, e: EventView) -> (ConnectionView, ActionView) {
    match e {
        EventView::Response(text) => (
            ConnectionView { phase: Phase::WritingResponse, ..c },
            ActionView::Write(text),
        ),
        EventView::Unanswered => failed(c, ConnectionError::NoResponse),
        _ => failed(c, stray(e)),
    }
}

/// The step from writing: the connection closes, and keeps it where the
/// write failed.
pub open spec fn after_write(c: ConnectionView, e: EventView) -> (ConnectionView, ActionView) {
    match e {
        EventView::WriteFailed => (
            ConnectionView {
                phase: Phase::Closed,
                failure: Some(ConnectionError::WriteFailure),
                ..c
            },
            ActionView::Close,
        ),
        _ => (ConnectionView { phase: Phase::Closed, ..c }, ActionView::Close),
    }
}

/// One step of a connection: the connection and the action that follow
/// from connection `c` and event `e`. A connection that failed or closed
/// closes, and keeps the reason it has.
pub open spec fn step_of(c: ConnectionView, e: EventView) -> (ConnectionView, ActionView) {
    match c.phase {
        Phase::AwaitingRequestLine => after_request_line(c, e),
        Phase::ParsingHeaders => after_header_line(c, e),
        Phase::ReadingBody => after_body(c, e),
        Phase::Dispatching => after_dispatch(c, e),
        Phase::WritingResponse => after_write(c, e),
        _ => (ConnectionView { phase: Phase::Closed, ..c }, ActionView::Close),
    }
}

/// The connection after each event of `events` in turn.
pub open spec fn after_events(c: ConnectionView, events: Seq<EventView>) -> ConnectionView
    decreases events.len(),
{
    if events.len() == 0 {
        c
    } else {
        step_of(after_events(c, events.drop_last()), events.last()).0
    }
}

/// How many responses the steps through `events` ask to write.
pub open spec fn writes(c: ConnectionView, events: Seq<EventView>) -> nat
    decreases events.len(),
{
    if events.len() == 0 {
        0
    } else {
        let last = step_of(after_events(c, events.drop_last()), events.last()).1;
        writes(c, events.drop_last()) + if last is Write {
            1nat
        } else {
            0nat
        }
    }
}

/// A response is under way or done.
pub open spec fn answered(p: Phase) -> bool {
    p == Phase::WritingResponse || p == Phase::Error || p == Phase::Closed
}

/// A connection that has not answered yet asks for one response at most,
/// whatever happens on it, and it has asked for that one exactly when it
/// is writing, failed or closed: no request stays without a response, and
/// none gets two.
pub proof fn lemma_one_response(c: ConnectionView, events: Seq<EventView>)
    requires
        !answered(c.phase),
    ensures
        writes(c, events) <= 1,
        (writes(c, events) == 1) == answered(after_events(c, events).phase),
    decreases events.len(),
{
    if events.len() > 0 {
        lemma_one_response(c, events.drop_last());
    }
}

/// Whatever happens on a fresh connection, where it ends up failed it
/// holds the reason; before anything went wrong it holds none.
pub proof fn lemma_failed_connection_has_reason(events: Seq<EventView>)
    ensures
        after_events(fresh(), events).phase == Phase::Error ==> after_events(
            fresh(),
            events,
        ).failure is Some,
        !answered(after_events(fresh(), events).phase) ==> after_events(
            fresh(),
            events,
        ).failure is None,
    decreases events.len(),
{
    if events.len() > 0 {
        lemma_failed_connection_has_reason(events.drop_last());
    }
}

/// The events of reading `lines` one after the other.
pub open spec fn line_events(lines: Seq<Seq<u8>>) -> Seq<EventView> {
    Seq::new(lines.len(), |i: int| EventView::Line(lines[i]))
}

/// The texts of `lines`, each without its line end.
pub open spec fn line_texts(lines: Seq<Seq<u8>>) -> Seq<Seq<char>> {
    Seq::new(lines.len(), |i: int| strip_line_end(decode_utf8(lines[i])))
}

/// A connection that reads header lines, none of them blank, stays at the
/// header and holds what the lines give when taken in one after the other;
/// method, path and body stay as they were.
pub proof fn lemma_header_block_is_read(c: ConnectionView, lines: Seq<Seq<u8>>)
    requires
        c.phase == Phase::ParsingHeaders,
        forall|i: int|
            0 <= i < lines.len() ==> valid_utf8(#[trigger] lines[i]) && strip_line_end(
                decode_utf8(lines[i]),
            ).len() > 0,
    ensures
        after_events(c, line_events(lines)) == (ConnectionView {
            phase: Phase::ParsingHeaders,
            request: RequestView {
                header: header_after_lines(c.request.header, line_texts(lines)),
                ..c.request
            },
            ..c
        }),
    decreases lines.len(),
{
    if lines.len() > 0 {
        lemma_header_block_is_read(c, lines.drop_last());
        assert(line_events(lines).drop_last() =~= line_events(lines.drop_last()));
        assert(line_texts(lines).drop_last() =~= line_texts(lines.drop_last()));
        assert(valid_utf8(lines[lines.len() - 1]));
    }
}

/// Taking in two runs of events one after the other is taking in the two
/// as one run.
pub proof fn lemma_after_events_concat(c: ConnectionView, a: Seq<EventView>, b: Seq<EventView>)
    ensures
        after_events(c, a + b) == after_events(after_events(c, a), b),
    decreases b.len(),
{
    if b.len() == 0 {
        assert(a + b =~= a);
    } else {
        lemma_after_events_concat(c, a, b.drop_last());
        assert((a + b).drop_last() =~= a + b.drop_last());
        assert((a + b).last() == b.last());
    }
}

/// The connection on which nothing has been read.
pub open spec fn fresh() -> ConnectionView {
    ConnectionView {
        phase: Phase::AwaitingRequestLine,
        request: empty_request(),
        body_error: None,
        failure: None,
    }
}

/// The events of one whole request: its first line, its header lines, the
/// blank line and the body.
pub open spec fn request_events(
    first: Seq<u8>,
    headers: Seq<Seq<u8>>,
    blank: Seq<u8>,
    body: Seq<u8>,
) -> Seq<EventView> {
    seq![EventView::Line(first)] + line_events(headers) + seq![
        EventView::Line(blank),
        EventView::Body(body),
    ]
}

/// A request that comes whole is read whole: a first line that is not
/// blank, header lines that are not blank, a blank line and a body of the
/// length that the header gave, all of them text, leave a fresh connection
/// ready to dispatch, with the method and path of the first line, the
/// header that the lines give in turn, and the body as the content type
/// decodes it (the empty text where nothing is decoded, and the error kept
/// where decoding fails).
pub proof fn lemma_whole_request_is_read(
    first: Seq<u8>,
    headers: Seq<Seq<u8>>,
    blank: Seq<u8>,
    body: Seq<u8>,
)
    requires
        valid_utf8(first) && strip_line_end(decode_utf8(first)).len() > 0,
        forall|i: int|
            0 <= i < headers.len() ==> valid_utf8(#[trigger] headers[i]) && strip_line_end(
                decode_utf8(headers[i]),
            ).len() > 0,
        valid_utf8(blank) && strip_line_end(decode_utf8(blank)).len() == 0,
        valid_utf8(body),
        body.len() == header_after_lines(empty_header(), line_texts(headers)).content_length,
    ensures
        ({
            let line = strip_line_end(decode_utf8(first));
            let header = header_after_lines(empty_header(), line_texts(headers));
            let decoded = decoded_body(header.content_type, decode_utf8(body));
            after_events(fresh(), request_events(first, headers, blank, body)) == (ConnectionView {
                phase: Phase::Dispatching,
                request: RequestView {
                    request_type: line_method(line),
                    route: line_path(line),
                    header,
                    body: match decoded {
                        Ok(Some(b)) => b,
                        _ => BodyView::Text(Seq::empty()),
                    },
                },
                body_error: match decoded {
                    Ok(_) => None,
                    Err(e) => Some(e),
                },
                failure: None,
            })
        }),
{
    let start = seq![EventView::Line(first)];
    let end = seq![EventView::Line(blank), EventView::Body(body)];
    let c1 = after_events(fresh(), start);
    assert(start.drop_last() =~= Seq::<EventView>::empty());
    assert(after_events(fresh(), start.drop_last()) == fresh());
    assert(c1 == step_of(fresh(), EventView::Line(first)).0);
    lemma_header_block_is_read(c1, headers);
    let c2 = after_events(c1, line_events(headers));
    lemma_after_events_concat(fresh(), start, line_events(headers));
    lemma_after_events_concat(fresh(), start + line_events(headers), end);
    let one = seq![EventView::Line(blank)];
    assert(end.drop_last() =~= one);
    assert(one.drop_last() =~= Seq::<EventView>::empty());
    assert(after_events(c2, one.drop_last()) == c2);
    let c3 = after_events(c2, one);
    assert(c3 == step_of(c2, EventView::Line(blank)).0);
    assert(after_events(c2, end) == step_of(c3, EventView::Body(body)).0);
}

/// After the blank line the connection asks for as many bytes as the
/// header said, and a body of that many bytes under a content type that
/// begins with `text/` is handed on as it is.
pub proof fn lemma_text_body_is_dispatched(c: ConnectionView, bytes: Seq<u8>)
    requires
        c.phase == Phase::ReadingBody,
        "text/"@.is_prefix_of(c.request.header.content_type),
        bytes.len() == c.request.header.content_length,
        valid_utf8(bytes),
    ensures
        step_of(c, EventView::Body(bytes)) == ((
            ConnectionView {
                phase: Phase::Dispatching,
                request: RequestView { body: BodyView::Text(decode_utf8(bytes)), ..c.request },
                ..c
            },
            ActionView::Dispatch,
        )),
{
}

/// Calls `String::from_utf8`, which gives the text that the bytes encode,
/// and nothing where they are no UTF-8.
#[verifier::external_body]
fn text_of_bytes(bytes: Vec<u8>) -> (r: Option<String>)
    ensures
        match r {
            Some(s) => valid_utf8(bytes@) && s@ == decode_utf8(bytes@),
            None => !valid_utf8(bytes@),
        },
{
    String::from_utf8(bytes).ok()
}

/// Takes the line end off `s`.
pub fn strip_line(s: &str) -> (r: &str)
    ensures
        r@ == strip_line_end(s@),
{
    let chars = chars_of(s);
    let n: usize = chars.len();
    if n > 0 && chars[n - 1] == '\n' {
        if n > 1 && chars[n - 2] == '\r' {
            s.substring_char(0, n - 2)
        } else {
            s.substring_char(0, n - 1)
        }
    } else {
        s
    }
}

/// The text of a line of bytes, without its line end.
pub fn read_line_text(bytes: Vec<u8>) -> (r: Option<String>)
    ensures
        match r {
            Some(s) => line_text(bytes@) == Some(s@),
            None => line_text(bytes@) is None,
        },
{
    match text_of_bytes(bytes) {
        Some(text) => Some(String::from_str(strip_line(text.as_str()))),
        None => None,
    }
}

/// A connection: the phase it is in and the request as far as it is read.
pub struct Connection {
    phase: Phase,
    request: HttpRequest,
    body_error: Option<BodyDecodeError>,
    failure: Option<ConnectionError>,
}

impl View for Connection {
    type V = ConnectionView;

    closed spec fn view(&self) -> ConnectionView {
        ConnectionView {
            phase: self.phase,
            request: self.request@,
            body_error: self.body_error,
            failure: self.failure,
        }
    }
}

impl Connection {
    /// A connection on which nothing has been read.
    pub fn new() -> (c: Self)
        ensures
            c@ == fresh(),
    {
        Connection {
            phase: Phase::AwaitingRequestLine,
            request: HttpRequest::new(),
            body_error: None,
            failure: None,
        }
    }

    /// The phase of the connection.
    pub fn phase(&self) -> (p: Phase)
        ensures
            p == self@.phase,
    {
        self.phase
    }

    /// Why the body could not be decoded, where it could not.
    pub fn body_error(&self) -> (e: Option<BodyDecodeError>)
        ensures
            e == self@.body_error,
    {
        self.body_error
    }

    /// Why the connection failed, where it did.
    pub fn failure(&self) -> (e: Option<ConnectionError>)
        ensures
            e == self@.failure,
    {
        self.failure
    }

    /// The request as far as it is read.
    pub fn request(&self) -> (r: &HttpRequest)
        ensures
            r@ == self@.request,
    {
        &self.request
    }

    /// Gives the request away, for the handler that answers it.
    pub fn into_request(self) -> (r: HttpRequest)
        ensures
            r@ == self@.request,
    {
        self.request
    }

    /// Takes the request out, for the handler that answers it, and leaves
    /// an empty one; the phase stays.
    pub fn take_request(&mut self) -> (r: HttpRequest)
        ensures
            r@ == old(self)@.request,
            final(self)@ == (ConnectionView { request: empty_request(), ..old(self)@ }),
    {
        let mut r = HttpRequest::new();
        core::mem::swap(&mut self.request, &mut r);
        r
    }

    fn fail(&mut self, why: ConnectionError) -> (a: Action)
        ensures
            (final(self)@, a@) == failed(old(self)@, why),
    {
        self.phase = Phase::Error;
        self.failure = Some(why);
        Action::Write(
            String::from_str(
                "HTTP/1.1 400 Bad Request\r\nContent-Type: text/plain\r\nContent-Length: 0\r\n\r\n",
            ),
        )
    }

    fn fail_on_stray(&mut self, event: Event) -> (a: Action)
        ensures
            (final(self)@, a@) == failed(old(self)@, stray(event@)),
    {
        match event {
            Event::ReadFailed => self.fail(ConnectionError::ReadError),
            _ => self.fail(ConnectionError::UnexpectedEvent),
        }
    }

    fn on_request_line(&mut self, event: Event) -> (a: Action)
        ensures
            (final(self)@, a@) == after_request_line(old(self)@, event@),
    {
        match event {
            Event::Line(bytes) => match read_line_text(bytes) {
                Some(line) => {
                    if line.as_str().is_empty() {
                        self.fail(ConnectionError::MalformedRequestLine)
                    } else {
                        self.request.parse_request_line(line.as_str());
                        self.phase = Phase::ParsingHeaders;
                        Action::ReadLine
                    }
                },
                None => self.fail(ConnectionError::MalformedRequestLine),
            },
            other => self.fail_on_stray(other),
        }
    }

    fn on_header_line(&mut self, event: Event) -> (a: Action)
        ensures
            (final(self)@, a@) == after_header_line(old(self)@, event@),
    {
        match event {
            Event::Line(bytes) => match read_line_text(bytes) {
                Some(line) => {
                    if line.as_str().is_empty() {
                        self.phase = Phase::ReadingBody;
                        Action::ReadBody(self.request.header.content_length)
                    } else {
                        self.request.parse_header(line.as_str());
                        self.phase = Phase::ParsingHeaders;
                        Action::ReadLine
                    }
                },
                None => self.fail(ConnectionError::MalformedHeader),
            },
            other => self.fail_on_stray(other),
        }
    }

    fn on_body(&mut self, event: Event) -> (a: Action)
        ensures
            (final(self)@, a@) == after_body(old(self)@, event@),
    {
        match event {
            Event::Body(bytes) => {
                if bytes.len() as u64 != self.request.header.content_length {
                    return self.fail(ConnectionError::BodyReadShortfall);
                }
                match text_of_bytes(bytes) {
                    Some(text) => {
                        match self.request.parse_body(text.as_str()) {
                            Ok(_) => {},
                            Err(e) => {
                                self.body_error = Some(e);
                            },
                        }
                        self.phase = Phase::Dispatching;
                        Action::Dispatch
                    },
                    None => self.fail(ConnectionError::MalformedBody),
                }
            },
            other => self.fail_on_stray(other),
        }
    }

    fn on_dispatch(&mut self, event: Event) -> (a: Action)
        ensures
            (final(self)@, a@) == after_dispatch(old(self)@, event@),
    {
        match event {
            Event::Response(text) => {
                self.phase = Phase::WritingResponse;
                Action::Write(text)
            },
            Event::Unanswered => self.fail(ConnectionError::NoResponse),
            other => self.fail_on_stray(other),
        }
    }

    fn on_write(&mut self, event: Event) -> (a: Action)
        ensures
            (final(self)@, a@) == after_write(old(self)@, event@),
    {
        match event {
            Event::WriteFailed => {
                self.failure = Some(ConnectionError::WriteFailure);
            },
            _ => {},
        }
        self.phase = Phase::Closed;
        Action::Close
    }

    /// Takes one event and says what to do next. A request that cannot be
    /// read is answered with status 400, and the connection keeps why;
    /// once a response is under way, the next event closes the connection.
    pub fn step(&mut self, event: Event) -> (a: Action)
        ensures
            (final(self)@, a@) == step_of(old(self)@, event@),
    {
        match self.phase {
            Phase::AwaitingRequestLine => self.on_request_line(event),
            Phase::ParsingHeaders => self.on_header_line(event),
            Phase::ReadingBody => self.on_body(event),
            Phase::Dispatching => self.on_dispatch(event),
            Phase::WritingResponse => self.on_write(event),
            _ => {
                self.phase = Phase::Closed;
                Action::Close
            },
        }
    }
}

} // verus!
