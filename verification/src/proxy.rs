//! The decisions of one proxied connection, as a machine that names the
//! next I/O action and takes back what came of it: read the client's request
//! head, connect to the backend, send the head on with an `X-Forwarded-For`
//! header, pass the request body, read the backend's response head, send it
//! to the client with an `X-Backend` header, and pass the response body.

use vstd::prelude::*;
use crate::httperrors::HttpError;
use crate::httpheader::{
    backend_header, backend_text, body_len_of, forwarded_for_header, forwarded_for_text,
    has_no_line_break, head_text, line_view, Header,
};
use crate::httpmessage::{
    error_head, head_initial, head_step, with_header, HeadKind, HeadModel, HeadParser, HeadPhase,
    HttpResponse,
};

verus! {

/// The size of the buffer through which bodies pass.
pub const READ_BUFFER_SIZE: usize = 4096;

/// The stage a connection is at.
#[derive(Clone, Copy, PartialEq, Eq, Structural)]
pub enum ProxyPhase {
    /// Reading the request head from the client.
    RequestHead,
    /// Connecting to the backend.
    Connect,
    /// Sending the request head to the backend.
    SendRequest,
    /// Reading a piece of the request body from the client.
    ReadRequestBody,
    /// Writing that piece to the backend.
    WriteRequestBody,
    /// Reading the response head from the backend.
    ResponseHead,
    /// Sending the response head to the client.
    SendResponse,
    /// Reading a piece of the response body from the backend.
    ReadResponseBody,
    /// Writing that piece to the client.
    WriteResponseBody,
    /// Done, with or without an error.
    Finished,
}

/// The I/O that the connection needs next.
pub enum ProxyAction {
    /// Read one line from the client.
    ReadClientLine,
    /// Connect to the backend.
    ConnectBackend,
    /// Write this text to the backend.
    SendToBackend(String),
    /// Read up to `READ_BUFFER_SIZE` bytes from the client into the buffer.
    ReadClientBody,
    /// Write the first this many bytes of the buffer (those just read) to
    /// the backend.
    ForwardToBackend(usize),
    /// Read one line from the backend.
    ReadBackendLine,
    /// Write this text to the client.
    SendToClient(String),
    /// Read up to `READ_BUFFER_SIZE` bytes from the backend into the buffer.
    ReadBackendBody,
    /// Write the first this many bytes of the buffer (those just read) to
    /// the client.
    ForwardToClient(usize),
    /// Nothing more: the connection is handled.
    Finish,
}

/// What came of an action.
pub enum ProxyEvent {
    /// A line was read, or reading it failed for the reason given.
    Line(Result<String, &'static str>),
    /// A connection or a write succeeded.
    Done,
    /// This many bytes were read into the buffer.
    Read(usize),
    /// The I/O failed, with the error's text.
    Failed(String),
}

/// An action by the characters of its texts.
pub enum ActionModel {
    ReadClientLine,
    ConnectBackend,
    SendToBackend(Seq<char>),
    ReadClientBody,
    ForwardToBackend(nat),
    ReadBackendLine,
    SendToClient(Seq<char>),
    ReadBackendBody,
    ForwardToClient(nat),
    Finish,
}

/// An event by the characters of its texts.
pub enum EventModel {
    Line(Result<Seq<char>, Seq<char>>),
    Done,
    Read(nat),
    Failed(Seq<char>),
}

/// The state of a connection: its stage, the head parser in use, the
/// `X-Forwarded-For` and `X-Backend` header lines it adds, the head texts
/// sent on, the length of the body being passed, how much of it has passed
/// and how much the last read gave, whether the response head has gone to
/// the client, and the error that ended the connection.
pub struct ProxyModel {
    pub phase: ProxyPhase,
    pub head: HeadModel,
    pub forwarded_for: Seq<char>,
    pub backend_header: Seq<char>,
    pub forwarded: Seq<char>,
    pub reply: Seq<char>,
    pub length: nat,
    pub transferred: nat,
    pub last_read: nat,
    pub replied: bool,
    pub error: Option<(int, Seq<char>)>,
}

/// The decision machine of one connection.
pub struct ProxySession {
    phase: ProxyPhase,
    head: HeadParser,
    forwarded_for: String,
    backend_header: String,
    forwarded: String,
    reply: String,
    length: usize,
    transferred: usize,
    last_read: usize,
    replied: bool,
    error: Option<HttpError>,
}

/// An event by the characters of its texts.
pub open spec fn event_view(ev: ProxyEvent) -> EventModel {
    match ev {
        ProxyEvent::Line(l) => EventModel::Line(line_view(l)),
        ProxyEvent::Done => EventModel::Done,
        ProxyEvent::Read(n) => EventModel::Read(n as nat),
        ProxyEvent::Failed(t) => EventModel::Failed(t@),
    }
}

/// An action by the characters of its texts.
pub open spec fn action_view(a: ProxyAction) -> ActionModel {
    match a {
        ProxyAction::ReadClientLine => ActionModel::ReadClientLine,
        ProxyAction::ConnectBackend => ActionModel::ConnectBackend,
        ProxyAction::SendToBackend(t) => ActionModel::SendToBackend(t@),
        ProxyAction::ReadClientBody => ActionModel::ReadClientBody,
        ProxyAction::ForwardToBackend(n) => ActionModel::ForwardToBackend(n as nat),
        ProxyAction::ReadBackendLine => ActionModel::ReadBackendLine,
        ProxyAction::SendToClient(t) => ActionModel::SendToClient(t@),
        ProxyAction::ReadBackendBody => ActionModel::ReadBackendBody,
        ProxyAction::ForwardToClient(n) => ActionModel::ForwardToClient(n as nat),
        ProxyAction::Finish => ActionModel::Finish,
    }
}


/// A connection that has not done anything yet.
pub open spec fn proxy_initial(client: Seq<char>, backend: Seq<char>) -> ProxyModel {
    ProxyModel {
        phase: ProxyPhase::RequestHead,
        head: head_initial(HeadKind::Request),
        forwarded_for: forwarded_for_text(client),
        backend_header: backend_text(backend),
        forwarded: Seq::empty(),
        reply: Seq::empty(),
        length: 0,
        transferred: 0,
        last_read: 0,
        replied: false,
        error: None,
    }
}

/// The connection ends with the error `code`, `prefix` followed by `detail`.
pub open spec fn finish_with(m: ProxyModel, code: int, prefix: Seq<char>, detail: Seq<char>) -> ProxyModel {
    ProxyModel { phase: ProxyPhase::Finished, error: Some((code, prefix + detail)), ..m }
}

/// After a piece of the request body has passed (or none was due): read
/// more while less than the announced length has passed, else go on to the
/// response.
pub open spec fn after_request_piece(m: ProxyModel) -> ProxyModel {
    if m.transferred < m.length {
        ProxyModel { phase: ProxyPhase::ReadRequestBody, ..m }
    } else {
        ProxyModel { phase: ProxyPhase::ResponseHead, ..m }
    }
}

/// After a piece of the response body has passed (or none was due): read
/// more while less than the announced length has passed, else the
/// connection is done.
pub open spec fn after_response_piece(m: ProxyModel) -> ProxyModel {
    if m.transferred < m.length {
        ProxyModel { phase: ProxyPhase::ReadResponseBody, ..m }
    } else {
        ProxyModel { phase: ProxyPhase::Finished, ..m }
    }
}

/// What an event does to a connection. An event that does not answer the
/// action of the connection's stage changes nothing.
pub open spec fn proxy_step(m: ProxyModel, ev: EventModel) -> ProxyModel {
    match (m.phase, ev) {
        (ProxyPhase::RequestHead, EventModel::Line(l)) => {
            let h = head_step(m.head, l);
            match h.phase {
                HeadPhase::Complete => {
                    let req = with_header(h.head, m.forwarded_for);
                    ProxyModel {
                        phase: ProxyPhase::Connect,
                        head: head_initial(HeadKind::Response),
                        forwarded: head_text(req.start_line, req.headers),
                        length: body_len_of(req.headers) as nat,
                        transferred: 0,
                        ..m
                    }
                },
                HeadPhase::Failed(e) => ProxyModel {
                    head: head_initial(HeadKind::Response),
                    ..finish_with(m, 400, "Malformed request: "@, e)
                },
                _ => ProxyModel { head: h, ..m },
            }
        },
        (ProxyPhase::Connect, EventModel::Done) => ProxyModel { phase: ProxyPhase::SendRequest, ..m },
        (ProxyPhase::Connect, EventModel::Failed(t)) => finish_with(m, 504, "Gateway timeout: "@, t),
        (ProxyPhase::SendRequest, EventModel::Done) => after_request_piece(m),
        (ProxyPhase::SendRequest, EventModel::Failed(t)) => finish_with(
            m,
            504,
            "Gateway timeout: "@,
            t,
        ),
        (ProxyPhase::ReadRequestBody, EventModel::Read(n)) => ProxyModel {
            phase: ProxyPhase::WriteRequestBody,
            transferred: m.transferred + n,
            last_read: n,
            ..m
        },
        (ProxyPhase::ReadRequestBody, EventModel::Failed(t)) => finish_with(
            m,
            408,
            "Client timeout: "@,
            t,
        ),
        (ProxyPhase::WriteRequestBody, EventModel::Done) => after_request_piece(m),
        (ProxyPhase::WriteRequestBody, EventModel::Failed(t)) => finish_with(
            m,
            504,
            "Gateway timeout: "@,
            t,
        ),
        (ProxyPhase::ResponseHead, EventModel::Line(l)) => {
            let h = head_step(m.head, l);
            match h.phase {
                HeadPhase::Complete => {
                    let resp = with_header(h.head, m.backend_header);
                    ProxyModel {
                        phase: ProxyPhase::SendResponse,
                        head: head_initial(HeadKind::Response),
                        reply: head_text(resp.start_line, resp.headers),
                        length: body_len_of(resp.headers) as nat,
                        transferred: 0,
                        ..m
                    }
                },
                HeadPhase::Failed(e) => ProxyModel {
                    head: head_initial(HeadKind::Response),
                    ..finish_with(m, 502, "Bad gateway: "@, e)
                },
                _ => ProxyModel { head: h, ..m },
            }
        },
        (ProxyPhase::SendResponse, EventModel::Done) => after_response_piece(
            ProxyModel { replied: true, ..m },
        ),
        (ProxyPhase::SendResponse, EventModel::Failed(_)) => after_response_piece(
            ProxyModel { replied: true, ..m },
        ),
        (ProxyPhase::ReadResponseBody, EventModel::Read(n)) => ProxyModel {
            phase: ProxyPhase::WriteResponseBody,
            transferred: m.transferred + n,
            last_read: n,
            ..m
        },
        (ProxyPhase::ReadResponseBody, EventModel::Failed(t)) => finish_with(
            m,
            504,
            "Gateway timeout: "@,
            t,
        ),
        (ProxyPhase::WriteResponseBody, EventModel::Done) => after_response_piece(m),
        (ProxyPhase::WriteResponseBody, EventModel::Failed(t)) => finish_with(
            m,
            408,
            "Client timeout: "@,
            t,
        ),
        _ => m,
    }
}

/// The action that a connection's stage calls for. A piece of a body is
/// passed on as the bytes that the last read gave, no more.
pub open spec fn proxy_action(m: ProxyModel) -> ActionModel {
    match m.phase {
        ProxyPhase::RequestHead => ActionModel::ReadClientLine,
        ProxyPhase::Connect => ActionModel::ConnectBackend,
        ProxyPhase::SendRequest => ActionModel::SendToBackend(m.forwarded),
        ProxyPhase::ReadRequestBody => ActionModel::ReadClientBody,
        ProxyPhase::WriteRequestBody => ActionModel::ForwardToBackend(m.last_read),
        ProxyPhase::ResponseHead => ActionModel::ReadBackendLine,
        ProxyPhase::SendResponse => ActionModel::SendToClient(m.reply),
        ProxyPhase::ReadResponseBody => ActionModel::ReadBackendBody,
        ProxyPhase::WriteResponseBody => ActionModel::ForwardToClient(m.last_read),
        ProxyPhase::Finished => ActionModel::Finish,
    }
}

/// The text of the reply that reports `error` to the client: the head of
/// `HttpResponse::from_error(error)`.
pub fn error_reply(error: HttpError) -> (s: String)
    ensures
        s@ == head_text(
            error_head(error.code as int, error.message@).start_line,
            error_head(error.code as int, error.message@).headers,
        ),
{
    HttpResponse::from_error(error).as_string()
}

impl View for ProxySession {
    type V = ProxyModel;

    closed spec fn view(&self) -> ProxyModel {
        ProxyModel {
            phase: self.phase,
            head: self.head@,
            forwarded_for: self.forwarded_for@,
            backend_header: self.backend_header@,
            forwarded: self.forwarded@,
            reply: self.reply@,
            length: self.length as nat,
            transferred: self.transferred as nat,
            last_read: self.last_read as nat,
            replied: self.replied,
            error: match self.error {
                Some(e) => Some((e.code as int, e.message@)),
                None => None,
            },
        }
    }
}

impl ProxySession {
    /// A connection from the client at `client_addr`, to be passed to
    /// `backend`. Neither may hold a line break, since each goes into a
    /// header line.
    pub fn new(client_addr: &str, backend: &str) -> (s: ProxySession)
        requires
            has_no_line_break(client_addr@),
            has_no_line_break(backend@),
        ensures
            s@ == proxy_initial(client_addr@, backend@),
    {
        ProxySession {
            phase: ProxyPhase::RequestHead,
            head: HeadParser::new(HeadKind::Request),
            forwarded_for: forwarded_for_header(client_addr).0,
            backend_header: backend_header(backend).0,
            forwarded: String::new(),
            reply: String::new(),
            length: 0,
            transferred: 0,
            last_read: 0,
            replied: false,
            error: None,
        }
    }

    /// The action that the connection needs next.
    pub fn next_action(&self) -> (a: ProxyAction)
        ensures
            action_view(a) == proxy_action(self@),
    {
        match self.phase {
            ProxyPhase::RequestHead => ProxyAction::ReadClientLine,
            ProxyPhase::Connect => ProxyAction::ConnectBackend,
            ProxyPhase::SendRequest => ProxyAction::SendToBackend(self.forwarded.clone()),
            ProxyPhase::ReadRequestBody => ProxyAction::ReadClientBody,
            ProxyPhase::WriteRequestBody => ProxyAction::ForwardToBackend(self.last_read),
            ProxyPhase::ResponseHead => ProxyAction::ReadBackendLine,
            ProxyPhase::SendResponse => ProxyAction::SendToClient(self.reply.clone()),
            ProxyPhase::ReadResponseBody => ProxyAction::ReadBackendBody,
            ProxyPhase::WriteResponseBody => ProxyAction::ForwardToClient(self.last_read),
            ProxyPhase::Finished => ProxyAction::Finish,
        }
    }

    /// How many bytes of the body being passed have passed so far.
    pub fn transferred(&self) -> (n: usize)
        ensures
            n == self@.transferred,
    {
        self.transferred
    }

    /// Whether the connection ended with an error that is still to be
    /// reported to the client: no response head has gone to it yet.
    pub fn error_reply_due(&self) -> (b: bool)
        ensures
            b == (self@.error is Some && !self@.replied),
    {
        self.error.is_some() && !self.replied
    }

    /// Whether the connection is done.
    pub fn is_finished(&self) -> (b: bool)
        ensures
            b == (self@.phase == ProxyPhase::Finished),
    {
        self.phase == ProxyPhase::Finished
    }

    /// Takes what came of the last action. A read gives at most a buffer's
    /// worth of bytes and adds them to the bytes passed, which must stay
    /// within `usize`.
    pub fn handle(&mut self, ev: ProxyEvent)
        requires
            ev matches ProxyEvent::Read(n) ==> n <= READ_BUFFER_SIZE && old(self)@.transferred + n
                <= usize::MAX,
        ensures
            final(self)@ == proxy_step(old(self)@, event_view(ev)),
    {
        match ev {
            ProxyEvent::Line(l) => {
                if self.phase == ProxyPhase::RequestHead {
                    self.head.feed(l);
                    if self.head.is_finished() {
                        let mut done = HeadParser::new(HeadKind::Response);
                        std::mem::swap(&mut done, &mut self.head);
                        match done.into_request() {
                            Ok(mut request) => {
                                request.add_header(Header(self.forwarded_for.clone()));
                                self.forwarded = request.as_string();
                                self.length = request.body_length();
                                self.transferred = 0;
                                self.phase = ProxyPhase::Connect;
                            },
                            Err(e) => {
                                self.error = Some(e);
                                self.phase = ProxyPhase::Finished;
                            },
                        }
                    }
                } else if self.phase == ProxyPhase::ResponseHead {
                    self.head.feed(l);
                    if self.head.is_finished() {
                        let mut done = HeadParser::new(HeadKind::Response);
                        std::mem::swap(&mut done, &mut self.head);
                        match done.into_response() {
                            Ok(mut response) => {
                                response.add_header(Header(self.backend_header.clone()));
                                self.reply = response.as_string();
                                self.length = response.body_length();
                                self.transferred = 0;
                                self.phase = ProxyPhase::SendResponse;
                            },
                            Err(e) => {
                                self.error = Some(e);
                                self.phase = ProxyPhase::Finished;
                            },
                        }
                    }
                }
            },
            ProxyEvent::Done => {
                match self.phase {
                    ProxyPhase::Connect => {
                        self.phase = ProxyPhase::SendRequest;
                    },
                    ProxyPhase::SendRequest | ProxyPhase::WriteRequestBody => {
                        self.phase = if self.transferred < self.length {
                            ProxyPhase::ReadRequestBody
                        } else {
                            ProxyPhase::ResponseHead
                        };
                    },
                    ProxyPhase::SendResponse | ProxyPhase::WriteResponseBody => {
                        if self.phase == ProxyPhase::SendResponse {
                            self.replied = true;
                        }
                        self.phase = if self.transferred < self.length {
                            ProxyPhase::ReadResponseBody
                        } else {
                            ProxyPhase::Finished
                        };
                    },
                    _ => {},
                }
            },
            ProxyEvent::Read(n) => {
                if self.phase == ProxyPhase::ReadRequestBody {
                    self.transferred = self.transferred + n;
                    self.last_read = n;
                    self.phase = ProxyPhase::WriteRequestBody;
                } else if self.phase == ProxyPhase::ReadResponseBody {
                    self.transferred = self.transferred + n;
                    self.last_read = n;
                    self.phase = ProxyPhase::WriteResponseBody;
                }
            },
            ProxyEvent::Failed(t) => {
                match self.phase {
                    ProxyPhase::Connect | ProxyPhase::SendRequest | ProxyPhase::WriteRequestBody
                    | ProxyPhase::ReadResponseBody => {
                        self.finish(504, "Gateway timeout: ", t.as_str());
                    },
                    ProxyPhase::ReadRequestBody | ProxyPhase::WriteResponseBody => {
                        self.finish(408, "Client timeout: ", t.as_str());
                    },
                    ProxyPhase::SendResponse => {
                        self.replied = true;
                        self.phase = if self.transferred < self.length {
                            ProxyPhase::ReadResponseBody
                        } else {
                            ProxyPhase::Finished
                        };
                    },
                    _ => {},
                }
            },
        }
    }

    /// How the connection ended: `Ok(())`, or the error that ended it.
    pub fn into_outcome(self) -> (r: Result<(), HttpError>)
        requires
            self@.phase == ProxyPhase::Finished,
        ensures
            match self@.error {
                None => r is Ok,
                Some((code, message)) => r matches Err(e) && e.code == code && e.message@ == message,
            },
    {
        match self.error {
            Some(e) => Err(e),
            None => Ok(()),
        }
    }

    fn finish(&mut self, code: i32, prefix: &str, detail: &str)
        ensures
            final(self)@ == finish_with(old(self)@, code as int, prefix@, detail@),
    {
        self.error = Some(HttpError::with_detail(code, prefix, detail));
        self.phase = ProxyPhase::Finished;
    }
}

} // verus!
