//! The per-connection state machine.
//!
//! A connection serves requests strictly in sequence. The machine owns every
//! protocol decision: parsing the head lines, rejecting non-GET methods,
//! resolving the request path under the content root (with implicit-index
//! substitution), classifying the open outcome, and serializing the response
//! head. The driver around it only performs the I/O each action asks for and
//! hands the outcome back as the next event.

use vstd::prelude::*;
use vstd::utf8::encode_utf8;

use crate::headers::{canon_spec, insert_entry, HeaderMap};
use crate::readers::NoOp;
use crate::request::{
    parse_head_spec, parse_header_line, parse_header_line_spec, parse_request_line, Method,
    MethodView, ParseError,
};
use crate::response::{head_chars, ResponseBuilder};
use crate::status::{reason_spec, StatusCode};
use crate::strutil::{last_index_of, rfind_char, str_eq};

verus! {

/// The extension of the last path component: what follows its last dot,
/// none for a component without a dot or with the dot in front.
pub open spec fn ext_of(path: Seq<char>) -> Option<Seq<char>> {
    let comp = path.skip(last_index_of(path, '/') + 1);
    let d = last_index_of(comp, '.');
    if d <= 0 {
        None
    } else {
        Some(comp.skip(d + 1))
    }
}

/// The content type inferred from a path's extension, from the fixed table;
/// none for an unknown or absent extension.
pub open spec fn mime_of(path: Seq<char>) -> Option<Seq<char>> {
    match ext_of(path) {
        None => None,
        Some(e) => if e == "html"@ || e == "htm"@ {
            Some("text/html; charset=utf-8"@)
        } else if e == "txt"@ {
            Some("text/plain"@)
        } else if e == "css"@ {
            Some("text/css"@)
        } else if e == "js"@ {
            Some("application/javascript; charset=utf-8"@)
        } else if e == "png"@ {
            Some("image/png"@)
        } else if e == "jpg"@ || e == "jpeg"@ {
            Some("image/jpeg"@)
        } else if e == "webp"@ {
            Some("image/webp"@)
        } else {
            None
        },
    }
}

/// Infers the content type of a path from its extension.
pub fn mime_from_path(path: &str) -> (r: Option<&'static str>)
    ensures
        match r {
            Some(m) => mime_of(path@) == Some(m@),
            None => mime_of(path@) matches None::<Seq<char>>,
        },
{
    proof {
        crate::strutil::lemma_last_index_of(path@, '/');
    }
    let len = path.unicode_len();
    let comp = match rfind_char(path, '/') {
        Some(i) => {
            let c = path.substring_char(i + 1, len);
            proof {
                assert(c@ =~= path@.skip(last_index_of(path@, '/') + 1));
            }
            c
        },
        None => {
            proof {
                assert(path@ =~= path@.skip(last_index_of(path@, '/') + 1));
            }
            path
        },
    };
    let clen = comp.unicode_len();
    let ext = match rfind_char(comp, '.') {
        None => {
            return None;
        },
        Some(d) => {
            if d == 0 {
                return None;
            }
            let e = comp.substring_char(d + 1, clen);
            proof {
                assert(e@ =~= comp@.skip(last_index_of(comp@, '.') + 1));
            }
            e
        },
    };
    if str_eq(ext, "html") || str_eq(ext, "htm") {
        Some("text/html; charset=utf-8")
    } else if str_eq(ext, "txt") {
        Some("text/plain")
    } else if str_eq(ext, "css") {
        Some("text/css")
    } else if str_eq(ext, "js") {
        Some("application/javascript; charset=utf-8")
    } else if str_eq(ext, "png") {
        Some("image/png")
    } else if str_eq(ext, "jpg") || str_eq(ext, "jpeg") {
        Some("image/jpeg")
    } else if str_eq(ext, "webp") {
        Some("image/webp")
    } else {
        None
    }
}

/// A request path joined under the content root: one leading separator
/// stripped, and the root prepended.
pub open spec fn join_path(root: Seq<char>, path: Seq<char>) -> Seq<char> {
    let rel = if path.len() > 0 && path[0] == '/' {
        path.skip(1)
    } else {
        path
    };
    if rel.len() == 0 {
        root
    } else {
        root + "/"@ + rel
    }
}

/// Joins a request path under the content root.
pub fn resolve_path(root: &str, path: &str) -> (r: String)
    ensures
        r@ == join_path(root@, path@),
{
    let plen = path.unicode_len();
    let rel = if plen > 0 && path.get_char(0) == '/' {
        let rest = path.substring_char(1, plen);
        proof {
            assert(rest@ =~= path@.skip(1));
        }
        rest
    } else {
        path
    };
    if rel.unicode_len() == 0 {
        String::from_str(root)
    } else {
        let mut out = String::from_str(root);
        out.append("/");
        out.append(rel);
        out
    }
}

/// What opening the resolved path yielded: a file of so many bytes, no file,
/// or any other I/O failure.
#[derive(Clone, Copy, Debug, PartialEq, Eq, Structural)]
pub enum OpenOutcome {
    Opened(usize),
    NotFound,
    OtherError,
}

/// Why the connection closed.
#[derive(Clone, Copy, Debug, PartialEq, Eq, Structural)]
pub enum CloseReason {
    /// The peer finished cleanly: end of stream where a request would start.
    CleanEof,
    /// A malformed request line or header line; no response is attempted.
    ParseFailed(ParseError),
    /// The transport failed, or an event arrived that the state does not
    /// await.
    TransportFailed,
}

/// Where the connection stands.
pub enum ConnState {
    /// Awaiting the request line of the next request.
    AwaitRequest,
    /// Awaiting further header lines of the current request.
    ParsingHeaders { method: Method, proto: String, path: String, headers: HeaderMap },
    /// Awaiting the directory probe of the resolved path.
    AwaitProbe { path: String },
    /// Awaiting the outcome of opening the path.
    AwaitOpen { path: String },
    /// Awaiting the result of writing the response.
    Writing,
    /// The connection is finished.
    Closed,
}

/// The mathematical shape of a connection state.
pub enum StateView {
    AwaitRequest,
    ParsingHeaders {
        method: MethodView,
        proto: Seq<char>,
        path: Seq<char>,
        headers: Seq<(Seq<char>, Seq<Seq<char>>)>,
    },
    AwaitProbe { path: Seq<char> },
    AwaitOpen { path: Seq<char> },
    Writing,
    Closed,
}

impl View for ConnState {
    type V = StateView;

    open spec fn view(&self) -> StateView {
        match self {
            ConnState::AwaitRequest => StateView::AwaitRequest,
            ConnState::ParsingHeaders { method, proto, path, headers } => StateView::ParsingHeaders {
                method: method@,
                proto: proto@,
                path: path@,
                headers: headers@,
            },
            ConnState::AwaitProbe { path } => StateView::AwaitProbe { path: path@ },
            ConnState::AwaitOpen { path } => StateView::AwaitOpen { path: path@ },
            ConnState::Writing => StateView::Writing,
            ConnState::Closed => StateView::Closed,
        }
    }
}

/// What the driver reports back to the machine.
pub enum ConnEvent {
    /// A line was read; an empty one stands for the end of the stream.
    Line(String),
    /// Whether the resolved path is a directory.
    Probe(bool),
    /// The outcome of opening the path.
    Opened(OpenOutcome),
    /// Whether the response was written in full.
    Written(bool),
}

/// The mathematical shape of an event.
pub enum EventView {
    Line(Seq<char>),
    Probe(bool),
    Opened(OpenOutcome),
    Written(bool),
}

impl View for ConnEvent {
    type V = EventView;

    open spec fn view(&self) -> EventView {
        match self {
            ConnEvent::Line(l) => EventView::Line(l@),
            ConnEvent::Probe(d) => EventView::Probe(*d),
            ConnEvent::Opened(o) => EventView::Opened(*o),
            ConnEvent::Written(ok) => EventView::Written(*ok),
        }
    }
}

/// Where the bytes of a response body come from.
pub enum BodySource {
    /// The bytes themselves, held in memory.
    InMemory(Vec<u8>),
    /// The file the driver opened for the preceding open action.
    OpenedFile,
}

/// The mathematical shape of a body source.
pub enum BodyView {
    InMemory(Seq<u8>),
    OpenedFile,
}

impl View for BodySource {
    type V = BodyView;

    open spec fn view(&self) -> BodyView {
        match self {
            BodySource::InMemory(b) => BodyView::InMemory(b@),
            BodySource::OpenedFile => BodyView::OpenedFile,
        }
    }
}

/// What the driver must do next.
pub enum ConnAction {
    /// Read one line and report it.
    ReadLine,
    /// Report whether this path is a directory.
    ProbeDir(String),
    /// Open this path and report the outcome.
    OpenFile(String),
    /// Write this head, then the body, and report success.
    WriteResponse { head: String, body: BodySource },
    /// Close the connection.
    Close(CloseReason),
}

/// The mathematical shape of an action.
pub enum ActionView {
    ReadLine,
    ProbeDir(Seq<char>),
    OpenFile(Seq<char>),
    WriteResponse { head: Seq<char>, body: BodyView },
    Close(CloseReason),
}

impl View for ConnAction {
    type V = ActionView;

    open spec fn view(&self) -> ActionView {
        match self {
            ConnAction::ReadLine => ActionView::ReadLine,
            ConnAction::ProbeDir(p) => ActionView::ProbeDir(p@),
            ConnAction::OpenFile(p) => ActionView::OpenFile(p@),
            ConnAction::WriteResponse { head, body } => ActionView::WriteResponse {
                head: head@,
                body: body@,
            },
            ConnAction::Close(r) => ActionView::Close(*r),
        }
    }
}

/// The response for an error status: the reason phrase as body, its length
/// declared, no headers.
pub open spec fn error_action(sc: StatusCode) -> ActionView {
    ActionView::WriteResponse {
        head: head_chars(sc, Seq::empty(), encode_utf8(reason_spec(sc)).len()),
        body: BodyView::InMemory(encode_utf8(reason_spec(sc))),
    }
}

/// The headers of a successful file response: the inferred content type, if
/// any.
pub open spec fn file_headers(path: Seq<char>) -> Seq<(Seq<char>, Seq<Seq<char>>)> {
    match mime_of(path) {
        Some(m) => insert_entry(Seq::empty(), canon_spec("content-type"@), m),
        None => Seq::empty(),
    }
}

/// The 200 response for a file of `size` bytes at `path`: the driver streams
/// the opened file after the head.
pub open spec fn file_action(path: Seq<char>, size: nat) -> ActionView {
    ActionView::WriteResponse {
        head: head_chars(StatusCode::Okay, file_headers(path), size),
        body: BodyView::OpenedFile,
    }
}

/// The dispatch decision once a request is complete: non-GET methods are
/// rejected with 405; a GET resolves its path under the root and goes on to
/// the directory probe (with implicit index) or straight to the open.
pub open spec fn dispatch_spec(
    root: Seq<char>,
    implicit_index: bool,
    method: MethodView,
    path: Seq<char>,
) -> (StateView, ActionView) {
    if !(method matches MethodView::Get) {
        (StateView::Writing, error_action(StatusCode::MethodNotAllowed))
    } else {
        let joined = join_path(root, path);
        if implicit_index {
            (StateView::AwaitProbe { path: joined }, ActionView::ProbeDir(joined))
        } else {
            (StateView::AwaitOpen { path: joined }, ActionView::OpenFile(joined))
        }
    }
}

/// The transition relation of the connection machine: from a state and the
/// event it awaits to the next state and the next action. An event a state
/// does not await closes the connection as a transport fault.
pub open spec fn spec_step(
    root: Seq<char>,
    implicit_index: bool,
    s: StateView,
    e: EventView,
) -> (StateView, ActionView) {
    match (s, e) {
        (StateView::AwaitRequest, EventView::Line(l)) => match parse_head_spec(l) {
            Ok(None) => (StateView::Closed, ActionView::Close(CloseReason::CleanEof)),
            Err(pe) => (StateView::Closed, ActionView::Close(CloseReason::ParseFailed(pe))),
            Ok(Some(t)) => (
                StateView::ParsingHeaders {
                    method: t.2,
                    proto: t.0,
                    path: t.1,
                    headers: Seq::empty(),
                },
                ActionView::ReadLine,
            ),
        },
        (StateView::ParsingHeaders { method, proto, path, headers }, EventView::Line(l)) => match parse_header_line_spec(
            l,
        ) {
            Err(pe) => (StateView::Closed, ActionView::Close(CloseReason::ParseFailed(pe))),
            Ok(Some(kv)) => (
                StateView::ParsingHeaders {
                    method,
                    proto,
                    path,
                    headers: insert_entry(headers, canon_spec(kv.0), kv.1),
                },
                ActionView::ReadLine,
            ),
            Ok(None) => dispatch_spec(root, implicit_index, method, path),
        },
        (StateView::AwaitProbe { path }, EventView::Probe(is_dir)) => {
            let fp = if is_dir {
                path + "/index.html"@
            } else {
                path
            };
            (StateView::AwaitOpen { path: fp }, ActionView::OpenFile(fp))
        },
        (StateView::AwaitOpen { path }, EventView::Opened(o)) => match o {
            OpenOutcome::Opened(size) => (StateView::Writing, file_action(path, size as nat)),
            OpenOutcome::NotFound => (StateView::Writing, error_action(StatusCode::NotFound)),
            OpenOutcome::OtherError => (
                StateView::Writing,
                error_action(StatusCode::InternalServerError),
            ),
        },
        (StateView::Writing, EventView::Written(ok)) => if ok {
            (StateView::AwaitRequest, ActionView::ReadLine)
        } else {
            (StateView::Closed, ActionView::Close(CloseReason::TransportFailed))
        },
        _ => (StateView::Closed, ActionView::Close(CloseReason::TransportFailed)),
    }
}

/// The machine run over a sequence of events: the state it reaches and the
/// action each event produced, in order.
pub open spec fn run(
    root: Seq<char>,
    implicit_index: bool,
    s: StateView,
    evs: Seq<EventView>,
) -> (StateView, Seq<ActionView>)
    decreases evs.len(),
{
    if evs.len() == 0 {
        (s, Seq::empty())
    } else {
        let first = spec_step(root, implicit_index, s, evs[0]);
        let rest = run(root, implicit_index, first.0, evs.skip(1));
        (rest.0, seq![first.1] + rest.1)
    }
}

/// Running over `e1 + e2` is running over `e1`, then over `e2` from the state
/// reached, with the actions concatenated.
pub proof fn lemma_run_append(
    root: Seq<char>,
    implicit_index: bool,
    s: StateView,
    e1: Seq<EventView>,
    e2: Seq<EventView>,
)
    ensures
        run(root, implicit_index, s, e1 + e2).0 == run(
            root,
            implicit_index,
            run(root, implicit_index, s, e1).0,
            e2,
        ).0,
        run(root, implicit_index, s, e1 + e2).1 == run(root, implicit_index, s, e1).1 + run(
            root,
            implicit_index,
            run(root, implicit_index, s, e1).0,
            e2,
        ).1,
    decreases e1.len(),
{
    if e1.len() == 0 {
        assert(e1 + e2 =~= e2);
        assert(run(root, implicit_index, s, e1).1 + run(root, implicit_index, s, e2).1 =~= run(
            root,
            implicit_index,
            s,
            e2,
        ).1);
    } else {
        let first = spec_step(root, implicit_index, s, e1[0]);
        assert((e1 + e2)[0] == e1[0]);
        assert((e1 + e2).skip(1) =~= e1.skip(1) + e2);
        lemma_run_append(root, implicit_index, first.0, e1.skip(1), e2);
        let m = run(root, implicit_index, first.0, e1.skip(1));
        let tail = run(root, implicit_index, m.0, e2);
        assert(seq![first.1] + (m.1 + tail.1) =~= (seq![first.1] + m.1) + tail.1);
    }
}

/// Identical requests get identical responses: a cycle of events that brings
/// the machine back to awaiting a request produces, when repeated, the same
/// actions over again — in particular, two consecutive identical GET
/// exchanges on one connection are answered byte-identically.
pub proof fn lemma_idempotent(root: Seq<char>, implicit_index: bool, evs: Seq<EventView>)
    requires
        run(root, implicit_index, StateView::AwaitRequest, evs).0 == StateView::AwaitRequest,
    ensures
        run(root, implicit_index, StateView::AwaitRequest, evs + evs).1 == run(
            root,
            implicit_index,
            StateView::AwaitRequest,
            evs,
        ).1 + run(root, implicit_index, StateView::AwaitRequest, evs).1,
{
    lemma_run_append(root, implicit_index, StateView::AwaitRequest, evs, evs);
}

/// Any non-GET method is answered 405, whatever its path, version and
/// headers; and once that response is written, the machine awaits the next
/// request, so the connection stays usable.
pub proof fn lemma_non_get_rejected(
    root: Seq<char>,
    implicit_index: bool,
    method: MethodView,
    proto: Seq<char>,
    path: Seq<char>,
    headers: Seq<(Seq<char>, Seq<Seq<char>>)>,
    l: Seq<char>,
)
    requires
        !(method matches MethodView::Get),
        parse_header_line_spec(l) == Ok::<Option<(Seq<char>, Seq<char>)>, ParseError>(None),
    ensures
        spec_step(
            root,
            implicit_index,
            StateView::ParsingHeaders { method, proto, path, headers },
            EventView::Line(l),
        ) == (StateView::Writing, error_action(StatusCode::MethodNotAllowed)),
        spec_step(root, implicit_index, StateView::Writing, EventView::Written(true)) == (
            StateView::AwaitRequest,
            ActionView::ReadLine,
        ),
{
}

/// A missing file is answered 404; an opened file of `size` bytes is answered
/// 200 with exactly `size` declared in the head; any other open failure is
/// answered 500.
pub proof fn lemma_open_outcomes(root: Seq<char>, implicit_index: bool, path: Seq<char>, size: usize)
    ensures
        spec_step(
            root,
            implicit_index,
            StateView::AwaitOpen { path },
            EventView::Opened(OpenOutcome::NotFound),
        ) == (StateView::Writing, error_action(StatusCode::NotFound)),
        spec_step(
            root,
            implicit_index,
            StateView::AwaitOpen { path },
            EventView::Opened(OpenOutcome::Opened(size)),
        ) == (StateView::Writing, file_action(path, size as nat)),
        spec_step(
            root,
            implicit_index,
            StateView::AwaitOpen { path },
            EventView::Opened(OpenOutcome::OtherError),
        ) == (StateView::Writing, error_action(StatusCode::InternalServerError)),
{
}

/// A whole GET exchange, without implicit index: a request line naming GET
/// and a path, the blank terminator, a successful open of `size` bytes, and
/// a successful write serve exactly the file resolved under the root, with
/// `size` declared in the head, and leave the machine awaiting the next
/// request.
pub proof fn lemma_get_exchange(
    root: Seq<char>,
    l1: Seq<char>,
    l2: Seq<char>,
    proto: Seq<char>,
    path: Seq<char>,
    size: usize,
)
    requires
        parse_head_spec(l1) == Ok::<Option<(Seq<char>, Seq<char>, MethodView)>, ParseError>(
            Some((proto, path, MethodView::Get)),
        ),
        parse_header_line_spec(l2) == Ok::<Option<(Seq<char>, Seq<char>)>, ParseError>(None),
    ensures
        run(
            root,
            false,
            StateView::AwaitRequest,
            seq![
                EventView::Line(l1),
                EventView::Line(l2),
                EventView::Opened(OpenOutcome::Opened(size)),
                EventView::Written(true),
            ],
        ) == (
            StateView::AwaitRequest,
            seq![
                ActionView::ReadLine,
                ActionView::OpenFile(join_path(root, path)),
                file_action(join_path(root, path), size as nat),
                ActionView::ReadLine,
            ],
        ),
{
    let evs = seq![
        EventView::Line(l1),
        EventView::Line(l2),
        EventView::Opened(OpenOutcome::Opened(size)),
        EventView::Written(true),
    ];
    let joined = join_path(root, path);
    let s1 = StateView::ParsingHeaders {
        method: MethodView::Get,
        proto,
        path,
        headers: Seq::empty(),
    };
    let s2 = StateView::AwaitOpen { path: joined };
    assert(spec_step(root, false, StateView::AwaitRequest, evs[0]) == (s1, ActionView::ReadLine));
    assert(spec_step(root, false, s1, evs[1]) == (s2, ActionView::OpenFile(joined)));
    assert(spec_step(root, false, s2, evs[2]) == (
        StateView::Writing,
        file_action(joined, size as nat),
    ));
    assert(spec_step(root, false, StateView::Writing, evs[3]) == (
        StateView::AwaitRequest,
        ActionView::ReadLine,
    ));
    assert(evs.skip(1) =~= seq![evs[1], evs[2], evs[3]]);
    assert(seq![evs[1], evs[2], evs[3]].skip(1) =~= seq![evs[2], evs[3]]);
    assert(seq![evs[2], evs[3]].skip(1) =~= seq![evs[3]]);
    assert(seq![evs[3]].skip(1) =~= Seq::<EventView>::empty());
    assert(run(root, false, StateView::AwaitRequest, Seq::<EventView>::empty()) == (
        StateView::AwaitRequest,
        Seq::<ActionView>::empty(),
    ));
    let r3 = run(root, false, StateView::Writing, seq![evs[3]]);
    assert(r3.0 == StateView::AwaitRequest);
    assert(r3.1 =~= seq![ActionView::ReadLine]);
    let r2 = run(root, false, s2, seq![evs[2], evs[3]]);
    assert(r2.0 == StateView::AwaitRequest);
    assert(r2.1 =~= seq![file_action(joined, size as nat), ActionView::ReadLine]);
    let r1 = run(root, false, s1, seq![evs[1], evs[2], evs[3]]);
    assert(r1.0 == StateView::AwaitRequest);
    assert(r1.1 =~= seq![
        ActionView::OpenFile(joined),
        file_action(joined, size as nat),
        ActionView::ReadLine,
    ]);
    let r0 = run(root, false, StateView::AwaitRequest, evs);
    assert(r0.0 == StateView::AwaitRequest);
    assert(r0.1 =~= seq![
        ActionView::ReadLine,
        ActionView::OpenFile(joined),
        file_action(joined, size as nat),
        ActionView::ReadLine,
    ]);
}

/// Content-Length framing of error responses: the head declares exactly the
/// length of the reason-phrase body that follows it.
pub proof fn lemma_error_framing(sc: StatusCode)
    ensures
        error_action(sc) matches ActionView::WriteResponse { head, body: BodyView::InMemory(b) }
            && head == head_chars(sc, Seq::empty(), b.len()),
{
}

fn error_response(sc: StatusCode) -> (r: (String, Vec<u8>))
    ensures
        r.0@ == head_chars(sc, Seq::empty(), encode_utf8(reason_spec(sc)).len()),
        r.1@ == encode_utf8(reason_spec(sc)),
{
    let rb = ResponseBuilder::new().status_code(sc);
    let head = rb.render_head();
    let body = sc.reason().as_bytes_vec();
    (head, body)
}

/// One connection: the shared read-only configuration and where the exchange
/// stands.
pub struct Conn {
    content_root: String,
    implicit_index: bool,
    state: ConnState,
}

impl Conn {
    /// The content root every path resolves under.
    pub closed spec fn root(&self) -> Seq<char> {
        self.content_root@
    }

    /// Whether a directory is served through its index file.
    pub closed spec fn implicit(&self) -> bool {
        self.implicit_index
    }

    /// Where the machine stands.
    pub closed spec fn state(&self) -> StateView {
        self.state@
    }

    /// A fresh connection, awaiting its first request.
    pub fn new(content_root: String, implicit_index: bool) -> (c: Conn)
        ensures
            c.root() == content_root@,
            c.implicit() == implicit_index,
            c.state() == StateView::AwaitRequest,
    {
        Conn { content_root, implicit_index, state: ConnState::AwaitRequest }
    }

    /// Feeds the machine one event and yields the next action, as the
    /// transition relation prescribes.
    pub fn step(&mut self, event: ConnEvent) -> (a: ConnAction)
        ensures
            final(self).root() == old(self).root(),
            final(self).implicit() == old(self).implicit(),
            (final(self).state(), a@) == spec_step(
                old(self).root(),
                old(self).implicit(),
                old(self).state(),
                event@,
            ),
    {
        let mut st = ConnState::Closed;
        core::mem::swap(&mut st, &mut self.state);
        let (ns, action): (ConnState, ConnAction) = match (st, event) {
            (ConnState::AwaitRequest, ConnEvent::Line(l)) => match parse_request_line(l.as_str()) {
                Ok(None) => (ConnState::Closed, ConnAction::Close(CloseReason::CleanEof)),
                Err(e) => (ConnState::Closed, ConnAction::Close(CloseReason::ParseFailed(e))),
                Ok(Some((proto, path, method))) => (
                    ConnState::ParsingHeaders { method, proto, path, headers: HeaderMap::new() },
                    ConnAction::ReadLine,
                ),
            },
            (
                ConnState::ParsingHeaders { method, proto, path, mut headers },
                ConnEvent::Line(l),
            ) => match parse_header_line(l.as_str()) {
                Err(e) => (ConnState::Closed, ConnAction::Close(CloseReason::ParseFailed(e))),
                Ok(Some((k, v))) => {
                    headers.insert(k.as_str(), v.as_str());
                    (
                        ConnState::ParsingHeaders { method, proto, path, headers },
                        ConnAction::ReadLine,
                    )
                },
                Ok(None) => {
                    if !matches!(method, Method::Get) {
                        let (head, body) = error_response(StatusCode::MethodNotAllowed);
                        (
                            ConnState::Writing,
                            ConnAction::WriteResponse { head, body: BodySource::InMemory(body) },
                        )
                    } else {
                        let joined = resolve_path(self.content_root.as_str(), path.as_str());
                        if self.implicit_index {
                            (
                                ConnState::AwaitProbe { path: joined.clone() },
                                ConnAction::ProbeDir(joined),
                            )
                        } else {
                            (
                                ConnState::AwaitOpen { path: joined.clone() },
                                ConnAction::OpenFile(joined),
                            )
                        }
                    }
                },
            },
            (ConnState::AwaitProbe { path }, ConnEvent::Probe(is_dir)) => {
                let fp = if is_dir {
                    let mut p = path;
                    p.append("/index.html");
                    p
                } else {
                    path
                };
                (ConnState::AwaitOpen { path: fp.clone() }, ConnAction::OpenFile(fp))
            },
            (ConnState::AwaitOpen { path }, ConnEvent::Opened(o)) => match o {
                OpenOutcome::Opened(size) => {
                    let rb = match mime_from_path(path.as_str()) {
                        Some(m) => ResponseBuilder::new().add_header("content-type", m),
                        None => ResponseBuilder::new(),
                    };
                    let rb = rb.body(NoOp, size);
                    let head = rb.render_head();
                    (
                        ConnState::Writing,
                        ConnAction::WriteResponse { head, body: BodySource::OpenedFile },
                    )
                },
                OpenOutcome::NotFound => {
                    let (head, body) = error_response(StatusCode::NotFound);
                    (
                        ConnState::Writing,
                        ConnAction::WriteResponse { head, body: BodySource::InMemory(body) },
                    )
                },
                OpenOutcome::OtherError => {
                    let (head, body) = error_response(StatusCode::InternalServerError);
                    (
                        ConnState::Writing,
                        ConnAction::WriteResponse { head, body: BodySource::InMemory(body) },
                    )
                },
            },
            (ConnState::Writing, ConnEvent::Written(ok)) => if ok {
                (ConnState::AwaitRequest, ConnAction::ReadLine)
            } else {
                (ConnState::Closed, ConnAction::Close(CloseReason::TransportFailed))
            },
            _ => (ConnState::Closed, ConnAction::Close(CloseReason::TransportFailed)),
        };
        self.state = ns;
        action
    }
}

} // verus!
