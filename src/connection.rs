use vstd::prelude::*;
use vstd::string::StringExecFns;
use vstd::utf8::{decode_utf8, valid_utf8};
use crate::config::ServerConfig;
use crate::listing::{dec_chars, listing, push_dec, render_directory, DirEntry};
use crate::path::{resolution, resolve, within_root, Canonical};
use crate::request::HttpRequest;
use crate::response::HttpResponse;
use crate::status::{code_of, reason_of, HttpStatus, ServerError};

verus! {

/// What kind of filesystem object a resolved target is.
#[derive(Debug, Clone, Copy, PartialEq, Eq, Structural)]
pub enum TargetKind {
    Directory,
    File,
    Other,
}

/// Where a connection stands.
#[derive(Debug)]
pub enum Phase {
    ParseRequest,
    ResolvePath,
    /// The canonical target, under the root, whose kind is to be found out.
    Inspect(String),
    ServeDirectory(String),
    ServeFile(String),
    Done,
}

/// What the caller reports back after carrying out an action.
#[derive(Debug)]
pub enum Event {
    /// The request head was read and parsed.
    Parsed(Result<HttpRequest, ServerError>),
    /// The request path, joined under the root, was canonicalized.
    Canonicalized(Canonical),
    /// The kind of the target was read.
    Inspected(TargetKind),
    /// The directory's children were read.
    Listed(Vec<DirEntry>),
    /// The file's bytes were read.
    Read(Vec<u8>),
    /// Carrying out the action failed.
    Failed,
}

/// What the caller is to do next.
#[derive(Debug)]
pub enum Action {
    /// Join this request path under the root and canonicalize it.
    Canonicalize(String),
    /// Find out whether this path is a directory, a file or something else.
    Inspect(String),
    /// Read the children of this directory.
    ListDirectory(String),
    /// Read the bytes of this file.
    ReadFile(String),
    /// Write this response, then close the connection.
    Respond(HttpResponse),
    /// Close the connection without a response.
    Close,
}

/// The body of an error page.
pub open spec fn error_body(s: HttpStatus) -> Seq<char> {
    "<h1>"@ + dec_chars(code_of(s) as nat) + ": "@ + reason_of(s) + "</h1>"@
}

/// `r` is the error page of status `s`.
pub open spec fn is_error_response(r: HttpResponse, s: HttpStatus) -> bool {
    &&& r.status == s
    &&& r.headers@.len() == 0
    &&& r.body@ == error_body(s)
    &&& r.contents is None
}

/// `r` serves a file whose bytes are `b`: as text where they are valid UTF-8, else as binary.
pub open spec fn is_file_response(r: HttpResponse, b: Seq<u8>) -> bool {
    &&& r.status == HttpStatus::OK
    &&& r.headers@.len() == 0
    &&& if valid_utf8(b) {
        r.body@ == decode_utf8(b) && r.contents is None
    } else {
        r.body@.len() == 0 && (r.contents matches Some(c) && c@ == b)
    }
}

/// The path a phase carries, if any.
pub open spec fn phase_path(p: Phase) -> Option<Seq<char>> {
    match p {
        Phase::Inspect(s) => Some(s@),
        Phase::ServeDirectory(s) => Some(s@),
        Phase::ServeFile(s) => Some(s@),
        _ => None,
    }
}

/// The transitions of a connection: from phase `p`, on event `e`, the connection
/// moves to phase `q` and asks for action `a`.
pub open spec fn transition(root: Seq<char>, p: Phase, e: Event, q: Phase, a: Action) -> bool {
    match (p, e) {
        (_, Event::Failed) => q is Done && (a matches Action::Respond(r) && is_error_response(
            r,
            HttpStatus::InternalServerError,
        )),
        (Phase::ParseRequest, Event::Parsed(Err(_))) => q is Done && (a matches Action::Respond(r)
            && is_error_response(r, HttpStatus::InternalServerError)),
        (Phase::ParseRequest, Event::Parsed(Ok(req))) => q is ResolvePath && (
        a matches Action::Canonicalize(s) && s@ == req.path@),
        (Phase::ResolvePath, Event::Canonicalized(c)) => match resolution(root, c) {
            Ok(t) => (q matches Phase::Inspect(s) && s@ == t) && (a matches Action::Inspect(s2)
                && s2@ == t),
            Err(st) => q is Done && (a matches Action::Respond(r) && is_error_response(r, st)),
        },
        (Phase::Inspect(t), Event::Inspected(TargetKind::Directory)) => (
        q matches Phase::ServeDirectory(s) && s@ == t@) && (a matches Action::ListDirectory(s2)
            && s2@ == t@),
        (Phase::Inspect(t), Event::Inspected(TargetKind::File)) => (q matches Phase::ServeFile(s)
            && s@ == t@) && (a matches Action::ReadFile(s2) && s2@ == t@),
        (Phase::ServeDirectory(t), Event::Listed(es)) => q is Done && (a matches Action::Respond(r)
            && r.status == HttpStatus::OK && r.headers@.len() == 0 && r.contents is None && r.body@
            == listing(root, t@, es@)),
        (Phase::ServeFile(_), Event::Read(b)) => q is Done && (a matches Action::Respond(r)
            && is_file_response(r, b@)),
        _ => q is Done && a is Close,
    }
}

/// Relies on String::from_utf8: it succeeds exactly on valid UTF-8, with the text the bytes encode.
#[verifier::external_body]
fn utf8_text(bytes: &Vec<u8>) -> (r: Option<String>)
    ensures
        r is Some <==> valid_utf8(bytes@),
        r matches Some(s) ==> s@ == decode_utf8(bytes@),
{
    String::from_utf8(bytes.clone()).ok()
}

/// The response serving a file whose bytes are `bytes`: its text where they are
/// valid UTF-8, else the bytes themselves as binary contents.
pub fn file_response(bytes: Vec<u8>) -> (r: HttpResponse)
    ensures
        is_file_response(r, bytes@),
        r.wf(),
{
    match utf8_text(&bytes) {
        Some(text) => HttpResponse::text(HttpStatus::OK, text),
        None => HttpResponse::binary(HttpStatus::OK, bytes),
    }
}

/// The error page of status `s`.
pub fn error_response(s: HttpStatus) -> (r: HttpResponse)
    ensures
        is_error_response(r, s),
        r.wf(),
{
    let mut body = String::new();
    body.append("<h1>");
    push_dec(&mut body, s.code() as u64);
    body.append(": ");
    body.append(s.reason());
    body.append("</h1>");
    HttpResponse::text(s, body)
}

/// One connection: parse the request, resolve its path under the root, then
/// list the directory or read the file, and answer with exactly one response
/// (or none, for a target that is neither file nor directory).
pub struct Connection {
    root: String,
    phase: Phase,
}

impl Connection {
    pub closed spec fn root_view(&self) -> Seq<char> {
        self.root@
    }

    pub closed spec fn phase_view(&self) -> Phase {
        self.phase
    }

    /// The root is absolute, and any target the connection holds lies under it.
    pub closed spec fn wf(&self) -> bool {
        &&& self.root@.len() > 0
        &&& phase_path(self.phase) matches Some(t) ==> within_root(self.root@, t)
    }

    /// A new connection, waiting for its request.
    pub fn new(config: &ServerConfig) -> (r: Connection)
        requires
            config.wf(),
        ensures
            r.wf(),
            r.root_view() == config.root@,
            r.phase_view() is ParseRequest,
    {
        Connection { root: config.root.clone(), phase: Phase::ParseRequest }
    }

    /// Whether the connection has finished.
    pub fn is_done(&self) -> (r: bool)
        ensures
            r == self.phase_view() is Done,
    {
        matches!(self.phase, Phase::Done)
    }

    /// Takes the outcome of the last action and decides the next one.
    pub fn step(&mut self, e: Event) -> (a: Action)
        requires
            old(self).wf(),
        ensures
            final(self).wf(),
            final(self).root_view() == old(self).root_view(),
            transition(old(self).root_view(), old(self).phase_view(), e, final(self).phase_view(), a),
    {
        let mut phase = Phase::Done;
        core::mem::swap(&mut self.phase, &mut phase);
        match (phase, e) {
            (_, Event::Failed) => Action::Respond(error_response(HttpStatus::InternalServerError)),
            (Phase::ParseRequest, Event::Parsed(Err(_))) => Action::Respond(
                error_response(HttpStatus::InternalServerError),
            ),
            (Phase::ParseRequest, Event::Parsed(Ok(req))) => {
                self.phase = Phase::ResolvePath;
                Action::Canonicalize(req.path)
            },
            (Phase::ResolvePath, Event::Canonicalized(c)) => match resolve(self.root.as_str(), c) {
                Ok(t) => {
                    let t2 = t.clone();
                    self.phase = Phase::Inspect(t);
                    Action::Inspect(t2)
                },
                Err(st) => Action::Respond(error_response(st)),
            },
            (Phase::Inspect(t), Event::Inspected(TargetKind::Directory)) => {
                let t2 = t.clone();
                self.phase = Phase::ServeDirectory(t);
                Action::ListDirectory(t2)
            },
            (Phase::Inspect(t), Event::Inspected(TargetKind::File)) => {
                let t2 = t.clone();
                self.phase = Phase::ServeFile(t);
                Action::ReadFile(t2)
            },
            (Phase::ServeDirectory(t), Event::Listed(es)) => {
                let body = render_directory(self.root.as_str(), t.as_str(), &es);
                Action::Respond(HttpResponse::text(HttpStatus::OK, body))
            },
            (Phase::ServeFile(_), Event::Read(b)) => Action::Respond(file_response(b)),
            _ => Action::Close,
        }
    }
}

/// Containment: from a well-formed connection, whatever event comes, every path
/// the next action asks to inspect, list or read lies under the root, as does any
/// path the next phase holds, and a 200 response is only ever made for such a path.
pub proof fn lemma_containment(c: Connection, e: Event, d: Connection, a: Action)
    requires
        c.wf(),
        d.root_view() == c.root_view(),
        transition(c.root_view(), c.phase_view(), e, d.phase_view(), a),
    ensures
        a matches Action::Inspect(t) ==> within_root(c.root_view(), t@),
        a matches Action::ListDirectory(t) ==> within_root(c.root_view(), t@),
        a matches Action::ReadFile(t) ==> within_root(c.root_view(), t@),
        (a matches Action::Respond(r) && r.status == HttpStatus::OK) ==> (phase_path(
            c.phase_view(),
        ) matches Some(t) && within_root(c.root_view(), t)),
        phase_path(d.phase_view()) matches Some(t) ==> within_root(c.root_view(), t),
{
}

} // verus!
