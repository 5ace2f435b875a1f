use vstd::prelude::*;
use crate::tools::{
    CREATE_DIRECTORY, GET_FILE_INFO, LIST_ALLOWED_DIRECTORIES, LIST_DIRECTORY, MOVE_FILE,
    READ_FILE, READ_MULTIPLE_FILES, SEARCH_FILES, WRITE_FILE,
};
use crate::types::CallToolResponse;

verus! {

/// The protocol methods the server can bind.
#[derive(Debug, Clone, Copy, PartialEq, Eq, Structural)]
pub enum Method {
    ListTools,
    CallTool,
}

/// Protocol-level failures of one request.
#[derive(Debug, Clone, Copy, PartialEq, Eq, Structural)]
pub enum ProtocolError {
    /// The frame is not a well-formed request.
    ParseError,
    /// No handler is bound to the method.
    MethodNotFound,
    /// A handler exists, but the method is outside the negotiated capabilities.
    MethodNotAllowed,
}

/// Why a binding was refused.
#[derive(Debug, Clone, Copy, PartialEq, Eq, Structural)]
pub enum RegisterError {
    /// The method name is bound already; bindings are never replaced.
    AlreadyBound,
}

/// The tools a `tools/call` request can name.
#[derive(Debug, Clone, Copy, PartialEq, Eq, Structural)]
pub enum ToolKind {
    ReadFile,
    ReadMultipleFiles,
    WriteFile,
    CreateDirectory,
    ListDirectory,
    MoveFile,
    SearchFiles,
    GetFileInfo,
    ListAllowedDirectories,
}

/// The wire name of each tool.
pub open spec fn tool_name(k: ToolKind) -> Seq<char> {
    match k {
        ToolKind::ReadFile => READ_FILE@,
        ToolKind::ReadMultipleFiles => READ_MULTIPLE_FILES@,
        ToolKind::WriteFile => WRITE_FILE@,
        ToolKind::CreateDirectory => CREATE_DIRECTORY@,
        ToolKind::ListDirectory => LIST_DIRECTORY@,
        ToolKind::MoveFile => MOVE_FILE@,
        ToolKind::SearchFiles => SEARCH_FILES@,
        ToolKind::GetFileInfo => GET_FILE_INFO@,
        ToolKind::ListAllowedDirectories => LIST_ALLOWED_DIRECTORIES@,
    }
}

/// The JSON-RPC code of each protocol error.
pub open spec fn error_code(e: ProtocolError) -> int {
    match e {
        ProtocolError::ParseError => -32700,
        ProtocolError::MethodNotFound => -32601,
        ProtocolError::MethodNotAllowed => -32600,
    }
}

/// The tool that a wire name refers to, if any.
pub open spec fn tool_named(name: Seq<char>) -> Option<ToolKind> {
    if name == READ_FILE@ {
        Some(ToolKind::ReadFile)
    } else if name == READ_MULTIPLE_FILES@ {
        Some(ToolKind::ReadMultipleFiles)
    } else if name == WRITE_FILE@ {
        Some(ToolKind::WriteFile)
    } else if name == CREATE_DIRECTORY@ {
        Some(ToolKind::CreateDirectory)
    } else if name == LIST_DIRECTORY@ {
        Some(ToolKind::ListDirectory)
    } else if name == MOVE_FILE@ {
        Some(ToolKind::MoveFile)
    } else if name == SEARCH_FILES@ {
        Some(ToolKind::SearchFiles)
    } else if name == GET_FILE_INFO@ {
        Some(ToolKind::GetFileInfo)
    } else if name == LIST_ALLOWED_DIRECTORIES@ {
        Some(ToolKind::ListAllowedDirectories)
    } else {
        None
    }
}

/// Character-wise equality of two strings.
pub fn text_eq(a: &str, b: &str) -> (r: bool)
    ensures
        r == (a@ == b@),
{
    let n = a.unicode_len();
    if n != b.unicode_len() {
        return false;
    }
    let mut i: usize = 0;
    while i < n
        invariant
            n == a@.len(),
            n == b@.len(),
            i <= n,
            forall|j: int| 0 <= j < i ==> a@[j] == b@[j],
        decreases n - i,
    {
        if a.get_char(i) != b.get_char(i) {
            return false;
        }
        i = i + 1;
    }
    assert(a@ =~= b@);
    true
}

/// The tool a name refers to, if any.
pub fn tool_kind(name: &str) -> (r: Option<ToolKind>)
    ensures
        r == tool_named(name@),
        r matches Some(k) ==> tool_name(k) == name@,
        r is None ==> forall|k: ToolKind| tool_name(k) != name@,
{
    if text_eq(name, READ_FILE) {
        Some(ToolKind::ReadFile)
    } else if text_eq(name, READ_MULTIPLE_FILES) {
        Some(ToolKind::ReadMultipleFiles)
    } else if text_eq(name, WRITE_FILE) {
        Some(ToolKind::WriteFile)
    } else if text_eq(name, CREATE_DIRECTORY) {
        Some(ToolKind::CreateDirectory)
    } else if text_eq(name, LIST_DIRECTORY) {
        Some(ToolKind::ListDirectory)
    } else if text_eq(name, MOVE_FILE) {
        Some(ToolKind::MoveFile)
    } else if text_eq(name, SEARCH_FILES) {
        Some(ToolKind::SearchFiles)
    } else if text_eq(name, GET_FILE_INFO) {
        Some(ToolKind::GetFileInfo)
    } else if text_eq(name, LIST_ALLOWED_DIRECTORIES) {
        Some(ToolKind::ListAllowedDirectories)
    } else {
        None
    }
}

/// The answer to a call of a tool that is not registered: a well-formed
/// response marked as a tool-level error, naming the tool.
pub fn unknown_tool(name: &str) -> (r: CallToolResponse)
    ensures
        r.is_error == Some(true),
        r.content@.len() == 1,
        r.content@[0].text@ == "Unknown tool: "@ + name@,
{
    let mut text = "Unknown tool: ".to_string();
    text.append(name);
    CallToolResponse::error(text)
}

impl ProtocolError {
    /// The JSON-RPC code of this error.
    pub fn code(&self) -> (r: i64)
        ensures
            r == error_code(*self),
    {
        match self {
            ProtocolError::ParseError => -32700,
            ProtocolError::MethodNotFound => -32601,
            ProtocolError::MethodNotAllowed => -32600,
        }
    }
}

/// A successful response envelope: `{"id":<id>,"result":<result>}`, with
/// the request's id and the result given as JSON text.
pub fn result_envelope(id: &str, result: &str) -> (r: String)
    ensures
        r@ == "{\"id\":"@ + id@ + ",\"result\":"@ + result@ + "}"@,
{
    let mut s = "{\"id\":".to_string();
    s.append(id);
    s.append(",\"result\":");
    s.append(result);
    s.append("}");
    s
}

/// An error response envelope:
/// `{"id":<id>,"error":{"code":<code>,"message":<message>}}`, with the id
/// and message given as JSON text.
pub fn error_envelope(id: &str, e: ProtocolError, message: &str) -> (r: String)
    ensures
        r@ == "{\"id\":"@ + id@ + ",\"error\":{\"code\":"@ + code_text(e) + ",\"message\":"@ + message@
            + "}}"@,
{
    let mut s = "{\"id\":".to_string();
    s.append(id);
    s.append(",\"error\":{\"code\":");
    s.append(code_str(e));
    s.append(",\"message\":");
    s.append(message);
    s.append("}}");
    s
}

/// The decimal text of each error code.
pub open spec fn code_text(e: ProtocolError) -> Seq<char> {
    match e {
        ProtocolError::ParseError => "-32700"@,
        ProtocolError::MethodNotFound => "-32601"@,
        ProtocolError::MethodNotAllowed => "-32600"@,
    }
}

fn code_str(e: ProtocolError) -> (r: &'static str)
    ensures
        r@ == code_text(e),
{
    match e {
        ProtocolError::ParseError => "-32700",
        ProtocolError::MethodNotFound => "-32601",
        ProtocolError::MethodNotAllowed => "-32600",
    }
}

/// The handler bound to `name` among `b`, if any.
pub open spec fn bound(b: Seq<(Seq<char>, Method)>, name: Seq<char>) -> Option<Method> {
    if exists|i: int| 0 <= i < b.len() && (#[trigger] b[i]).0 == name {
        Some(b[choose|i: int| 0 <= i < b.len() && (#[trigger] b[i]).0 == name].1)
    } else {
        None
    }
}

/// No method name is bound twice.
pub open spec fn names_unique(b: Seq<(Seq<char>, Method)>) -> bool {
    forall|i: int, j: int| 0 <= i < b.len() && 0 <= j < b.len() && b[i].0 == b[j].0 ==> i == j
}

/// Routes request methods to handlers.  Bindings are made before serving
/// and a name is bound at most once: a second binding is refused.  With
/// strict capabilities a bound method outside the capability set is refused.
pub struct Dispatcher {
    bindings: Vec<(String, Method)>,
    strict: bool,
    capabilities: Vec<String>,
}

impl Dispatcher {
    pub closed spec fn bindings_view(&self) -> Seq<(Seq<char>, Method)> {
        self.bindings@.map_values(|e: (String, Method)| (e.0@, e.1))
    }

    pub closed spec fn capabilities_view(&self) -> Seq<Seq<char>> {
        self.capabilities@.map_values(|s: String| s@)
    }

    pub closed spec fn is_strict(&self) -> bool {
        self.strict
    }

    pub open spec fn wf(&self) -> bool {
        names_unique(self.bindings_view())
    }

    /// The result `route` owes for `method`.
    pub open spec fn routed(&self, method: Seq<char>) -> Result<Method, ProtocolError> {
        match bound(self.bindings_view(), method) {
            None => Err(ProtocolError::MethodNotFound),
            Some(m) => if self.is_strict() && !self.capabilities_view().contains(method) {
                Err(ProtocolError::MethodNotAllowed)
            } else {
                Ok(m)
            },
        }
    }

    /// A dispatcher with no bindings.
    pub fn new(strict: bool, capabilities: Vec<String>) -> (r: Dispatcher)
        ensures
            r.wf(),
            r.bindings_view().len() == 0,
            r.is_strict() == strict,
            r.capabilities_view() == capabilities@.map_values(|s: String| s@),
    {
        let r = Dispatcher { bindings: Vec::new(), strict, capabilities };
        assert(r.bindings_view() =~= Seq::empty());
        r
    }

    /// The handler bound to `method`, if any.
    pub fn lookup(&self, method: &str) -> (r: Option<Method>)
        requires
            self.wf(),
        ensures
            r == bound(self.bindings_view(), method@),
    {
        let mut i: usize = 0;
        while i < self.bindings.len()
            invariant
                self.wf(),
                i <= self.bindings@.len(),
                forall|j: int| 0 <= j < i ==> (#[trigger] self.bindings_view()[j]).0 != method@,
            decreases self.bindings@.len() - i,
        {
            if text_eq(self.bindings[i].0.as_str(), method) {
                proof {
                    let b = self.bindings_view();
                    assert(b[i as int].0 == method@);
                    let c = choose|j: int| 0 <= j < b.len() && (#[trigger] b[j]).0 == method@;
                    assert(c == i);
                }
                return Some(self.bindings[i].1);
            }
            i = i + 1;
        }
        None
    }

    /// Binds `method` to `handler`, unless it is bound already.
    pub fn register(&mut self, method: &str, handler: Method) -> (r: Result<(), RegisterError>)
        requires
            old(self).wf(),
        ensures
            final(self).wf(),
            final(self).is_strict() == old(self).is_strict(),
            final(self).capabilities_view() == old(self).capabilities_view(),
            r is Ok <==> bound(old(self).bindings_view(), method@) is None,
            r is Ok ==> final(self).bindings_view() == old(self).bindings_view().push((method@, handler)),
            r is Err ==> final(self).bindings_view() == old(self).bindings_view(),
    {
        if self.lookup(method).is_some() {
            return Err(RegisterError::AlreadyBound);
        }
        self.bindings.push((method.to_string(), handler));
        proof {
            let b = self.bindings_view();
            assert(b =~= old(self).bindings_view().push((method@, handler)));
            assert forall|i: int, j: int| 0 <= i < b.len() && 0 <= j < b.len() && b[i].0 == b[j].0 implies i == j by {
                let n = old(self).bindings_view().len() as int;
                if i == n && j < n {
                    assert(old(self).bindings_view()[j].0 == method@);
                }
                if j == n && i < n {
                    assert(old(self).bindings_view()[i].0 == method@);
                }
            }
        }
        Ok(())
    }

    /// Routes a request by method name.
    pub fn route(&self, method: &str) -> (r: Result<Method, ProtocolError>)
        requires
            self.wf(),
        ensures
            r == self.routed(method@),
    {
        match self.lookup(method) {
            None => Err(ProtocolError::MethodNotFound),
            Some(m) => {
                if self.strict && !self.has_capability(method) {
                    Err(ProtocolError::MethodNotAllowed)
                } else {
                    Ok(m)
                }
            },
        }
    }

    /// Whether `method` is among the negotiated capabilities.
    pub fn has_capability(&self, method: &str) -> (r: bool)
        ensures
            r == self.capabilities_view().contains(method@),
    {
        let mut i: usize = 0;
        while i < self.capabilities.len()
            invariant
                i <= self.capabilities@.len(),
                forall|j: int| 0 <= j < i ==> #[trigger] self.capabilities_view()[j] != method@,
            decreases self.capabilities@.len() - i,
        {
            if text_eq(self.capabilities[i].as_str(), method) {
                assert(self.capabilities_view()[i as int] == method@);
                return true;
            }
            i = i + 1;
        }
        false
    }
}

/// The life of one session with the peer.
#[derive(Debug, Clone, Copy, PartialEq, Eq, Structural)]
pub enum SessionState {
    Idle,
    Connected,
    Closed,
}

/// What the transport reports.
#[derive(Debug, Clone, Copy, PartialEq, Eq, Structural)]
pub enum TransportEvent {
    /// The channel to the peer is open.
    Opened,
    /// A frame arrived.
    Frame,
    /// The peer closed its end of the stream.
    EndOfStream,
    /// The transport failed beyond recovery.
    Fatal,
}

/// What the serving loop does next.
#[derive(Debug, Clone, Copy, PartialEq, Eq, Structural)]
pub enum Action {
    /// Wait for the next event.
    Wait,
    /// Decode and dispatch the frame that arrived.
    Dispatch,
    /// Stop accepting work and shut down.
    Shutdown,
}

/// The session's next state and the loop's action on an event.
pub open spec fn session_step(s: SessionState, e: TransportEvent) -> (SessionState, Action) {
    match (s, e) {
        (SessionState::Closed, _) => (SessionState::Closed, Action::Shutdown),
        (_, TransportEvent::EndOfStream) => (SessionState::Closed, Action::Shutdown),
        (_, TransportEvent::Fatal) => (SessionState::Closed, Action::Shutdown),
        (SessionState::Idle, TransportEvent::Opened) => (SessionState::Connected, Action::Wait),
        (SessionState::Idle, TransportEvent::Frame) => (SessionState::Idle, Action::Wait),
        (SessionState::Connected, TransportEvent::Opened) => (SessionState::Connected, Action::Wait),
        (SessionState::Connected, TransportEvent::Frame) => (SessionState::Connected, Action::Dispatch),
    }
}

impl SessionState {
    /// Advances the session on one transport event.  Closure of the stream
    /// or a fatal error always ends the session; frames are dispatched only
    /// while connected.
    pub fn step(self, e: TransportEvent) -> (r: (SessionState, Action))
        ensures
            r == session_step(self, e),
    {
        match (self, e) {
            (SessionState::Closed, _) => (SessionState::Closed, Action::Shutdown),
            (_, TransportEvent::EndOfStream) => (SessionState::Closed, Action::Shutdown),
            (_, TransportEvent::Fatal) => (SessionState::Closed, Action::Shutdown),
            (SessionState::Idle, TransportEvent::Opened) => (SessionState::Connected, Action::Wait),
            (SessionState::Idle, TransportEvent::Frame) => (SessionState::Idle, Action::Wait),
            (SessionState::Connected, TransportEvent::Opened) => (SessionState::Connected, Action::Wait),
            (SessionState::Connected, TransportEvent::Frame) => (SessionState::Connected, Action::Dispatch),
        }
    }
}

} // verus!
