use vstd::prelude::*;
use crate::dispatch::{Dispatcher, Method, ProtocolError};
use crate::tools::{create_tools, property_names_unique, tool_table, tools_view};
use crate::types::{ListToolsResponse, Tool};

verus! {

/// The method that lists the tools.
pub const TOOLS_LIST: &'static str = "tools/list";

/// The method that calls one tool.
pub const TOOLS_CALL: &'static str = "tools/call";

/// The server: its allow-list and the dispatcher that routes the two
/// protocol methods, with strict capabilities.
pub struct FileSystemServer {
    allowed_directories: Vec<String>,
    dispatcher: Dispatcher,
}

impl FileSystemServer {
    /// The dispatcher never binds a name twice.
    #[verifier::type_invariant]
    spec fn inv(&self) -> bool {
        self.dispatcher.wf()
    }

    pub closed spec fn dispatcher_view(&self) -> Dispatcher {
        self.dispatcher
    }

    pub closed spec fn allowed_view(&self) -> Seq<Seq<char>> {
        self.allowed_directories@.map_values(|s: String| s@)
    }

    /// A server over the given directories.  `tools/list` and `tools/call`
    /// are bound and are the negotiated capabilities.
    pub fn new(allowed_dirs: Vec<String>) -> (r: Self)
        ensures
            r.dispatcher_view().wf(),
            r.dispatcher_view().is_strict(),
            r.dispatcher_view().capabilities_view() == seq![TOOLS_LIST@, TOOLS_CALL@],
            r.allowed_view() == allowed_dirs@.map_values(|s: String| s@),
            r.dispatcher_view().routed(TOOLS_LIST@) == Ok::<Method, ProtocolError>(Method::ListTools),
            r.dispatcher_view().routed(TOOLS_CALL@) == Ok::<Method, ProtocolError>(Method::CallTool),
            forall|m: Seq<char>| m != TOOLS_LIST@ && m != TOOLS_CALL@ ==> r.dispatcher_view().routed(m)
                == Err::<Method, ProtocolError>(ProtocolError::MethodNotFound),
    {
        let mut caps: Vec<String> = Vec::new();
        caps.push(TOOLS_LIST.to_string());
        caps.push(TOOLS_CALL.to_string());
        let mut dispatcher = Dispatcher::new(true, caps);
        assert(dispatcher.capabilities_view() =~= seq![TOOLS_LIST@, TOOLS_CALL@]);
        proof {
            reveal_strlit("tools/list");
            reveal_strlit("tools/call");
            assert(TOOLS_LIST@ != TOOLS_CALL@) by {
                assert(TOOLS_LIST@[6] != TOOLS_CALL@[6]);
            }
        }
        let a = dispatcher.register(TOOLS_LIST, Method::ListTools);
        let b = dispatcher.register(TOOLS_CALL, Method::CallTool);
        proof {
            let bv = dispatcher.bindings_view();
            assert(bv =~= seq![(TOOLS_LIST@, Method::ListTools), (TOOLS_CALL@, Method::CallTool)]);
            assert(bv[0].0 == TOOLS_LIST@);
            assert(bv[1].0 == TOOLS_CALL@);
            assert(dispatcher.capabilities_view()[0] == TOOLS_LIST@);
            assert(dispatcher.capabilities_view()[1] == TOOLS_CALL@);
            let c = choose|i: int| 0 <= i < bv.len() && (#[trigger] bv[i]).0 == TOOLS_CALL@;
            assert(c == 1);
        }
        FileSystemServer { allowed_directories: allowed_dirs, dispatcher }
    }

    /// The tools this server offers, in their fixed order.
    pub fn create_tools(&self) -> (r: Vec<Tool>)
        ensures
            tools_view(r@) == tool_table(),
            forall|k: int| 0 <= k < r@.len() ==> property_names_unique(#[trigger] tools_view(r@)[k]),
    {
        create_tools()
    }

    /// The answer to `tools/list`: the same descriptors, in the same order,
    /// on every call.
    pub fn list_tools(&self) -> (r: ListToolsResponse)
        ensures
            tools_view(r.tools@) == tool_table(),
            forall|k: int| 0 <= k < r.tools@.len() ==> property_names_unique(#[trigger] tools_view(r.tools@)[k]),
    {
        ListToolsResponse { tools: create_tools() }
    }

    /// Routes a request by its method name.
    pub fn route(&self, method: &str) -> (r: Result<Method, ProtocolError>)
        ensures
            r == self.dispatcher_view().routed(method@),
    {
        proof {
            use_type_invariant(self);
        }
        self.dispatcher.route(method)
    }

    /// The directories the server was given.
    pub fn allowed_directories(&self) -> (r: &Vec<String>)
        ensures
            r@.map_values(|s: String| s@) == self.allowed_view(),
    {
        &self.allowed_directories
    }
}

/// Listing the tools twice gives the same descriptors in the same order.
pub proof fn lemma_list_tools_idempotent(first: ListToolsResponse, second: ListToolsResponse)
    requires
        tools_view(first.tools@) == tool_table(),
        tools_view(second.tools@) == tool_table(),
    ensures
        tools_view(first.tools@) == tools_view(second.tools@),
{
}

} // verus!
