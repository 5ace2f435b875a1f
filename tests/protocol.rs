use mcp_fs::dispatch::{
    error_envelope, result_envelope, tool_kind, unknown_tool, Action, Dispatcher, Method,
    ProtocolError, RegisterError, SessionState, ToolKind, TransportEvent,
};
use mcp_fs::filesystem_server::FileSystemServer;
use mcp_fs::framing::{frame, take_frame};

#[test]
fn tools_list_is_idempotent() {
    let s = FileSystemServer::new(vec!["/data".to_string()]);
    let a = s.list_tools();
    let b = s.list_tools();
    let names = |r: &mcp_fs::types::ListToolsResponse| r.tools.iter().map(|t| t.name.clone()).collect::<Vec<_>>();
    assert_eq!(names(&a), names(&b));
    assert_eq!(format!("{:?}", a), format!("{:?}", b));
    assert_eq!(a.tools.len(), 9);
    assert_eq!(a.tools[0].name, "read_file");
    assert_eq!(a.tools[8].name, "list_allowed_directories");
    assert_eq!(a.tools[5].input_schema.required, vec!["source".to_string(), "destination".to_string()]);
    assert_eq!(a.tools[1].input_schema.properties[0].1.items.as_ref().unwrap().property_type, "string");
}

#[test]
fn routing_distinguishes_unknown_and_disallowed_methods() {
    let s = FileSystemServer::new(vec!["/data".to_string()]);
    assert_eq!(s.route("tools/list"), Ok(Method::ListTools));
    assert_eq!(s.route("tools/call"), Ok(Method::CallTool));
    assert_eq!(s.route("resources/list"), Err(ProtocolError::MethodNotFound));

    let mut d = Dispatcher::new(true, vec!["tools/list".to_string()]);
    assert_eq!(d.register("tools/list", Method::ListTools), Ok(()));
    assert_eq!(d.register("tools/call", Method::CallTool), Ok(()));
    assert_eq!(d.register("tools/call", Method::ListTools), Err(RegisterError::AlreadyBound));
    assert_eq!(d.route("tools/call"), Err(ProtocolError::MethodNotAllowed));
    assert_eq!(d.lookup("tools/call"), Some(Method::CallTool));
    let mut lax = Dispatcher::new(false, vec![]);
    lax.register("tools/call", Method::CallTool).unwrap();
    assert_eq!(lax.route("tools/call"), Ok(Method::CallTool));
}

#[test]
fn unknown_tool_is_a_tool_level_error() {
    assert_eq!(tool_kind("move_file"), Some(ToolKind::MoveFile));
    assert_eq!(tool_kind("delete_everything"), None);
    let r = unknown_tool("delete_everything");
    assert_eq!(r.is_error, Some(true));
    assert_eq!(r.content[0].text, "Unknown tool: delete_everything");
    assert_eq!(r.content[0].content_type, "text");
}

#[test]
fn envelopes_carry_the_request_id() {
    assert_eq!(result_envelope("7", "{}"), "{\"id\":7,\"result\":{}}");
    assert_eq!(
        error_envelope("\"a\"", ProtocolError::MethodNotFound, "\"no\""),
        "{\"id\":\"a\",\"error\":{\"code\":-32601,\"message\":\"no\"}}"
    );
    assert_eq!(ProtocolError::ParseError.code(), -32700);
}

#[test]
fn concurrent_responses_read_back_whole_and_in_order() {
    let payloads = vec![b"{\"id\":2}".to_vec(), b"{\"id\":1}".to_vec(), b"{\"id\":3}".to_vec()];
    let mut stream = Vec::new();
    for p in &payloads {
        stream.extend(frame(p).unwrap());
    }
    for p in &payloads {
        assert_eq!(take_frame(&mut stream).as_ref(), Some(p));
    }
    assert_eq!(take_frame(&mut stream), None);
    assert!(stream.is_empty());
}

#[test]
fn framing_refuses_embedded_newline_and_keeps_partial_input() {
    assert_eq!(frame(&b"a\nb".to_vec()), None);
    assert_eq!(frame(&vec![]), Some(vec![10]));
    let mut buf = b"partial".to_vec();
    assert_eq!(take_frame(&mut buf), None);
    assert_eq!(buf, b"partial".to_vec());
}

#[test]
fn session_ends_on_stream_closure() {
    let (s, a) = SessionState::Idle.step(TransportEvent::Opened);
    assert_eq!((s, a), (SessionState::Connected, Action::Wait));
    assert_eq!(s.step(TransportEvent::Frame), (SessionState::Connected, Action::Dispatch));
    assert_eq!(s.step(TransportEvent::EndOfStream), (SessionState::Closed, Action::Shutdown));
    assert_eq!(SessionState::Closed.step(TransportEvent::Frame), (SessionState::Closed, Action::Shutdown));
    assert_eq!(s.step(TransportEvent::Fatal), (SessionState::Closed, Action::Shutdown));
}
