use rest_to_json_rpc::call::{
    after_forwarding, after_middleware, after_translation, handle_call, CallError, NextStep, Phase,
};
use rest_to_json_rpc::forwarder::Forwarder;
use rest_to_json_rpc::middleware::Middleware;
use rest_to_json_rpc::request::{JsonRpcRequest, JsonRpcRequestStandard};
use rest_to_json_rpc::translator::ToJsonRpc;
use serde_json::Value;
use std::cell::{Cell, RefCell};

struct RestCall {
    path: Option<&'static str>,
    body: Value,
}

struct RestTranslator;

impl ToJsonRpc<RestCall> for RestTranslator {
    type Error = String;

    fn request_to_method(&self, request: &RestCall) -> Result<String, String> {
        match request.path {
            Some(path) => Ok(rest_to_json_rpc::request::path_to_method(path)),
            None => Err("no path".to_string()),
        }
    }

    fn to_json_rpc_standard(&self, request: RestCall) -> Result<JsonRpcRequestStandard, String> {
        match request.path {
            Some(path) => {
                let mut standard = JsonRpcRequestStandard::new();
                standard.path = path.to_string();
                standard.body = request.body;
                Ok(standard)
            }
            None => Err("no path".to_string()),
        }
    }
}

enum Policy {
    AddHeader(&'static str, &'static str),
    Reject(&'static str),
}

struct Counted {
    policy: Policy,
    calls: Cell<usize>,
}

fn counted(policy: Policy) -> Counted {
    Counted { policy, calls: Cell::new(0) }
}

impl Middleware<JsonRpcRequestStandard> for Counted {
    type Error = String;

    fn apply(&self, request: JsonRpcRequestStandard) -> Result<JsonRpcRequestStandard, String> {
        self.calls.set(self.calls.get() + 1);
        let mut request = request;
        match self.policy {
            Policy::AddHeader(name, value) => {
                request.set_http_header(name.to_string(), value.to_string());
                Ok(request)
            }
            Policy::Reject(reason) => Err(reason.to_string()),
        }
    }
}

struct Echo {
    seen: RefCell<Vec<JsonRpcRequest>>,
}

fn echo() -> Echo {
    Echo { seen: RefCell::new(Vec::new()) }
}

impl Forwarder<String> for Echo {
    type Error = String;

    fn forward(&self, json_rpc_request: JsonRpcRequest) -> Result<String, String> {
        let method = json_rpc_request.method.clone();
        self.seen.borrow_mut().push(json_rpc_request);
        Ok(method)
    }
}

struct Unreachable {
    calls: Cell<usize>,
}

impl Forwarder<String> for Unreachable {
    type Error = String;

    fn forward(&self, _json_rpc_request: JsonRpcRequest) -> Result<String, String> {
        self.calls.set(self.calls.get() + 1);
        Err("backend unreachable".to_string())
    }
}

fn call(path: &'static str) -> RestCall {
    RestCall { path: Some(path), body: Value::from("payload") }
}

type Step = NextStep<String, String, String>;

#[test]
fn a_call_is_translated_passed_through_the_chain_and_forwarded() {
    let chain = vec![counted(Policy::AddHeader("X", "1")), counted(Policy::AddHeader("Y", "2"))];
    let forwarder = echo();
    let reply = handle_call(&RestTranslator, &chain, &forwarder, call("users/123/orders"));
    assert_eq!(reply.ok(), Some("users.123.orders".to_string()));
    let seen = forwarder.seen.borrow();
    assert_eq!(seen.len(), 1);
    assert_eq!(seen[0].jsonrpc, "2.0");
    assert_eq!(seen[0].id, Value::from(1));
    let params = seen[0].params.as_object().unwrap();
    let headers = params.get("http_headers").unwrap().as_object().unwrap();
    assert_eq!(headers.len(), 2);
    assert_eq!(headers.get("X"), Some(&Value::from("1")));
    assert_eq!(headers.get("Y"), Some(&Value::from("2")));
    assert_eq!(params.get("body"), Some(&Value::from("payload")));
    assert_eq!(chain[0].calls.get(), 1);
    assert_eq!(chain[1].calls.get(), 1);
}

#[test]
fn a_call_with_an_empty_chain_goes_straight_to_the_forwarder() {
    let chain: Vec<Counted> = Vec::new();
    let forwarder = echo();
    let reply = handle_call(&RestTranslator, &chain, &forwarder, call("/a"));
    assert_eq!(reply.ok(), Some(".a".to_string()));
    assert_eq!(forwarder.seen.borrow().len(), 1);
}

#[test]
fn a_failed_translation_ends_the_call_before_the_chain() {
    let chain = vec![counted(Policy::AddHeader("X", "1"))];
    let forwarder = echo();
    let outcome =
        handle_call(&RestTranslator, &chain, &forwarder, RestCall { path: None, body: Value::Null });
    match outcome {
        Err(CallError::Conversion(error)) => assert_eq!(error, "no path"),
        _ => panic!("the call did not fail in translation"),
    }
    assert_eq!(chain[0].calls.get(), 0);
    assert!(forwarder.seen.borrow().is_empty());
}

#[test]
fn a_failed_middleware_ends_the_call_before_the_forwarder() {
    let chain = vec![
        counted(Policy::AddHeader("X", "1")),
        counted(Policy::Reject("forbidden")),
        counted(Policy::AddHeader("Y", "2")),
    ];
    let forwarder = echo();
    let outcome = handle_call(&RestTranslator, &chain, &forwarder, call("a"));
    match outcome {
        Err(CallError::Middleware(failure)) => {
            assert_eq!(failure.index, 1);
            assert_eq!(failure.source, "forbidden");
        }
        _ => panic!("the call did not fail in the chain"),
    }
    assert_eq!(chain[0].calls.get(), 1);
    assert_eq!(chain[1].calls.get(), 1);
    assert_eq!(chain[2].calls.get(), 0);
    assert!(forwarder.seen.borrow().is_empty());
}

#[test]
fn a_failed_forwarder_is_the_failure_of_the_call_and_is_asked_once() {
    let chain = vec![counted(Policy::AddHeader("X", "1"))];
    let forwarder = Unreachable { calls: Cell::new(0) };
    let outcome = handle_call(&RestTranslator, &chain, &forwarder, call("a"));
    match outcome {
        Err(CallError::Forwarding(error)) => assert_eq!(error, "backend unreachable"),
        _ => panic!("the call did not fail in forwarding"),
    }
    assert_eq!(forwarder.calls.get(), 1);
    assert_eq!(chain[0].calls.get(), 1);
}

#[test]
fn many_calls_each_get_the_reply_to_their_own_request() {
    let chain = vec![counted(Policy::AddHeader("X", "1"))];
    let forwarder = echo();
    let paths = ["a", "a/b", "users/1", "users/2", "", "/x", "orders/9/items/3"];
    let replies: Vec<String> = paths
        .iter()
        .map(|path| handle_call(&RestTranslator, &chain, &forwarder, call(path)).ok().unwrap())
        .collect();
    assert_eq!(replies, vec!["a", "a.b", "users.1", "users.2", "", ".x", "orders.9.items.3"]);
    assert_eq!(forwarder.seen.borrow().len(), paths.len());
    assert_eq!(chain[0].calls.get(), paths.len());
}

#[test]
fn translator_default_builds_the_envelope_of_what_it_read() {
    let envelope = RestTranslator.to_json_rpc(call("users/7")).unwrap();
    assert_eq!(envelope.jsonrpc, "2.0");
    assert_eq!(envelope.method, "users.7");
    assert_eq!(envelope.id, Value::from(1));
    assert_eq!(envelope.params.as_object().unwrap().get("body"), Some(&Value::from("payload")));
    assert_eq!(RestTranslator.request_to_method(&call("users/7")).unwrap(), envelope.method);
    let failed = RestTranslator.to_json_rpc(RestCall { path: None, body: Value::Null });
    assert_eq!(failed.err(), Some("no path".to_string()));
}

#[test]
fn after_translation_enters_the_chain_or_goes_to_the_forwarder() {
    let mut standard = JsonRpcRequestStandard::new();
    standard.path = "a/b".to_string();
    match after_translation(2, Ok(standard.clone())) as Step {
        NextStep::Apply { index, value } => {
            assert_eq!(index, 0);
            assert_eq!(value.path, "a/b");
        }
        _ => panic!("the chain was skipped"),
    }
    match after_translation(0, Ok(standard)) as Step {
        NextStep::Forward(envelope) => assert_eq!(envelope.method, "a.b"),
        _ => panic!("the call did not go to the forwarder"),
    }
    match after_translation(2, Err("unreadable".to_string())) as Step {
        NextStep::Fail(CallError::Conversion(error)) => assert_eq!(error, "unreadable"),
        _ => panic!("the call did not fail"),
    }
}

#[test]
fn after_middleware_goes_on_stops_or_forwards() {
    let mut standard = JsonRpcRequestStandard::new();
    standard.path = "a/b".to_string();
    match after_middleware(3, 0, Ok(standard.clone())) as Step {
        NextStep::Apply { index, value } => {
            assert_eq!(index, 1);
            assert_eq!(value.path, "a/b");
        }
        _ => panic!("the chain did not go on"),
    }
    match after_middleware(3, 2, Ok(standard.clone())) as Step {
        NextStep::Forward(envelope) => {
            assert_eq!(envelope.method, "a.b");
            assert_eq!(envelope.jsonrpc, "2.0");
        }
        _ => panic!("the call did not go to the forwarder"),
    }
    match after_middleware(3, 1, Err("denied".to_string())) as Step {
        NextStep::Fail(CallError::Middleware(failure)) => {
            assert_eq!(failure.index, 1);
            assert_eq!(failure.source, "denied");
        }
        _ => panic!("the call did not fail"),
    }
}

#[test]
fn after_forwarding_hands_on_reply_or_failure() {
    let reply: Result<u32, CallError<String, String, String>> = after_forwarding(Ok(5));
    assert_eq!(reply.ok(), Some(5));
    let failed: Result<u32, CallError<String, String, String>> =
        after_forwarding(Err("timeout".to_string()));
    match failed {
        Err(CallError::Forwarding(error)) => assert_eq!(error, "timeout"),
        _ => panic!("the failure was not handed on"),
    }
}

#[test]
fn an_error_tells_its_phase() {
    let conversion: CallError<u8, u8, u8> = CallError::Conversion(1);
    let middleware: CallError<u8, u8, u8> =
        CallError::Middleware(rest_to_json_rpc::middleware::MiddlewareError { index: 0, source: 2 });
    let forwarding: CallError<u8, u8, u8> = CallError::Forwarding(3);
    assert_eq!(conversion.phase(), Phase::Translation);
    assert_eq!(middleware.phase(), Phase::Middleware);
    assert_eq!(forwarding.phase(), Phase::Forwarding);
}
