use rest_to_json_rpc::call::handle_call;
use rest_to_json_rpc::forwarder::Forwarder;
use rest_to_json_rpc::middleware::Middleware;
use rest_to_json_rpc::proxy::{Lifecycle, Proxy, ProxyState};
use rest_to_json_rpc::request::{JsonRpcRequest, JsonRpcRequestStandard};
use rest_to_json_rpc::translator::ToJsonRpc;

struct Tagged(&'static str);

impl Forwarder<String> for Tagged {
    type Error = String;

    fn forward(&self, json_rpc_request: JsonRpcRequest) -> Result<String, String> {
        Ok(format!("{}:{}", self.0, json_rpc_request.method))
    }
}

struct Paths;

impl ToJsonRpc<&'static str> for Paths {
    type Error = String;

    fn request_to_method(&self, request: &&'static str) -> Result<String, String> {
        Ok(rest_to_json_rpc::request::path_to_method(request))
    }

    fn to_json_rpc_standard(&self, request: &'static str) -> Result<JsonRpcRequestStandard, String> {
        let mut standard = JsonRpcRequestStandard::new();
        standard.path = request.to_string();
        Ok(standard)
    }
}

struct Pass;

impl Middleware<JsonRpcRequestStandard> for Pass {
    type Error = String;

    fn apply(&self, request: JsonRpcRequestStandard) -> Result<JsonRpcRequestStandard, String> {
        Ok(request)
    }
}

#[test]
fn a_new_proxy_is_unconfigured() {
    let state: ProxyState<Tagged> = ProxyState::new();
    assert_eq!(state.lifecycle(), Lifecycle::Unconfigured);
    assert!(state.forwarder_for_call().is_none());
}

#[test]
fn serving_needs_a_forwarder() {
    let mut state: ProxyState<Tagged> = ProxyState::new();
    assert!(!state.begin_serving());
    assert_eq!(state.lifecycle(), Lifecycle::Unconfigured);
    assert!(state.forwarder_for_call().is_none());
}

#[test]
fn setting_a_forwarder_configures_the_proxy() {
    let mut state = ProxyState::new();
    assert!(state.set_forwarder(Tagged("one")).is_none());
    assert_eq!(state.lifecycle(), Lifecycle::Configured);
    assert!(state.forwarder_for_call().is_none());
    let previous = state.set_forwarder(Tagged("two"));
    assert_eq!(previous.map(|f| f.0), Some("one"));
    assert_eq!(state.lifecycle(), Lifecycle::Configured);
}

#[test]
fn a_configured_proxy_serves_with_its_forwarder() {
    let mut state = ProxyState::new();
    state.set_forwarder(Tagged("one"));
    assert!(state.begin_serving());
    assert_eq!(state.lifecycle(), Lifecycle::Serving);
    assert_eq!(state.forwarder_for_call().map(|f| f.0), Some("one"));
    assert!(state.begin_serving());
    assert_eq!(state.lifecycle(), Lifecycle::Serving);
    assert_eq!(state.forwarder_for_call().map(|f| f.0), Some("one"));
}

#[test]
fn a_serving_proxy_takes_a_new_forwarder_and_goes_on_serving() {
    let mut state = ProxyState::new();
    state.set_forwarder(Tagged("one"));
    state.begin_serving();
    let previous = state.set_forwarder(Tagged("two"));
    assert_eq!(previous.map(|f| f.0), Some("one"));
    assert_eq!(state.lifecycle(), Lifecycle::Serving);
    assert_eq!(state.forwarder_for_call().map(|f| f.0), Some("two"));
}

#[test]
fn a_failed_choice_leaves_the_proxy_as_it_was() {
    let mut state: ProxyState<Tagged> = ProxyState::new();
    let failed = state.configure(Err("no route".to_string()));
    assert_eq!(failed.err().map(|e| e.source), Some("no route".to_string()));
    assert_eq!(state.lifecycle(), Lifecycle::Unconfigured);
    let configured: Result<Option<Tagged>, _> = state.configure(Ok::<Tagged, String>(Tagged("one")));
    assert!(configured.ok().unwrap().is_none());
    state.begin_serving();
    let failed = state.configure(Err("table locked".to_string()));
    assert_eq!(failed.err().map(|e| e.source), Some("table locked".to_string()));
    assert_eq!(state.lifecycle(), Lifecycle::Serving);
    assert_eq!(state.forwarder_for_call().map(|f| f.0), Some("one"));
    let replaced = state.configure(Ok::<Tagged, String>(Tagged("two")));
    assert_eq!(replaced.ok().unwrap().map(|f| f.0), Some("one"));
    assert_eq!(state.forwarder_for_call().map(|f| f.0), Some("two"));
}

#[test]
fn a_call_is_served_by_the_forwarder_in_place_when_it_begins() {
    let chain = vec![Pass];
    let mut state = ProxyState::new();
    state.set_forwarder(Tagged("old"));
    state.begin_serving();
    let before = {
        let forwarder = state.forwarder_for_call().unwrap();
        handle_call(&Paths, &chain, forwarder, "a/b").ok().unwrap()
    };
    state.set_forwarder(Tagged("new"));
    let after = {
        let forwarder = state.forwarder_for_call().unwrap();
        handle_call(&Paths, &chain, forwarder, "a/b").ok().unwrap()
    };
    assert_eq!(before, "old:a.b");
    assert_eq!(after, "new:a.b");
}

struct Host {
    state: ProxyState<Tagged>,
}

impl Proxy<String> for Host {
    type Backend = Tagged;
    type Error = String;

    fn set_forwarder(&mut self, forwarder: Tagged) -> Result<(), String> {
        self.state.set_forwarder(forwarder);
        Ok(())
    }

    fn serve(&self) -> Result<(), String> {
        match self.state.forwarder_for_call() {
            Some(_) => Ok(()),
            None => Err("not serving".to_string()),
        }
    }
}

#[test]
fn a_host_can_implement_the_proxy_on_the_state() {
    let mut host = Host { state: ProxyState::new() };
    assert_eq!(host.serve(), Err("not serving".to_string()));
    assert_eq!(host.set_forwarder(Tagged("one")), Ok(()));
    assert!(host.state.begin_serving());
    assert_eq!(host.serve(), Ok(()));
}
