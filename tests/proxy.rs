use schatten::{
    outbound_requests, relay_response, upstream_failure, Backend, DispatchError, Headers, Method, ProxyServer,
    RegistryError, RequestCapture, RequestHandling, Response, ResponseOutcome, Stage, UPSTREAM_FAILURE_STATUS,
};

fn backend(name: &str, port: u16) -> Backend {
    Backend::new(name.to_owned(), "localhost".to_owned(), port)
}

fn registry() -> ProxyServer {
    let mut server = ProxyServer::new("localhost".to_owned(), 1234, backend("production", 3000));
    assert_eq!(server.add_backend(backend("sandbox", 3001)), Ok(()));
    server
}

fn select(method: &Method) -> Vec<String> {
    if method.is_get() {
        vec!["sandbox".to_owned()]
    } else {
        vec![]
    }
}

fn tag_sandbox(headers: Headers, target: &Backend) -> Headers {
    let mut headers = headers;
    if target.name == "sandbox" {
        headers.set_raw("X-Kage-Sandbox".to_owned(), b"1".to_vec());
    }
    headers
}

fn unchanged(headers: Headers, _target: &Backend) -> Headers {
    headers
}

fn capture(method: Method, body: &[u8]) -> RequestCapture {
    let mut headers = Headers::new();
    headers.set_raw("Accept".to_owned(), b"*/*".to_vec());
    RequestCapture::new(method, "/foo".to_owned(), headers, body.to_vec())
}

fn response(status: u16, body: &str) -> Response {
    let mut headers = Headers::new();
    headers.set_raw("Content-Type".to_owned(), b"text/plain".to_vec());
    Response::new(status, headers, body.as_bytes().to_vec())
}

fn sandbox_name() -> String {
    "sandbox".to_owned()
}

fn production_name() -> String {
    "production".to_owned()
}

#[test]
fn get_is_mirrored_to_the_sandbox() {
    let server = registry();
    let method = Method::Get;
    let selection = Some(select(&method));
    let mut handling = RequestHandling::start(&server, capture(method, b""), selection);
    let names: Vec<&str> = handling.participants().iter().map(|b| b.name.as_str()).collect();
    assert_eq!(names, vec!["production", "sandbox"]);

    let requests = handling.requests(&tag_sandbox);
    assert_eq!(requests.len(), 2);
    assert_eq!(requests[0].url, "http://localhost:3000/foo");
    assert_eq!(requests[1].url, "http://localhost:3001/foo");
    assert_eq!(requests[0].method, Method::Get);
    assert_eq!(requests[1].method, Method::Get);
    let tag = "X-Kage-Sandbox".to_owned();
    assert_eq!(requests[1].headers.get_raw(&tag), Some(b"1".to_vec()));
    assert_eq!(requests[0].headers.get_raw(&tag), None);

    let r1 = response(200, "from production");
    let r2 = response(200, "from sandbox");
    handling.join_shadows(vec![Ok(r2.clone())]);
    let client = handling.finish_production(Ok(r1.clone()));
    assert_eq!(client, r1);
    assert!(handling.take_completion(true));
    let aggregate = handling.aggregate();
    assert_eq!(aggregate.len(), 2);
    assert_eq!(aggregate.get(&production_name()), Some(&ResponseOutcome::Success(r1)));
    assert_eq!(aggregate.get(&sandbox_name()), Some(&ResponseOutcome::Success(r2)));
}

#[test]
fn post_goes_to_production_only() {
    let server = registry();
    let method = Method::Post;
    let selection = Some(select(&method));
    let mut handling = RequestHandling::start(&server, capture(method, b"payload"), selection);
    assert_eq!(handling.participants().len(), 1);
    let requests = handling.requests(&tag_sandbox);
    assert_eq!(requests.len(), 1);
    assert_eq!(requests[0].url, "http://localhost:3000/foo");

    let r1 = response(201, "created");
    handling.join_shadows(vec![]);
    let client = handling.finish_production(Ok(r1.clone()));
    assert_eq!(client, r1);
    assert!(handling.take_completion(true));
    assert_eq!(handling.aggregate().len(), 1);
    assert_eq!(handling.aggregate().get(&production_name()), Some(&ResponseOutcome::Success(r1)));
    assert_eq!(handling.aggregate().get(&sandbox_name()), None);
}

#[test]
fn sandbox_down_still_relays_production() {
    let server = registry();
    let mut handling = RequestHandling::start(&server, capture(Method::Get, b""), Some(select(&Method::Get)));
    handling.join_shadows(vec![Err(DispatchError::Unreachable)]);
    let r1 = response(200, "from production");
    let client = handling.finish_production(Ok(r1.clone()));
    assert_eq!(client, r1);
    assert!(handling.take_completion(true));
    assert_eq!(handling.aggregate().len(), 2);
    assert_eq!(
        handling.aggregate().get(&sandbox_name()),
        Some(&ResponseOutcome::Failure(DispatchError::Unreachable))
    );
    assert_eq!(handling.aggregate().get(&production_name()), Some(&ResponseOutcome::Success(r1)));
}

#[test]
fn production_down_gives_upstream_failure() {
    let server = registry();
    let mut handling = RequestHandling::start(&server, capture(Method::Get, b""), Some(select(&Method::Get)));
    let r2 = response(200, "from sandbox");
    handling.join_shadows(vec![Ok(r2)]);
    let client = handling.finish_production(Err(DispatchError::Unreachable));
    assert_eq!(client.status, 502);
    assert_eq!(client.status, UPSTREAM_FAILURE_STATUS);
    assert_eq!(client.headers.len(), 0);
    assert!(client.body.is_empty());
    assert_eq!(handling.stage(), Stage::Failed);
    assert!(!handling.take_completion(true));
    assert_eq!(handling.aggregate().get(&production_name()), None);
}

#[test]
fn add_backend_rejects_a_name_in_use() {
    let mut server = registry();
    assert_eq!(server.add_backend(backend("production", 4000)), Err(RegistryError::DuplicateBackendName));
    assert_eq!(server.add_backend(backend("sandbox", 4001)), Err(RegistryError::DuplicateBackendName));
    assert_eq!(server.sandboxes().len(), 1);
    assert_eq!(server.add_backend(backend("canary", 4002)), Ok(()));
    assert_eq!(server.sandboxes().len(), 2);
    assert_eq!(server.sandboxes()[1].port, 4002);
    assert_eq!(server.production().port, 3000);
    assert_eq!(server.host(), "localhost");
    assert_eq!(server.port(), 1234);
}

#[test]
fn unknown_selection_names_are_dropped() {
    let mut server = registry();
    assert_eq!(server.add_backend(backend("canary", 3002)), Ok(()));
    let names = vec!["missing".to_owned(), "canary".to_owned(), "sandbox".to_owned()];
    let chosen = server.select_by_names(&names);
    let chosen: Vec<&str> = chosen.iter().map(|b| b.name.as_str()).collect();
    assert_eq!(chosen, vec!["sandbox", "canary"]);
    let only_unknown = vec!["missing".to_owned()];
    assert!(server.select_by_names(&only_unknown).is_empty());
    let handling = RequestHandling::start(&server, capture(Method::Get, b""), Some(only_unknown));
    assert_eq!(handling.participants().len(), 1);
}

#[test]
fn no_selection_hook_is_a_pass_through() {
    let server = registry();
    let mut handling = RequestHandling::start(&server, capture(Method::Get, b""), None);
    assert_eq!(handling.participants().len(), 1);
    assert_eq!(handling.participants()[0].name, "production");
    handling.join_shadows(vec![]);
    handling.finish_production(Ok(response(200, "ok")));
    assert!(handling.take_completion(true));
    assert_eq!(handling.aggregate().len(), 1);
}

#[test]
fn header_changes_stay_with_their_target() {
    let mut server = registry();
    assert_eq!(server.add_backend(backend("canary", 3002)), Ok(()));
    let targets = vec![backend("production", 3000), backend("sandbox", 3001), backend("canary", 3002)];
    let captured = capture(Method::Get, b"");
    let requests = outbound_requests(&captured, &targets, &tag_sandbox);
    let tag = "X-Kage-Sandbox".to_owned();
    assert_eq!(requests[0].headers, captured.headers);
    assert_eq!(requests[1].headers.get_raw(&tag), Some(b"1".to_vec()));
    assert_eq!(requests[1].headers.len(), 2);
    assert_eq!(requests[2].headers, captured.headers);
    assert_eq!(captured.headers.len(), 1);
}

#[test]
fn every_target_gets_the_same_body() {
    let mut server = registry();
    assert_eq!(server.add_backend(backend("canary", 3002)), Ok(()));
    let names = vec!["sandbox".to_owned(), "canary".to_owned()];
    let body: Vec<u8> = (0..=255u8).collect();
    let handling = RequestHandling::start(&server, capture(Method::Put, &body), Some(names));
    let requests = handling.requests(&unchanged);
    assert_eq!(requests.len(), 3);
    for request in &requests {
        assert_eq!(request.body, body);
        assert_eq!(request.method, Method::Put);
    }
    assert_eq!(requests[2].url, "http://localhost:3002/foo");
}

#[test]
fn completion_fires_at_most_once() {
    let server = registry();
    let mut handling = RequestHandling::start(&server, capture(Method::Get, b""), Some(select(&Method::Get)));
    assert!(!handling.take_completion(true));
    handling.join_shadows(vec![Ok(response(200, "s"))]);
    assert!(!handling.take_completion(true));
    handling.finish_production(Ok(response(200, "p")));
    assert_eq!(handling.stage(), Stage::ClientRelayed);
    assert!(handling.take_completion(true));
    assert_eq!(handling.stage(), Stage::Done);
    assert!(!handling.take_completion(true));
}

#[test]
fn completion_without_hook_is_skipped() {
    let server = registry();
    let mut handling = RequestHandling::start(&server, capture(Method::Get, b""), None);
    handling.join_shadows(vec![]);
    handling.finish_production(Ok(response(200, "p")));
    assert!(!handling.take_completion(false));
    assert_eq!(handling.stage(), Stage::Done);
}

#[test]
fn shadow_failure_is_recorded_and_completion_still_fires() {
    let mut server = registry();
    assert_eq!(server.add_backend(backend("canary", 3002)), Ok(()));
    let names = vec!["sandbox".to_owned(), "canary".to_owned()];
    let mut handling = RequestHandling::start(&server, capture(Method::Get, b""), Some(names));
    let ok = response(200, "canary");
    handling.join_shadows(vec![Err(DispatchError::Unreachable), Ok(ok.clone())]);
    assert_eq!(handling.stage(), Stage::ShadowJoined);
    assert_eq!(
        handling.aggregate().get(&sandbox_name()),
        Some(&ResponseOutcome::Failure(DispatchError::Unreachable))
    );
    assert_eq!(handling.aggregate().get(&"canary".to_owned()), Some(&ResponseOutcome::Success(ok)));
    let p = response(200, "p");
    assert_eq!(handling.finish_production(Ok(p.clone())), p);
    assert!(handling.take_completion(true));
    assert_eq!(handling.aggregate().len(), 3);
}

#[test]
fn url_for_writes_the_port_in_decimal() {
    assert_eq!(backend("a", 3000).url_for("/foo?x=1"), "http://localhost:3000/foo?x=1");
    assert_eq!(backend("a", 0).url_for("/"), "http://localhost:0/");
    assert_eq!(backend("a", 65535).url_for(""), "http://localhost:65535");
    assert_eq!(backend("a", 7).url_for("/a"), "http://localhost:7/a");
}

#[test]
fn set_raw_replaces_every_entry_of_the_name() {
    let mut headers = Headers::new();
    headers.append_raw("A".to_owned(), b"1".to_vec());
    headers.append_raw("B".to_owned(), b"2".to_vec());
    headers.append_raw("A".to_owned(), b"3".to_vec());
    assert_eq!(headers.len(), 3);
    assert_eq!(headers.get_raw(&"A".to_owned()), Some(b"1".to_vec()));
    headers.set_raw("A".to_owned(), b"4".to_vec());
    assert_eq!(headers.len(), 2);
    assert_eq!(headers.entries[0].name, "B");
    assert_eq!(headers.entries[1].name, "A");
    assert_eq!(headers.get_raw(&"A".to_owned()), Some(b"4".to_vec()));
    assert_eq!(headers.get_raw(&"C".to_owned()), None);
    headers.clear();
    assert_eq!(headers.len(), 0);
}

#[test]
fn relay_replaces_what_the_client_response_held() {
    let mut client = Response::new(200, Headers::new(), b"stale".to_vec());
    client.headers.set_raw("Server".to_owned(), b"listener".to_vec());
    let mut headers = Headers::new();
    headers.append_raw("Set-Cookie".to_owned(), b"a=1".to_vec());
    headers.append_raw("Set-Cookie".to_owned(), b"b=2".to_vec());
    let production = Response::new(404, headers, b"not here".to_vec());
    relay_response(&mut client, &production);
    assert_eq!(client, production);
    assert_eq!(client.headers.get_raw(&"Server".to_owned()), None);
    assert_eq!(client.headers.len(), 2);
}

#[test]
fn upstream_failure_is_empty_with_status_502() {
    let r = upstream_failure();
    assert_eq!(r.status, 502);
    assert_eq!(r.headers.len(), 0);
    assert!(r.body.is_empty());
}

#[test]
fn aggregate_keeps_one_outcome_per_name() {
    let mut aggregate = schatten::ResponseAggregate::new();
    aggregate.record("x".to_owned(), Err(DispatchError::Unreachable));
    assert_eq!(aggregate.len(), 1);
    let r = response(200, "x");
    aggregate.record("x".to_owned(), Ok(r.clone()));
    assert_eq!(aggregate.len(), 1);
    assert_eq!(aggregate.get(&"x".to_owned()), Some(&ResponseOutcome::Success(r.clone())));
    aggregate.insert("y".to_owned(), ResponseOutcome::from_result(Ok(r)));
    assert_eq!(aggregate.len(), 2);
    assert!(aggregate.get(&"y".to_owned()).unwrap().is_success());
    assert!(!ResponseOutcome::from_result(Err(DispatchError::Unreachable)).is_success());
}

#[test]
fn duplicated_values_are_equal_and_independent() {
    let m = Method::Extension("PURGE".to_owned());
    assert_eq!(m.duplicate(), m);
    assert!(!m.is_get());
    let b = backend("a", 1);
    assert_eq!(b.duplicate(), b);
    let r = response(200, "x");
    let mut copy = r.duplicate();
    assert_eq!(copy, r);
    copy.headers.clear();
    assert_eq!(r.headers.len(), 1);
    let c = capture(Method::Delete, b"z");
    let out = c.outbound_for(&b);
    assert_eq!(out.url, "http://localhost:1/foo");
    assert_eq!(out.headers, c.headers);
    assert_eq!(out.body, b"z".to_vec());
}
