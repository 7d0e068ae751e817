use ios_webkit_debug_proxy::http_server::{
    build_pages_html, build_pages_json, cors_headers, describe_devices, describe_pages,
    fetch_failed, fetched as answer_fetched, generate_frontend_url, handle_404, handle_404_simple, handle_device_list_html,
    handle_device_list_json, handle_devtools_static, handle_index, handle_json,
    handle_json_version, handle_version_json, handle_ws_event, handle_ws_upgrade,
    host_without_port, open_connection, opening_message, plan_static, resource_target,
    DeviceListState, DevicePortState, HttpResponse, PageEntry, StaticPlan, WsAction, WsEvent,
    WsNext,
};
use ios_webkit_debug_proxy::DeviceInfo;

fn page(page_num: u32, title: Option<&str>, url: Option<&str>) -> PageEntry {
    PageEntry {
        page_num,
        app_id: "app".to_string(),
        page_id: 70 + page_num,
        title: title.map(String::from),
        url: url.map(String::from),
        sender_id: None,
    }
}

fn state(frontend: Option<&str>) -> DevicePortState {
    DevicePortState {
        port: 9222,
        device_id: Some("id".to_string()),
        device_name: Some("Phone".to_string()),
        device_os_version: 0x0e0501,
        connected: true,
        pages: vec![page(1, Some("T \"1\""), Some("http://x/")), page(3, None, None)],
        frontend: frontend.map(String::from),
    }
}

fn devices() -> DeviceListState {
    DeviceListState {
        devices: vec![
            DeviceInfo {
                device_id: "a".to_string(),
                device_name: "A".to_string(),
                device_os_version: 0x0102_0e05,
                port: 9222,
            },
            DeviceInfo {
                device_id: "b".to_string(),
                device_name: "B".to_string(),
                device_os_version: 0,
                port: 9223,
            },
        ],
    }
}

fn header<'a>(response: &'a HttpResponse, name: &str) -> Option<&'a str> {
    response.headers.iter().find(|(n, _)| n == name).map(|(_, v)| v.as_str())
}

fn has_cors(response: &HttpResponse) -> bool {
    header(response, "Access-Control-Allow-Origin") == Some("*")
        && header(response, "Access-Control-Allow-Methods") == Some("GET, HEAD")
}

#[test]
fn page_list_in_html() {
    let expected = "<html><head><title>Phone</title></head><body>Inspectable pages for Phone:<p><ol>\
        <li value=\"1\"><a href=\"/devtools/i.html?ws=localhost:9222/devtools/page/1\">T \"1\" - http://x/</a></li>\n\
        <li value=\"3\"><a href=\"/devtools/i.html?ws=localhost:9222/devtools/page/3\">? - ?</a></li>\
        </ol></body></html>";
    let s = state(Some("http://f/d/i.html"));
    assert_eq!(build_pages_html(&s), expected);
    let response = handle_index(false, &s);
    assert_eq!(response.status, 200);
    assert!(response.html);
    assert!(has_cors(&response));
    assert_eq!(header(&response, "content-type"), None);
    assert_eq!(response.body, expected);
    let nameless = DevicePortState { device_name: None, pages: Vec::new(), ..state(None) };
    assert_eq!(
        build_pages_html(&nameless),
        "<html><head><title>Unknown</title></head><body>Inspectable pages for Unknown:<p><ol></ol></body></html>"
    );
}

#[test]
fn frontend_addresses() {
    assert_eq!(generate_frontend_url(&state(None), 1), "");
    assert_eq!(
        generate_frontend_url(&state(Some("devtools.html")), 2),
        "/devtools/devtools.html?ws=localhost:9222/devtools/page/2"
    );
    assert_eq!(
        generate_frontend_url(&state(Some("http://f/")), 2),
        "/devtools/?ws=localhost:9222/devtools/page/2"
    );
}

#[test]
fn page_list_in_json() {
    let s = state(Some("http://f/d/i.html"));
    let members = describe_pages(&s, "h");
    assert_eq!(members.len(), 2);
    assert_eq!(
        members[0],
        vec![
            (
                "devtoolsFrontendUrl".to_string(),
                "/devtools/i.html?ws=localhost:9222/devtools/page/1".to_string()
            ),
            ("faviconUrl".to_string(), "".to_string()),
            ("thumbnailUrl".to_string(), "/thumb/http://x/".to_string()),
            ("title".to_string(), "T \"1\"".to_string()),
            ("url".to_string(), "http://x/".to_string()),
            ("webSocketDebuggerUrl".to_string(), "ws://h:9222/devtools/page/1".to_string()),
            ("appId".to_string(), "app".to_string()),
        ]
    );
    assert_eq!(members[1][2].1, "/thumb/");
    assert_eq!(members[1][3].1, "");
    let json: serde_json::Value = serde_json::from_str(&build_pages_json(&s, "h")).unwrap();
    for (object, expected) in json.as_array().unwrap().iter().zip(&members) {
        assert_eq!(object.as_object().unwrap().len(), 7);
        for (name, value) in expected {
            assert_eq!(object[name.as_str()].as_str(), Some(value.as_str()));
        }
    }
    let response = handle_json(false, Some("h:1234"), &s);
    assert_eq!(response.status, 200);
    assert!(has_cors(&response));
    assert_eq!(header(&response, "content-type"), Some("application/json; charset=UTF-8"));
    assert_eq!(response.body, build_pages_json(&s, "h"));
    assert_eq!(
        handle_json(false, None, &DevicePortState { pages: Vec::new(), ..state(None) }).body,
        "[]"
    );
}

#[test]
fn hosts() {
    assert_eq!(host_without_port(Some("h:1")), "h");
    assert_eq!(host_without_port(Some("h")), "h");
    assert_eq!(host_without_port(Some("[::1]:9222")), "[::1]");
    assert_eq!(host_without_port(Some("")), "");
    assert_eq!(host_without_port(None), "localhost");
}

#[test]
fn version() {
    for response in [handle_json_version(false), handle_version_json(false)] {
        assert_eq!(response.status, 200);
        assert_eq!(header(&response, "content-type"), Some("application/json; charset=UTF-8"));
        assert_eq!(
            response.body,
            "{\"Browser\":\"iOS WebKit Debug Proxy\",\"Protocol-Version\":\"1.1\"}"
        );
    }
}

#[test]
fn headers_alone() {
    let s = state(Some("http://f/i.html"));
    let d = devices();
    let pairs = vec![
        (handle_index(true, &s), handle_index(false, &s)),
        (handle_json(true, None, &s), handle_json(false, None, &s)),
        (handle_json_version(true), handle_json_version(false)),
        (handle_version_json(true), handle_version_json(false)),
        (handle_404(true, "/x"), handle_404(false, "/x")),
        (handle_device_list_html(true, &d), handle_device_list_html(false, &d)),
        (handle_device_list_json(true, &d), handle_device_list_json(false, &d)),
    ];
    for (head, get) in pairs {
        assert_eq!(head.status, get.status);
        assert_eq!(head.headers, get.headers);
        assert_eq!(head.html, get.html);
        assert_eq!(head.body, "");
        assert_ne!(get.body, "");
    }
}

#[test]
fn nothing_there() {
    let response = handle_404(false, "/x/y");
    assert_eq!(response.status, 404);
    assert!(has_cors(&response));
    assert_eq!(header(&response, "content-type"), Some("text/html; charset=UTF-8"));
    assert_eq!(response.body, "<html><body>404: /x/y not found</body></html>");
    let response = handle_404_simple();
    assert_eq!(response.status, 404);
    assert!(!response.html);
    assert_eq!(response.body, "<html><body>404 Not Found</body></html>");
    assert_eq!(cors_headers().len(), 2);
}

#[test]
fn device_list() {
    assert_eq!(
        handle_device_list_html(false, &devices()).body,
        "<html><head><title>iOS Devices</title></head><body>iOS Devices:<p><ol>\
         <li><a href=\"http://localhost:9222/\">A</a> - a</li>\n\
         <li><a href=\"http://localhost:9223/\">B</a> - b</li></ol></body></html>"
    );
    let members = describe_devices(&devices());
    assert_eq!(
        members[0],
        vec![
            ("deviceId".to_string(), "a".to_string()),
            ("deviceName".to_string(), "A".to_string()),
            ("deviceOSVersion".to_string(), "2.14.5".to_string()),
            ("url".to_string(), "localhost:9222".to_string()),
        ]
    );
    assert_eq!(
        handle_device_list_json(false, &devices()).body,
        "[{\"deviceId\":\"a\",\"deviceName\":\"A\",\"deviceOSVersion\":\"2.14.5\",\"url\":\"localhost:9222\"},\
         {\"deviceId\":\"b\",\"deviceName\":\"B\",\"deviceOSVersion\":\"0.0.0\",\"url\":\"localhost:9223\"}]"
    );
}

#[test]
fn upgrades() {
    assert!(handle_ws_upgrade(1, &state(None)).is_none());
    assert!(handle_ws_upgrade(3, &state(None)).is_none());
    let refusal = handle_ws_upgrade(2, &state(None)).unwrap();
    assert_eq!(refusal.status, 404);
    assert_eq!(refusal.headers.len(), 0);
    assert_eq!(refusal.body, "Page not found");
}

fn fetched(uri_path: &str, frontend: &str) -> String {
    match handle_devtools_static(uri_path, Some(frontend)) {
        StaticPlan::Fetch(url) => url,
        StaticPlan::Respond(r) => panic!("{} {}", r.status, r.body),
    }
}

fn refused(uri_path: &str, frontend: Option<&str>) -> (u16, String) {
    match handle_devtools_static(uri_path, frontend) {
        StaticPlan::Fetch(url) => panic!("{}", url),
        StaticPlan::Respond(r) => {
            assert!(has_cors(&r));
            (r.status, r.body)
        }
    }
}

#[test]
fn frontend_resources() {
    let fe = "http://f:8080/static/27/devtools.html?q=1";
    assert_eq!(fetched("/devtools/a/b.js", fe), "http://f:8080/static/27/a/b.js?q=1");
    assert_eq!(fetched("/devtools/", fe), "http://f:8080/static/27/devtools.html?q=1");
    assert_eq!(fetched("/other", fe), "http://f:8080/static/27/devtools.html?q=1");
    assert_eq!(fetched("/devtools/x", "https://f"), "https://f/x");
    assert_eq!(
        fetched("/devtools/x", "http://f/d\u{e9}/i.html"),
        "http://f/d%C3%A9/x"
    );
    match plan_static("/devtools/x", Some("https://f")) {
        Some(StaticPlan::Fetch(url)) => assert_eq!(url, "https://f/x"),
        _ => panic!("no plan"),
    }
}

#[test]
fn frontend_resources_that_are_refused() {
    let fe = Some("http://f/i.html");
    assert_eq!(refused("/devtools/x", None), (404, "Frontend is disabled.".to_string()));
    assert_eq!(
        refused("/devtools/x", Some("/usr/share/devtools.html")),
        (404, "Frontend URL is not http(s)://, cannot proxy.".to_string())
    );
    for path in ["/devtools/../x", "/devtools/a..b", "/devtools/a%20b", "/devtools/a?b", "/devtools/\u{e9}"] {
        assert_eq!(refused(path, fe), (403, "Invalid path".to_string()), "{}", path);
    }
    assert_eq!(
        refused("/devtools/x", Some("http://[bad/")),
        (502, "Invalid frontend URL".to_string())
    );
    let failed = fetch_failed("gone");
    assert_eq!(failed.status, 502);
    assert_eq!(failed.body, "Unable to fetch from frontend: gone");
}

#[test]
fn resource_targets() {
    assert_eq!(resource_target("/a/b/c.html", "x/y.js"), "/a/b/x/y.js");
    assert_eq!(resource_target("/a/b/c.html", ""), "/a/b/c.html");
    assert_eq!(resource_target("c.html", "x"), "/x");
    assert_eq!(resource_target("c.html", ""), "/c.html");
}

#[test]
fn connection_opens() {
    let message = opening_message(4, "ws");
    assert_eq!((message.page_num, message.ws_id.as_str()), (4, "ws"));
    assert!(message.data.is_empty() && !message.is_close);
    let (ws_id, message) = open_connection(4);
    assert_eq!(ws_id.len(), 36);
    assert_eq!(message.ws_id, ws_id);
    assert!(message.data.is_empty() && !message.is_close);
}

#[test]
fn connection_events() {
    let to_proxy = |event: WsEvent| match handle_ws_event(4, "ws", event) {
        (Some(WsAction::ToProxy(m)), next) => {
            assert_eq!((m.page_num, m.ws_id.as_str()), (4, "ws"));
            (m.data, m.is_close, next == WsNext::End)
        }
        _ => panic!("nothing for the proxy"),
    };
    assert_eq!(to_proxy(WsEvent::Message(vec![1])), (vec![1], false, false));
    assert_eq!(to_proxy(WsEvent::Closed), (vec![], true, true));
    match handle_ws_event(4, "ws", WsEvent::Ping(vec![2])) {
        (Some(WsAction::Pong(data)), WsNext::WaitIfSent) => assert_eq!(data, vec![2]),
        _ => panic!("no pong"),
    }
    match handle_ws_event(4, "ws", WsEvent::FromDevice(vec![b'a', 0xff])) {
        (Some(WsAction::Text(t)), WsNext::WaitIfSent) => assert_eq!(t, "a\u{fffd}"),
        _ => panic!("no text"),
    }
    assert!(matches!(handle_ws_event(4, "ws", WsEvent::Other), (None, WsNext::Wait)));
    assert!(matches!(handle_ws_event(4, "ws", WsEvent::Failed), (None, WsNext::End)));
    assert!(matches!(
        handle_ws_event(4, "ws", WsEvent::DeviceGone),
        (Some(WsAction::Close), WsNext::End)
    ));
}

#[test]
fn what_was_fetched() {
    let kind = Some(b"text/css".to_vec());
    for (status, given) in [(200, 200), (999, 999), (100, 100), (99, 502), (1000, 502), (0, 502)] {
        let answer = answer_fetched(status, kind.clone(), Some(vec![1, 0xff]));
        assert_eq!(answer.status, given);
        assert_eq!(answer.headers, cors_headers());
        assert_eq!(answer.content_type, kind);
        assert_eq!(answer.body, vec![1, 0xff]);
    }
    let answer = answer_fetched(404, None, None);
    assert_eq!(answer.status, 404);
    assert_eq!(answer.content_type, None);
    assert!(answer.body.is_empty());
}

#[test]
fn long_frontends_have_room() {
    let name = "x".repeat(100_000);
    let fe = format!("http://f/{}/i.html", name);
    assert_eq!(fetched("/devtools/a", &fe), format!("http://f/{}/a", name));
    assert!(plan_static("/devtools/a", Some(&fe)).is_some());
    assert!(plan_static("/devtools/a", Some("http://[bad/")).is_some());
    assert!(plan_static("/devtools/..", Some(&fe)).is_some());
}
