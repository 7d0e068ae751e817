//! What the HTTP endpoints answer, and what a WebSocket connection does.

use crate::rpc;
use crate::text;
use crate::{DeviceInfo, InfoView};
use vstd::prelude::*;
#[allow(unused_imports)]
use vstd::string::*;

verus! {

/// A page as the endpoints show it.
pub struct PageEntry {
    pub page_num: u32,
    pub app_id: String,
    pub page_id: u32,
    pub title: Option<String>,
    pub url: Option<String>,
    pub sender_id: Option<String>,
}

/// A [`PageEntry`] over characters.
pub struct EntryView {
    pub page_num: u32,
    pub app_id: Seq<char>,
    pub page_id: u32,
    pub title: Option<Seq<char>>,
    pub url: Option<Seq<char>>,
    pub sender_id: Option<Seq<char>>,
}

impl View for PageEntry {
    type V = EntryView;

    open spec fn view(&self) -> EntryView {
        EntryView {
            page_num: self.page_num,
            app_id: self.app_id@,
            page_id: self.page_id,
            title: text::option_view(self.title),
            url: text::option_view(self.url),
            sender_id: text::option_view(self.sender_id),
        }
    }
}

/// The views of a list of pages.
pub open spec fn entries_view(pages: Seq<PageEntry>) -> Seq<EntryView> {
    Seq::new(pages.len(), |i: int| pages[i]@)
}

impl Clone for PageEntry {
    fn clone(&self) -> (r: Self)
        ensures
            r@ == self@,
    {
        PageEntry {
            page_num: self.page_num,
            app_id: self.app_id.clone(),
            page_id: self.page_id,
            title: text::copy_option(&self.title),
            url: text::copy_option(&self.url),
            sender_id: text::copy_option(&self.sender_id),
        }
    }
}

/// What the endpoints of a device know of it.
pub struct DevicePortState {
    pub port: u16,
    pub device_id: Option<String>,
    pub device_name: Option<String>,
    pub device_os_version: u32,
    pub connected: bool,
    pub pages: Vec<PageEntry>,
    pub frontend: Option<String>,
}

/// A [`DevicePortState`] over characters.
pub struct PortStateView {
    pub port: u16,
    pub device_id: Option<Seq<char>>,
    pub device_name: Option<Seq<char>>,
    pub device_os_version: u32,
    pub connected: bool,
    pub pages: Seq<EntryView>,
    pub frontend: Option<Seq<char>>,
}

impl View for DevicePortState {
    type V = PortStateView;

    open spec fn view(&self) -> PortStateView {
        PortStateView {
            port: self.port,
            device_id: text::option_view(self.device_id),
            device_name: text::option_view(self.device_name),
            device_os_version: self.device_os_version,
            connected: self.connected,
            pages: entries_view(self.pages@),
            frontend: text::option_view(self.frontend),
        }
    }
}

/// A message from a WebSocket client for the device: without data it opens the debugging session
/// of its page, and with `is_close` it ends it.
pub struct WsToWiMessage {
    pub page_num: u32,
    pub ws_id: String,
    pub data: Vec<u8>,
    pub is_close: bool,
}

/// What the device list shows.
pub struct DeviceListState {
    pub devices: Vec<DeviceInfo>,
}

// ---------------------------------------------------------------------------------------------
// Answers
// ---------------------------------------------------------------------------------------------

/// An answer.
pub struct HttpResponse {
    pub status: u16,
    /// The headers that are set, by name and value. They may leave the content type open.
    pub headers: Vec<(String, String)>,
    /// Whether the body is HTML, where the headers do not say what it is; else it is plain text.
    pub html: bool,
    pub body: String,
}

/// Names with values.
pub type Pairs = Seq<(Seq<char>, Seq<char>)>;

/// An [`HttpResponse`] over characters.
pub struct ResponseView {
    pub status: u16,
    pub headers: Pairs,
    pub html: bool,
    pub body: Seq<char>,
}

/// Names with values by their views.
pub open spec fn pairs_view(pairs: Seq<(String, String)>) -> Pairs {
    Seq::new(pairs.len(), |i: int| (pairs[i].0@, pairs[i].1@))
}

/// Lists of names with values by their views.
pub open spec fn objects_view(objects: Seq<Vec<(String, String)>>) -> Seq<Pairs> {
    Seq::new(objects.len(), |i: int| pairs_view(objects[i]@))
}

impl View for HttpResponse {
    type V = ResponseView;

    open spec fn view(&self) -> ResponseView {
        ResponseView {
            status: self.status,
            headers: pairs_view(self.headers@),
            html: self.html,
            body: self.body@,
        }
    }
}

/// The headers that let a page from anywhere read an answer.
pub open spec fn cors() -> Pairs {
    seq![
        ("Access-Control-Allow-Origin"@, "*"@),
        ("Access-Control-Allow-Methods"@, "GET, HEAD"@),
    ]
}

/// Those headers and a content type.
pub open spec fn cors_with_type(content_type: Seq<char>) -> Pairs {
    cors().push(("content-type"@, content_type))
}

/// An answer to a request that may ask for the headers alone: then there is no body.
pub open spec fn answer(is_head: bool, response: ResponseView) -> ResponseView {
    if is_head {
        ResponseView { body: Seq::empty(), ..response }
    } else {
        response
    }
}

/// A page that is found.
pub open spec fn html_page(body: Seq<char>) -> ResponseView {
    ResponseView { status: 200, headers: cors(), html: true, body }
}

/// JSON that is found.
pub open spec fn json_found(body: Seq<char>) -> ResponseView {
    ResponseView {
        status: 200,
        headers: cors_with_type("application/json; charset=UTF-8"@),
        html: false,
        body,
    }
}

/// A refusal in plain words.
pub open spec fn refused(status: u16, words: Seq<char>) -> ResponseView {
    ResponseView { status, headers: cors(), html: false, body: words }
}

fn pair(name: &str, value: &str) -> (r: (String, String))
    ensures
        (r.0@, r.1@) == (name@, value@),
{
    (name.to_owned(), value.to_owned())
}

/// The headers that let a page from anywhere read an answer.
pub fn cors_headers() -> (r: Vec<(String, String)>)
    ensures
        pairs_view(r@) == cors(),
{
    let mut headers: Vec<(String, String)> = Vec::new();
    headers.push(pair("Access-Control-Allow-Origin", "*"));
    headers.push(pair("Access-Control-Allow-Methods", "GET, HEAD"));
    assert(pairs_view(headers@) =~= cors());
    headers
}

fn headers_with_type(content_type: &str) -> (r: Vec<(String, String)>)
    ensures
        pairs_view(r@) == cors_with_type(content_type@),
{
    let mut headers = cors_headers();
    let ghost before = headers@;
    headers.push(pair("content-type", content_type));
    assert(pairs_view(headers@) =~= pairs_view(before).push(("content-type"@, content_type@)));
    headers
}

/// The answer without its body if the headers alone were asked for.
fn without_body_if(is_head: bool, response: HttpResponse) -> (r: HttpResponse)
    ensures
        r@ == answer(is_head, response@),
{
    if is_head {
        let r = HttpResponse {
            status: response.status,
            headers: response.headers,
            html: response.html,
            body: String::new(),
        };
        assert(r.body@ =~= Seq::empty());
        r
    } else {
        response
    }
}

fn refuse(status: u16, words: &str) -> (r: HttpResponse)
    ensures
        r@ == refused(status, words@),
{
    HttpResponse { status, headers: cors_headers(), html: false, body: words.to_owned() }
}

fn json_answer(is_head: bool, body: String) -> (r: HttpResponse)
    ensures
        r@ == answer(is_head, json_found(body@)),
{
    without_body_if(
        is_head,
        HttpResponse {
            status: 200,
            headers: headers_with_type("application/json; charset=UTF-8"),
            html: false,
            body,
        },
    )
}

// ---------------------------------------------------------------------------------------------
// JSON
// ---------------------------------------------------------------------------------------------

/// What `serde_json::to_string` writes for an array of objects whose members are strings: nothing
/// where it fails.
pub uninterp spec fn json_objects(objects: Seq<Pairs>) -> Option<Seq<char>>;

/// What a `serde_json::Value` displays that is an object whose members are strings.
pub uninterp spec fn json_object(members: Pairs) -> Seq<char>;

/// `serde_json::to_string` of an array of objects whose members are strings. What it writes depends
/// on the members alone.
#[verifier::external_body]
fn objects_to_json(objects: &Vec<Vec<(String, String)>>) -> (r: Option<String>)
    ensures
        text::option_view(r) == json_objects(objects_view(objects@)),
{
    let items: Vec<serde_json::Value> = objects.iter().map(
        |o| o.iter().cloned().collect(),
    ).collect();
    serde_json::to_string(&items).ok()
}

/// The `Display` of a `serde_json::Value` that is an object whose members are strings. What it
/// writes depends on the members alone.
#[verifier::external_body]
fn object_to_json(members: &Vec<(String, String)>) -> (r: String)
    ensures
        r@ == json_object(pairs_view(members@)),
{
    members.iter().cloned().collect::<serde_json::Value>().to_string()
}

// ---------------------------------------------------------------------------------------------
// Pages of a device
// ---------------------------------------------------------------------------------------------

/// The address of the frontend for a page: none if there is no frontend.
pub open spec fn frontend_url(state: PortStateView, page_num: u32) -> Seq<char> {
    match state.frontend {
        Some(fe) => "/devtools/"@ + text::after_last(fe, '/') + "?ws=localhost:"@ + text::decimal(
            state.port as nat,
        ) + "/devtools/page/"@ + text::decimal(page_num as nat),
        None => Seq::empty(),
    }
}

/// A page in the list.
pub open spec fn page_item(state: PortStateView, page: EntryView) -> Seq<char> {
    "<li value=\""@ + text::decimal(page.page_num as nat) + "\"><a href=\""@ + frontend_url(
        state,
        page.page_num,
    ) + "\">"@ + text::chars_or(page.title, "?"@) + " - "@ + text::chars_or(page.url, "?"@)
        + "</a></li>"@
}

/// The list of pages.
pub open spec fn pages_html(state: PortStateView) -> Seq<char> {
    let name = text::chars_or(state.device_name, "Unknown"@);
    "<html><head><title>"@ + name + "</title></head><body>Inspectable pages for "@ + name
        + ":<p><ol>"@ + text::joined(
        Seq::new(state.pages.len(), |i: int| page_item(state, state.pages[i])),
        "\n"@,
    ) + "</ol></body></html>"@
}

/// What is told of a page.
pub open spec fn page_members(state: PortStateView, host: Seq<char>, page: EntryView) -> Pairs {
    let url = text::chars_or(page.url, Seq::empty());
    seq![
        ("devtoolsFrontendUrl"@, frontend_url(state, page.page_num)),
        ("faviconUrl"@, Seq::empty()),
        ("thumbnailUrl"@, "/thumb/"@ + url),
        ("title"@, text::chars_or(page.title, Seq::empty())),
        ("url"@, url),
        (
            "webSocketDebuggerUrl"@,
            "ws://"@ + host + ":"@ + text::decimal(state.port as nat) + "/devtools/page/"@
                + text::decimal(page.page_num as nat),
        ),
        ("appId"@, page.app_id),
    ]
}

/// What is told of all pages.
pub open spec fn pages_members(state: PortStateView, host: Seq<char>) -> Seq<Pairs> {
    Seq::new(state.pages.len(), |i: int| page_members(state, host, state.pages[i]))
}

/// The address of the frontend for a page.
pub fn generate_frontend_url(state: &DevicePortState, page_num: u32) -> (r: String)
    ensures
        r@ == frontend_url(state@, page_num),
{
    match &state.frontend {
        Some(fe) => {
            let mut s = "/devtools/".to_owned();
            s.append(text::tail_after(fe.as_str(), '/').as_str());
            s.append("?ws=localhost:");
            s.append(text::u64_text(state.port as u64).as_str());
            s.append("/devtools/page/");
            s.append(text::u64_text(page_num as u64).as_str());
            s
        },
        None => {
            let s = String::new();
            assert(s@ =~= Seq::empty());
            s
        },
    }
}

fn item_of_page(state: &DevicePortState, page: &PageEntry) -> (r: String)
    ensures
        r@ == page_item(state@, page@),
{
    let mut s = "<li value=\"".to_owned();
    s.append(text::u64_text(page.page_num as u64).as_str());
    s.append("\"><a href=\"");
    s.append(generate_frontend_url(state, page.page_num).as_str());
    s.append("\">");
    s.append(text::text_or(&page.title, "?").as_str());
    s.append(" - ");
    s.append(text::text_or(&page.url, "?").as_str());
    s.append("</a></li>");
    s
}

/// The list of pages.
pub fn build_pages_html(state: &DevicePortState) -> (r: String)
    ensures
        r@ == pages_html(state@),
{
    let ghost pages = state@.pages;
    let mut items: Vec<String> = Vec::new();
    let mut i: usize = 0;
    while i < state.pages.len()
        invariant
            i <= state.pages@.len(),
            pages == entries_view(state.pages@),
            text::strings(items@) =~= Seq::new(i as nat, |k: int| page_item(state@, pages[k])),
        decreases state.pages@.len() - i,
    {
        let ghost before = items@;
        items.push(item_of_page(state, &state.pages[i]));
        assert(text::strings(items@) =~= text::strings(before).push(
            page_item(state@, pages[i as int]),
        ));
        i = i + 1;
    }
    let name = text::text_or(&state.device_name, "Unknown");
    let mut s = "<html><head><title>".to_owned();
    s.append(name.as_str());
    s.append("</title></head><body>Inspectable pages for ");
    s.append(name.as_str());
    s.append(":<p><ol>");
    assert(text::strings(items@) =~= Seq::new(
        state@.pages.len(),
        |k: int| page_item(state@, state@.pages[k]),
    ));
    s.append(text::join(&items, "\n").as_str());
    s.append("</ol></body></html>");
    s
}

fn put(members: &mut Vec<(String, String)>, name: &str, value: String)
    ensures
        pairs_view(final(members)@) == pairs_view(old(members)@).push((name@, value@)),
{
    let ghost before = members@;
    members.push((name.to_owned(), value));
    assert(pairs_view(members@) =~= pairs_view(before).push((name@, value@)));
}

fn members_of_page(state: &DevicePortState, host: &str, page: &PageEntry) -> (r: Vec<
    (String, String),
>)
    ensures
        pairs_view(r@) == page_members(state@, host@, page@),
{
    proof {
        reveal_strlit("");
    }
    assert(""@ =~= Seq::<char>::empty());
    let url = text::text_or(&page.url, "");
    let mut thumbnail = "/thumb/".to_owned();
    thumbnail.append(url.as_str());
    let mut socket = "ws://".to_owned();
    socket.append(host);
    socket.append(":");
    socket.append(text::u64_text(state.port as u64).as_str());
    socket.append("/devtools/page/");
    socket.append(text::u64_text(page.page_num as u64).as_str());
    let mut members: Vec<(String, String)> = Vec::new();
    assert(pairs_view(members@) =~= Seq::empty());
    put(&mut members, "devtoolsFrontendUrl", generate_frontend_url(state, page.page_num));
    put(&mut members, "faviconUrl", "".to_owned());
    put(&mut members, "thumbnailUrl", thumbnail);
    put(&mut members, "title", text::text_or(&page.title, ""));
    put(&mut members, "url", url);
    put(&mut members, "webSocketDebuggerUrl", socket);
    put(&mut members, "appId", page.app_id.clone());
    assert(pairs_view(members@) =~= page_members(state@, host@, page@));
    members
}

/// What is told of the pages, before it is put into JSON.
pub fn describe_pages(state: &DevicePortState, host: &str) -> (r: Vec<Vec<(String, String)>>)
    ensures
        objects_view(r@) == pages_members(state@, host@),
{
    let ghost pages = state@.pages;
    let mut items: Vec<Vec<(String, String)>> = Vec::new();
    let mut i: usize = 0;
    while i < state.pages.len()
        invariant
            i <= state.pages@.len(),
            pages == entries_view(state.pages@),
            objects_view(items@) =~= Seq::new(
                i as nat,
                |k: int| page_members(state@, host@, pages[k]),
            ),
        decreases state.pages@.len() - i,
    {
        let ghost before = items@;
        items.push(members_of_page(state, host, &state.pages[i]));
        assert(objects_view(items@) =~= objects_view(before).push(
            page_members(state@, host@, pages[i as int]),
        ));
        i = i + 1;
    }
    assert(objects_view(items@) =~= pages_members(state@, host@));
    items
}

/// The JSON of objects: an empty array where it cannot be written.
pub open spec fn json_list(objects: Seq<Pairs>) -> Seq<char> {
    text::chars_or(json_objects(objects), "[]"@)
}

/// The list of pages in JSON.
pub fn build_pages_json(state: &DevicePortState, host: &str) -> (r: String)
    ensures
        r@ == json_list(pages_members(state@, host@)),
{
    let items = describe_pages(state, host);
    text::text_or(&objects_to_json(&items), "[]")
}

/// The host that a `Host` header names, without its port: `localhost` if there is no header.
pub open spec fn host_named(header: Option<Seq<char>>) -> Seq<char> {
    match header {
        Some(h) => if text::last_position(h, ':') >= 0 {
            h.take(text::last_position(h, ':'))
        } else {
            h
        },
        None => "localhost"@,
    }
}

/// Reads the host in a `Host` header.
pub fn host_without_port(header: Option<&str>) -> (r: String)
    ensures
        r@ == host_named(text::str_view(header)),
{
    match header {
        Some(h) => {
            let v = text::chars_of(h);
            match text::rfind_char(&v, ':') {
                Some(p) => {
                    proof {
                        text::lemma_last_position(h@, ':');
                    }
                    let host = h.substring_char(0, p).to_owned();
                    assert(host@ =~= h@.take(p as int));
                    host
                },
                None => h.to_owned(),
            }
        },
        None => "localhost".to_owned(),
    }
}

/// `GET /`: the list of pages.
pub fn handle_index(is_head: bool, state: &DevicePortState) -> (r: HttpResponse)
    ensures
        r@ == answer(is_head, html_page(pages_html(state@))),
{
    without_body_if(
        is_head,
        HttpResponse {
            status: 200,
            headers: cors_headers(),
            html: true,
            body: build_pages_html(state),
        },
    )
}

/// `GET /json` and `GET /json/list`: the list of pages in JSON.
pub fn handle_json(is_head: bool, host_header: Option<&str>, state: &DevicePortState) -> (r:
    HttpResponse)
    ensures
        r@ == answer(
            is_head,
            json_found(json_list(pages_members(state@, host_named(text::str_view(host_header))))),
        ),
{
    let host = host_without_port(host_header);
    json_answer(is_head, build_pages_json(state, host.as_str()))
}

/// What is told of this program.
pub open spec fn version_members() -> Pairs {
    seq![("Browser"@, "iOS WebKit Debug Proxy"@), ("Protocol-Version"@, "1.1"@)]
}

/// What is told of this program, before it is put into JSON.
pub fn describe_version() -> (r: Vec<(String, String)>)
    ensures
        pairs_view(r@) == version_members(),
{
    let mut members: Vec<(String, String)> = Vec::new();
    members.push(pair("Browser", "iOS WebKit Debug Proxy"));
    members.push(pair("Protocol-Version", "1.1"));
    assert(pairs_view(members@) =~= version_members());
    members
}

/// `GET /json/version`.
pub fn handle_json_version(is_head: bool) -> (r: HttpResponse)
    ensures
        r@ == answer(is_head, json_found(json_object(version_members()))),
{
    let members = describe_version();
    json_answer(is_head, object_to_json(&members))
}

/// Whether a page with this number is shown.
pub open spec fn shows_page(state: PortStateView, page_num: u32) -> bool {
    exists|i: int| 0 <= i < state.pages.len() && (#[trigger] state.pages[i]).page_num == page_num
}

/// `GET /devtools/page/{page_num}`: the refusal, if there is no such page to debug.
pub fn handle_ws_upgrade(page_num: u32, state: &DevicePortState) -> (r: Option<HttpResponse>)
    ensures
        r is None <==> shows_page(state@, page_num),
        r matches Some(response) ==> response@ == (ResponseView {
            status: 404,
            headers: Seq::empty(),
            html: false,
            body: "Page not found"@,
        }),
{
    let ghost pages = state@.pages;
    let mut i: usize = 0;
    while i < state.pages.len()
        invariant
            i <= state.pages@.len(),
            pages == entries_view(state.pages@),
            forall|k: int| 0 <= k < i ==> (#[trigger] pages[k]).page_num != page_num,
        decreases state.pages@.len() - i,
    {
        assert(pages[i as int].page_num == state.pages@[i as int].page_num);
        if state.pages[i].page_num == page_num {
            return None;
        }
        i = i + 1;
    }
    let r = HttpResponse {
        status: 404,
        headers: Vec::new(),
        html: false,
        body: "Page not found".to_owned(),
    };
    assert(r@.headers =~= Seq::empty());
    Some(r)
}

/// The words for an address at which there is nothing.
pub open spec fn not_found_html(path: Seq<char>) -> Seq<char> {
    "<html><body>404: "@ + path + " not found</body></html>"@
}

/// Any other address on a device's port.
pub fn handle_404(is_head: bool, path: &str) -> (r: HttpResponse)
    ensures
        r@ == answer(
            is_head,
            (ResponseView {
                status: 404,
                headers: cors_with_type("text/html; charset=UTF-8"@),
                html: false,
                body: not_found_html(path@),
            }),
        ),
{
    let mut body = "<html><body>404: ".to_owned();
    body.append(path);
    body.append(" not found</body></html>");
    without_body_if(
        is_head,
        HttpResponse {
            status: 404,
            headers: headers_with_type("text/html; charset=UTF-8"),
            html: false,
            body,
        },
    )
}

// ---------------------------------------------------------------------------------------------
// The device list
// ---------------------------------------------------------------------------------------------

/// A device in the list.
pub open spec fn device_item(d: InfoView) -> Seq<char> {
    "<li><a href=\"http://localhost:"@ + text::decimal(d.port as nat) + "/\">"@ + d.device_name
        + "</a> - "@ + d.device_id + "</li>"@
}

/// The list of devices.
pub open spec fn devices_html(devices: Seq<InfoView>) -> Seq<char> {
    "<html><head><title>iOS Devices</title></head><body>iOS Devices:<p><ol>"@ + text::joined(
        Seq::new(devices.len(), |i: int| device_item(devices[i])),
        "\n"@,
    ) + "</ol></body></html>"@
}

/// A packed version in words: three numbers below 256, with points between them.
pub open spec fn version_words(version: u32) -> Seq<char> {
    text::decimal((version as nat / 0x1_0000) % 256) + "."@ + text::decimal(
        (version as nat / 0x100) % 256,
    ) + "."@ + text::decimal(version as nat % 256)
}

/// What is told of a device.
pub open spec fn device_members(d: InfoView) -> Pairs {
    seq![
        ("deviceId"@, d.device_id),
        ("deviceName"@, d.device_name),
        ("deviceOSVersion"@, version_words(d.device_os_version)),
        ("url"@, "localhost:"@ + text::decimal(d.port as nat)),
    ]
}

/// What is told of all devices.
pub open spec fn devices_members(devices: Seq<InfoView>) -> Seq<Pairs> {
    Seq::new(devices.len(), |i: int| device_members(devices[i]))
}

fn item_of_device(d: &DeviceInfo) -> (r: String)
    ensures
        r@ == device_item(d@),
{
    let mut s = "<li><a href=\"http://localhost:".to_owned();
    s.append(text::u64_text(d.port as u64).as_str());
    s.append("/\">");
    s.append(d.device_name.as_str());
    s.append("</a> - ");
    s.append(d.device_id.as_str());
    s.append("</li>");
    s
}

/// `GET /` on the device list port: the list of devices.
pub fn handle_device_list_html(is_head: bool, state: &DeviceListState) -> (r: HttpResponse)
    ensures
        r@ == answer(is_head, html_page(devices_html(crate::infos_view(state.devices@)))),
{
    let ghost devices = crate::infos_view(state.devices@);
    let mut items: Vec<String> = Vec::new();
    let mut i: usize = 0;
    while i < state.devices.len()
        invariant
            i <= state.devices@.len(),
            devices == crate::infos_view(state.devices@),
            text::strings(items@) =~= Seq::new(i as nat, |k: int| device_item(devices[k])),
        decreases state.devices@.len() - i,
    {
        let ghost before = items@;
        items.push(item_of_device(&state.devices[i]));
        assert(text::strings(items@) =~= text::strings(before).push(
            device_item(devices[i as int]),
        ));
        i = i + 1;
    }
    let mut body =
        "<html><head><title>iOS Devices</title></head><body>iOS Devices:<p><ol>".to_owned();
    assert(text::strings(items@) =~= Seq::new(
        devices.len(),
        |k: int| device_item(devices[k]),
    ));
    body.append(text::join(&items, "\n").as_str());
    body.append("</ol></body></html>");
    without_body_if(
        is_head,
        HttpResponse { status: 200, headers: cors_headers(), html: true, body },
    )
}

fn words_of_version(version: u32) -> (r: String)
    ensures
        r@ == version_words(version),
{
    let major: u32 = (version >> 16) & 0xff;
    let minor: u32 = (version >> 8) & 0xff;
    let patch: u32 = version & 0xff;
    assert((version >> 16) & 0xff == (version / 65536) % 256) by (bit_vector);
    assert((version >> 8) & 0xff == (version / 256) % 256) by (bit_vector);
    assert(version & 0xff == version % 256) by (bit_vector);
    let mut s = text::u64_text(major as u64);
    s.append(".");
    s.append(text::u64_text(minor as u64).as_str());
    s.append(".");
    s.append(text::u64_text(patch as u64).as_str());
    s
}

fn members_of_device(d: &DeviceInfo) -> (r: Vec<(String, String)>)
    ensures
        pairs_view(r@) == device_members(d@),
{
    let mut url = "localhost:".to_owned();
    url.append(text::u64_text(d.port as u64).as_str());
    let mut members: Vec<(String, String)> = Vec::new();
    assert(pairs_view(members@) =~= Seq::empty());
    put(&mut members, "deviceId", d.device_id.clone());
    put(&mut members, "deviceName", d.device_name.clone());
    put(&mut members, "deviceOSVersion", words_of_version(d.device_os_version));
    put(&mut members, "url", url);
    assert(pairs_view(members@) =~= device_members(d@));
    members
}

/// What is told of the devices, before it is put into JSON.
pub fn describe_devices(state: &DeviceListState) -> (r: Vec<Vec<(String, String)>>)
    ensures
        objects_view(r@) == devices_members(crate::infos_view(state.devices@)),
{
    let ghost devices = crate::infos_view(state.devices@);
    let mut items: Vec<Vec<(String, String)>> = Vec::new();
    let mut i: usize = 0;
    while i < state.devices.len()
        invariant
            i <= state.devices@.len(),
            devices == crate::infos_view(state.devices@),
            objects_view(items@) =~= Seq::new(i as nat, |k: int| device_members(devices[k])),
        decreases state.devices@.len() - i,
    {
        let ghost before = items@;
        items.push(members_of_device(&state.devices[i]));
        assert(objects_view(items@) =~= objects_view(before).push(
            device_members(devices[i as int]),
        ));
        i = i + 1;
    }
    assert(objects_view(items@) =~= devices_members(devices));
    items
}

/// `GET /json` and `GET /json/list` on the device list port: the list of devices in JSON.
pub fn handle_device_list_json(is_head: bool, state: &DeviceListState) -> (r: HttpResponse)
    ensures
        r@ == answer(
            is_head,
            json_found(json_list(devices_members(crate::infos_view(state.devices@)))),
        ),
{
    let items = describe_devices(state);
    json_answer(is_head, text::text_or(&objects_to_json(&items), "[]"))
}

/// `GET /json/version` on the device list port.
pub fn handle_version_json(is_head: bool) -> (r: HttpResponse)
    ensures
        r@ == answer(is_head, json_found(json_object(version_members()))),
{
    handle_json_version(is_head)
}

/// Any other address on the device list port.
pub fn handle_404_simple() -> (r: HttpResponse)
    ensures
        r@ == refused(404, "<html><body>404 Not Found</body></html>"@),
{
    refuse(404, "<html><body>404 Not Found</body></html>")
}

// ---------------------------------------------------------------------------------------------
// The frontend
// ---------------------------------------------------------------------------------------------

/// The path of an address, as `url::Url` reads it: nothing where the address cannot be read.
pub uninterp spec fn url_path(address: Seq<char>) -> Option<Seq<char>>;

/// An address with another path, as `url::Url` writes it: nothing where the address cannot be read.
pub uninterp spec fn url_with_path(address: Seq<char>, path: Seq<char>) -> Option<Seq<char>>;

/// `url::Url::parse`, then `url::Url::path`: both depend on the address alone.
#[verifier::external_body]
fn path_of_url(address: &str) -> (r: Option<String>)
    ensures
        text::option_view(r) == url_path(address@),
{
    url::Url::parse(address).ok().map(|parsed| parsed.path().to_string())
}

/// An address as `url::Url` writes it: nothing where the address cannot be read.
pub uninterp spec fn url_written(address: Seq<char>) -> Option<Seq<char>>;

/// `url::Url::parse`, then its `Display`: both depend on the address alone. An address can be read
/// here just if its path can.
#[verifier::external_body]
fn write_url(address: &str) -> (r: Option<String>)
    ensures
        text::option_view(r) == url_written(address@),
        r is Some <==> url_path(address@) is Some,
{
    url::Url::parse(address).ok().map(|parsed| parsed.to_string())
}

/// The most bytes that `url::Url` writes for a character of a path: one if it is written as it is,
/// or else three for each of its bytes.
pub open spec fn char_cost(c: char) -> nat {
    if c as u32 >= 0x7f {
        12
    } else if c <= ' ' || c == '"' || c == '<' || c == '>' || c == '`' || c == '#' || c == '?' || c
        == '{' || c == '}' {
        3
    } else {
        1
    }
}

/// The most bytes that `url::Url` writes for the characters of a path.
pub open spec fn path_cost(path: Seq<char>) -> nat
    decreases path.len(),
{
    if path.len() == 0 {
        0
    } else {
        path_cost(path.drop_last()) + char_cost(path.last())
    }
}

/// The most bytes that `url::Url` can have room for: it counts them in 32 bits.
pub const URL_LIMIT: u64 = 0xffff_ffff;

/// What `url::Url` may write in front of a path, or within it to keep it one, in bytes.
pub const PATH_SLACK: u64 = 8;

/// Whether there is room for an address, as it is written, and for it with another path.
pub open spec fn has_url_room(written: Seq<char>, own_path: Seq<char>, path: Seq<char>) -> bool {
    let bytes = vstd::utf8::encode_utf8(written).len();
    let own = vstd::utf8::encode_utf8(own_path).len();
    bytes <= URL_LIMIT && bytes - own + path_cost(path) + PATH_SLACK <= URL_LIMIT
}

/// `url::Url::parse`, then `url::Url::set_path` and its `Display`: all depend on the address and
/// the path alone. An address can be read here just if its path can. `set_path` panics where what
/// it writes is too long for the 32 bits in which it counts.
#[verifier::external_body]
fn url_at_path(address: &str, path: &str) -> (r: Option<String>)
    requires
        url_path(address@) is Some ==> url_written(address@) is Some && has_url_room(
            url_written(address@).unwrap(),
            url_path(address@).unwrap(),
            path@,
        ),
    ensures
        text::option_view(r) == url_with_path(address@, path@),
        r is Some <==> url_path(address@) is Some,
{
    let mut target = url::Url::parse(address).ok()?;
    target.set_path(path);
    Some(target.to_string())
}

/// Whether a character may stand in the path of a frontend resource.
pub open spec fn is_safe_char(c: char) -> bool {
    ('a' <= c <= 'z') || ('A' <= c <= 'Z') || ('0' <= c <= '9') || c == '-' || c == '.' || c == '/'
        || c == '_'
}

/// Whether a path stays below the frontend: it does not go up, and has only plain characters.
pub open spec fn is_safe_path(path: Seq<char>) -> bool {
    &&& !text::has_pair(path, '.')
    &&& forall|i: int| 0 <= i < path.len() ==> is_safe_char(#[trigger] path[i])
}

/// The path that a request asks for below `/devtools/`.
pub open spec fn resource_path(uri_path: Seq<char>) -> Seq<char> {
    if text::begins_with(uri_path, "/devtools/"@) {
        uri_path.skip(10)
    } else {
        Seq::empty()
    }
}

/// Where a resource is on the frontend's server: in the directory of the frontend's own file, or
/// that file itself if no resource is named.
pub open spec fn target_path(frontend_path: Seq<char>, path: Seq<char>) -> Seq<char> {
    let p = text::last_position(frontend_path, '/');
    let dir = if p >= 0 {
        frontend_path.take(p + 1)
    } else {
        "/"@
    };
    dir + (if path.len() == 0 {
        text::after_last(frontend_path, '/')
    } else {
        path
    })
}

/// Whether the frontend can be fetched from a server.
pub open spec fn is_http(address: Seq<char>) -> bool {
    text::begins_with(address, "http://"@) || text::begins_with(address, "https://"@)
}

/// What is to be done about a request for a frontend resource.
pub enum StaticPlan {
    /// Answer with this.
    Respond(HttpResponse),
    /// Fetch this address and answer with what comes.
    Fetch(String),
}

/// A [`StaticPlan`] over characters.
pub enum PlanView {
    Respond(ResponseView),
    Fetch(Seq<char>),
}

impl View for StaticPlan {
    type V = PlanView;

    open spec fn view(&self) -> PlanView {
        match *self {
            StaticPlan::Respond(r) => PlanView::Respond(r@),
            StaticPlan::Fetch(url) => PlanView::Fetch(url@),
        }
    }
}

/// What is to be done about a request for a frontend resource: refused if there is no frontend, if
/// it is not on a server, or if the path is not safe.
pub open spec fn static_refusal(uri_path: Seq<char>, frontend: Option<Seq<char>>) -> Option<
    ResponseView,
> {
    match frontend {
        None => Some(refused(404, "Frontend is disabled."@)),
        Some(fe) => if !is_http(fe) {
            Some(refused(404, "Frontend URL is not http(s)://, cannot proxy."@))
        } else if !is_safe_path(resource_path(uri_path)) {
            Some(refused(403, "Invalid path"@))
        } else {
            None
        },
    }
}

/// What is to be done about a request for a frontend resource.
pub open spec fn static_plan(uri_path: Seq<char>, frontend: Option<Seq<char>>) -> PlanView {
    match static_refusal(uri_path, frontend) {
        Some(refusal) => PlanView::Respond(refusal),
        None => match url_path(frontend.unwrap()) {
            None => PlanView::Respond(refused(502, "Invalid frontend URL"@)),
            Some(fe_path) => PlanView::Fetch(
                url_with_path(
                    frontend.unwrap(),
                    target_path(fe_path, resource_path(uri_path)),
                ).unwrap(),
            ),
        },
    }
}

/// Tests whether a path stays below the frontend.
fn path_is_safe(path: &str) -> (r: bool)
    ensures
        r == is_safe_path(path@),
{
    if text::contains_pair(path, '.') {
        return false;
    }
    let v = text::chars_of(path);
    let mut i: usize = 0;
    while i < v.len()
        invariant
            i <= v@.len(),
            v@ == path@,
            forall|k: int| 0 <= k < i ==> is_safe_char(#[trigger] v@[k]),
        decreases v@.len() - i,
    {
        let c = v[i];
        let safe = (c >= 'a' && c <= 'z') || (c >= 'A' && c <= 'Z') || (c >= '0' && c <= '9') || c
            == '-' || c == '.' || c == '/' || c == '_';
        if !safe {
            assert(!is_safe_char(path@[i as int]));
            return false;
        }
        i = i + 1;
    }
    true
}

/// Where a resource is on the frontend's server.
pub fn resource_target(frontend_path: &str, path: &str) -> (r: String)
    ensures
        r@ == target_path(frontend_path@, path@),
{
    let v = text::chars_of(frontend_path);
    let mut out = match text::rfind_char(&v, '/') {
        Some(p) => {
            proof {
                text::lemma_last_position(frontend_path@, '/');
            }
            let dir = frontend_path.substring_char(0, p + 1).to_owned();
            assert(dir@ =~= frontend_path@.take(p + 1));
            dir
        },
        None => "/".to_owned(),
    };
    if path.is_empty() {
        out.append(text::tail_after(frontend_path, '/').as_str());
    } else {
        out.append(path);
    }
    out
}

/// Refuses a request for a frontend resource where it must be.
pub fn refuse_static(uri_path: &str, frontend: Option<&str>) -> (r: Option<HttpResponse>)
    ensures
        r is Some <==> static_refusal(uri_path@, text::str_view(frontend)) is Some,
        r matches Some(response) ==> Some(response@) == static_refusal(
            uri_path@,
            text::str_view(frontend),
        ),
{
    let path = path_below_devtools(uri_path);
    match frontend {
        None => Some(refuse(404, "Frontend is disabled.")),
        Some(fe) => if !text::starts_with(fe, "http://") && !text::starts_with(fe, "https://") {
            Some(refuse(404, "Frontend URL is not http(s)://, cannot proxy."))
        } else if !path_is_safe(path.as_str()) {
            Some(refuse(403, "Invalid path"))
        } else {
            None
        },
    }
}

/// Whether there is room for the address of a resource, if it is to be fetched.
pub open spec fn static_fits(uri_path: Seq<char>, frontend: Option<Seq<char>>) -> bool {
    static_refusal(uri_path, frontend) is None ==> match url_path(frontend.unwrap()) {
        Some(fe_path) => url_written(frontend.unwrap()) matches Some(written) && has_url_room(
            written,
            fe_path,
            target_path(fe_path, resource_path(uri_path)),
        ),
        None => true,
    }
}

/// The path that a request asks for below `/devtools/`.
fn path_below_devtools(uri_path: &str) -> (r: String)
    ensures
        r@ == resource_path(uri_path@),
{
    proof {
        reveal_strlit("");
        reveal_strlit("/devtools/");
    }
    let path = match text::strip_prefix(uri_path, "/devtools/") {
        Some(path) => path,
        None => "".to_owned(),
    };
    assert(path@ =~= resource_path(uri_path@));
    path
}

/// `GET /devtools/*`: what is to be done.
pub fn handle_devtools_static(uri_path: &str, frontend: Option<&str>) -> (r: StaticPlan)
    requires
        static_fits(uri_path@, text::str_view(frontend)),
    ensures
        r@ == static_plan(uri_path@, text::str_view(frontend)),
{
    if let Some(refusal) = refuse_static(uri_path, frontend) {
        return StaticPlan::Respond(refusal);
    }
    let path = path_below_devtools(uri_path);
    match frontend {
        Some(fe) => match path_of_url(fe) {
            Some(fe_path) => {
                let target = resource_target(fe_path.as_str(), path.as_str());
                match url_at_path(fe, target.as_str()) {
                    Some(url) => StaticPlan::Fetch(url),
                    None => StaticPlan::Respond(refuse(502, "Invalid frontend URL")),
                }
            },
            None => StaticPlan::Respond(refuse(502, "Invalid frontend URL")),
        },
        None => StaticPlan::Respond(refuse(404, "Frontend is disabled.")),
    }
}

/// Tests whether there is room for an address, as it is written, and for it with another path.
fn url_fits(written: &str, own_path: &str, path: &str) -> (r: bool)
    ensures
        r == has_url_room(written@, own_path@, path@),
{
    let bytes: u128 = written.as_bytes().len() as u128;
    if bytes > URL_LIMIT as u128 {
        return false;
    }
    let own: u128 = own_path.as_bytes().len() as u128;
    let room: u128 = URL_LIMIT as u128 + own;
    let v = text::chars_of(path);
    let mut used: u128 = bytes + PATH_SLACK as u128;
    let mut i: usize = 0;
    while i < v.len()
        invariant
            i <= v@.len(),
            v@ == path@,
            bytes == vstd::utf8::encode_utf8(written@).len(),
            bytes <= URL_LIMIT,
            used == bytes + PATH_SLACK + path_cost(path@.take(i as int)),
            used <= bytes + PATH_SLACK + 12 * i,
        decreases v@.len() - i,
    {
        let c = v[i];
        assert(path@.take(i + 1).drop_last() =~= path@.take(i as int));
        assert(path@.take(i + 1).last() == c);
        let cost: u128 = if c as u32 >= 0x7f {
            12
        } else if c <= ' ' || c == '"' || c == '<' || c == '>' || c == '`' || c == '#' || c == '?'
            || c == '{' || c == '}' {
            3
        } else {
            1
        };
        used = used + cost;
        i = i + 1;
    }
    assert(path@.take(path@.len() as int) =~= path@);
    used <= room
}

/// Tests whether there is room for the address of a resource, if it is to be fetched.
fn static_has_room(uri_path: &str, frontend: Option<&str>) -> (r: bool)
    ensures
        r == static_fits(uri_path@, text::str_view(frontend)),
{
    if refuse_static(uri_path, frontend).is_some() {
        return true;
    }
    match frontend {
        Some(fe) => match path_of_url(fe) {
            Some(fe_path) => {
                let path = path_below_devtools(uri_path);
                let target = resource_target(fe_path.as_str(), path.as_str());
                match write_url(fe) {
                    Some(written) => url_fits(written.as_str(), fe_path.as_str(), target.as_str()),
                    None => false,
                }
            },
            None => true,
        },
        None => true,
    }
}

/// `GET /devtools/*`: what is to be done, if there is room for the address that it takes.
pub fn plan_static(uri_path: &str, frontend: Option<&str>) -> (r: Option<StaticPlan>)
    ensures
        r is Some <==> static_fits(uri_path@, text::str_view(frontend)),
        r matches Some(plan) ==> plan@ == static_plan(uri_path@, text::str_view(frontend)),
{
    if static_has_room(uri_path, frontend) {
        Some(handle_devtools_static(uri_path, frontend))
    } else {
        None
    }
}

/// An answer made of what the frontend's server sent.
pub struct FetchedResponse {
    pub status: u16,
    /// The headers that are set, by name and value, but for the content type.
    pub headers: Vec<(String, String)>,
    /// The content type, if the server sent one.
    pub content_type: Option<Vec<u8>>,
    pub body: Vec<u8>,
}

/// Whether a number is a status code.
pub open spec fn is_status(status: u16) -> bool {
    100 <= status <= 999
}

/// The answer made of what the frontend's server sent: its status if that is one, its content type
/// and its body, if it could be read.
pub fn fetched(status: u16, content_type: Option<Vec<u8>>, body: Option<Vec<u8>>) -> (r:
    FetchedResponse)
    ensures
        r.status == (if is_status(status) {
            status
        } else {
            502
        }),
        pairs_view(r.headers@) == cors(),
        r.content_type == content_type,
        match body {
            Some(b) => r.body == b,
            None => r.body@ == Seq::<u8>::empty(),
        },
{
    let body = match body {
        Some(b) => b,
        None => Vec::new(),
    };
    let status = if status >= 100 && status <= 999 {
        status
    } else {
        502
    };
    FetchedResponse { status, headers: cors_headers(), content_type, body }
}

/// The answer when the frontend's server could not be asked, with the reason.
pub fn fetch_failed(reason: &str) -> (r: HttpResponse)
    ensures
        r@ == refused(502, "Unable to fetch from frontend: "@ + reason@),
{
    let mut words = "Unable to fetch from frontend: ".to_owned();
    words.append(reason);
    refuse(502, words.as_str())
}

// ---------------------------------------------------------------------------------------------
// WebSocket connections
// ---------------------------------------------------------------------------------------------

/// Something that happens on a WebSocket connection.
pub enum WsEvent {
    /// The client has sent text or data.
    Message(Vec<u8>),
    /// The client wants a sign of life.
    Ping(Vec<u8>),
    /// The client has closed the connection, or it has ended.
    Closed,
    /// The client has sent something that needs no answer.
    Other,
    /// The connection has failed.
    Failed,
    /// The device has sent a message for the client.
    FromDevice(Vec<u8>),
    /// There will be no more messages from the device.
    DeviceGone,
}

/// What is to be done on a WebSocket connection.
pub enum WsAction {
    /// Hand this to the proxy.
    ToProxy(WsToWiMessage),
    /// Answer a ping.
    Pong(Vec<u8>),
    /// Send text to the client.
    Text(String),
    /// Close the connection.
    Close,
}

/// What comes after an action.
#[derive(Clone, Copy, PartialEq, Eq, Structural)]
pub enum WsNext {
    /// The next event.
    Wait,
    /// The next event, unless the action failed: then the end.
    WaitIfSent,
    /// The end.
    End,
}

/// A [`WsAction`] over characters and bytes.
pub enum WsActionView {
    ToProxy { page_num: u32, ws_id: Seq<char>, data: Seq<u8>, is_close: bool },
    Pong(Seq<u8>),
    Text(Seq<char>),
    Close,
}

impl WsAction {
    pub open spec fn view(self) -> WsActionView {
        match self {
            WsAction::ToProxy(m) => WsActionView::ToProxy {
                page_num: m.page_num,
                ws_id: m.ws_id@,
                data: m.data@,
                is_close: m.is_close,
            },
            WsAction::Pong(data) => WsActionView::Pong(data@),
            WsAction::Text(t) => WsActionView::Text(t@),
            WsAction::Close => WsActionView::Close,
        }
    }
}

/// An optional action by its view.
pub open spec fn ws_action_view(a: Option<WsAction>) -> Option<WsActionView> {
    match a {
        Some(a) => Some(a@),
        None => None,
    }
}

/// What an event on the connection of a client calls for.
pub open spec fn ws_step(page_num: u32, ws_id: Seq<char>, event: WsEvent) -> (
    Option<WsActionView>,
    WsNext,
) {
    match event {
        WsEvent::Message(data) => (
            Some(WsActionView::ToProxy { page_num, ws_id, data: data@, is_close: false }),
            WsNext::Wait,
        ),
        WsEvent::Ping(data) => (Some(WsActionView::Pong(data@)), WsNext::WaitIfSent),
        WsEvent::Closed => (
            Some(WsActionView::ToProxy { page_num, ws_id, data: Seq::empty(), is_close: true }),
            WsNext::End,
        ),
        WsEvent::Other => (None, WsNext::Wait),
        WsEvent::Failed => (None, WsNext::End),
        WsEvent::FromDevice(data) => (
            Some(WsActionView::Text(text::utf8_lossy(data@))),
            WsNext::WaitIfSent,
        ),
        WsEvent::DeviceGone => (Some(WsActionView::Close), WsNext::End),
    }
}

/// The message that opens the debugging session of a page.
pub fn opening_message(page_num: u32, ws_id: &str) -> (r: WsToWiMessage)
    ensures
        r.page_num == page_num,
        r.ws_id@ == ws_id@,
        r.data@ == Seq::<u8>::empty(),
        !r.is_close,
{
    WsToWiMessage { page_num, ws_id: ws_id.to_owned(), data: Vec::new(), is_close: false }
}

/// A new name for a client, and the message in that name that opens the debugging session of a
/// page.
pub fn open_connection(page_num: u32) -> (r: (String, WsToWiMessage))
    ensures
        rpc::is_upper_uuid(r.0@),
        r.1.page_num == page_num,
        r.1.ws_id@ == r.0@,
        r.1.data@ == Seq::<u8>::empty(),
        !r.1.is_close,
{
    let ws_id = rpc::new_uuid();
    let message = opening_message(page_num, ws_id.as_str());
    (ws_id, message)
}

/// Decides what an event on the connection of a client calls for.
pub fn handle_ws_event(page_num: u32, ws_id: &str, event: WsEvent) -> (r: (
    Option<WsAction>,
    WsNext,
))
    ensures
        (ws_action_view(r.0), r.1) == ws_step(page_num, ws_id@, event),
{
    match event {
        WsEvent::Message(data) => (
            Some(
                WsAction::ToProxy(
                    WsToWiMessage { page_num, ws_id: ws_id.to_owned(), data, is_close: false },
                ),
            ),
            WsNext::Wait,
        ),
        WsEvent::Ping(data) => (Some(WsAction::Pong(data)), WsNext::WaitIfSent),
        WsEvent::Closed => {
            let data: Vec<u8> = Vec::new();
            (
                Some(
                    WsAction::ToProxy(
                        WsToWiMessage { page_num, ws_id: ws_id.to_owned(), data, is_close: true },
                    ),
                ),
                WsNext::End,
            )
        },
        WsEvent::Other => (None, WsNext::Wait),
        WsEvent::Failed => (None, WsNext::End),
        WsEvent::FromDevice(data) => (
            Some(WsAction::Text(text::from_utf8_lossy(data.as_slice()))),
            WsNext::WaitIfSent,
        ),
        WsEvent::DeviceGone => (Some(WsAction::Close), WsNext::End),
    }
}

// ---------------------------------------------------------------------------------------------
// What always holds
// ---------------------------------------------------------------------------------------------

/// A request for the headers alone is answered as the request for the whole is, without the body.
pub proof fn law_head(response: ResponseView)
    ensures
        answer(true, response).status == answer(false, response).status,
        answer(true, response).headers == answer(false, response).headers,
        answer(true, response).html == answer(false, response).html,
        answer(true, response).body == Seq::<char>::empty(),
        answer(false, response) == response,
{
}

/// What is fetched for a request comes from below the frontend's own directory: no part of the
/// path that was asked for goes up, and the path that is fetched begins with that directory. And
/// nothing is fetched for a path that does go up.
pub proof fn law_stays_below_frontend(uri_path: Seq<char>, frontend: Seq<char>, fe_path: Seq<char>)
    requires
        url_path(frontend) == Some(fe_path),
        text::last_position(fe_path, '/') >= 0,
    ensures
        text::begins_with(
            target_path(fe_path, resource_path(uri_path)),
            fe_path.take(text::last_position(fe_path, '/') + 1),
        ),
        static_plan(uri_path, Some(frontend)) is Fetch ==> is_safe_path(resource_path(uri_path)),
        text::has_pair(resource_path(uri_path), '.') ==> static_plan(
            uri_path,
            Some(frontend),
        ) is Respond,
{
    let p = text::last_position(fe_path, '/');
    text::lemma_last_position(fe_path, '/');
    let dir = fe_path.take(p + 1);
    let target = target_path(fe_path, resource_path(uri_path));
    assert(target.take(p + 1) =~= dir);
}

/// A request that names no resource gets the frontend's own file.
pub proof fn law_frontend_itself(fe_path: Seq<char>)
    requires
        text::last_position(fe_path, '/') >= 0,
    ensures
        target_path(fe_path, Seq::empty()) == fe_path,
{
    text::lemma_last_position(fe_path, '/');
    assert(target_path(fe_path, Seq::empty()) =~= fe_path);
}

/// Whatever happens on a connection, what is handed to the proxy is in the name of its client and
/// for its page; and a connection that its client closes ends with word to the proxy.
pub proof fn law_ws_step(page_num: u32, ws_id: Seq<char>, event: WsEvent)
    ensures
        ws_step(page_num, ws_id, event).0 matches Some(
            WsActionView::ToProxy { page_num: p, ws_id: w, .. },
        ) ==> p == page_num && w == ws_id,
        event is Closed ==> ws_step(page_num, ws_id, event) == (
            Some(WsActionView::ToProxy { page_num, ws_id, data: Seq::empty(), is_close: true }),
            WsNext::End,
        ),
{
}

} // verus!
