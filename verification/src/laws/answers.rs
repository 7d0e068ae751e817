//! What the HTTP endpoints answer, and what happens on a WebSocket connection.

use crate::http_server;
use crate::http_server::{EntryView, Pairs, PlanView, PortStateView, WsActionView, WsEvent, WsNext};
use crate::idevice_ext;
use crate::laws::numerals;
use crate::proxy;
use crate::text;
use crate::InfoView;
use vstd::prelude::*;
#[allow(unused_imports)]
use vstd::string::*;

verus! {

/// The value of the first member with a name.
pub open spec fn member(members: Pairs, name: Seq<char>) -> Option<Seq<char>>
    decreases members.len(),
{
    if members.len() == 0 {
        None
    } else if members[0].0 == name {
        Some(members[0].1)
    } else {
        member(members.skip(1), name)
    }
}

proof fn lemma_member(members: Pairs, i: int)
    requires
        0 <= i < members.len(),
        forall|k: int| 0 <= k < i ==> (#[trigger] members[k]).0 != members[i].0,
    ensures
        member(members, members[i].0) == Some(members[i].1),
    decreases members.len(),
{
    if i > 0 {
        let rest = members.skip(1);
        assert(members[0].0 != members[i].0);
        assert(rest[i - 1] == members[i]);
        assert forall|k: int| 0 <= k < i - 1 implies (#[trigger] rest[k]).0 != rest[i - 1].0 by {
            assert(rest[k] == members[k + 1]);
        }
        lemma_member(rest, i - 1);
    }
}

/// What is there of an optional text: nothing where there is none.
pub open spec fn or_empty(s: Option<Seq<char>>) -> Seq<char> {
    match s {
        Some(t) => t,
        None => Seq::empty(),
    }
}

// ---------------------------------------------------------------------------------------------
// Addresses of debuggers
// ---------------------------------------------------------------------------------------------

/// The host, the port and the number of the page that the address of a debugger names, if it is
/// one.
pub open spec fn debugger_in(url: Seq<char>) -> Option<(Seq<char>, nat, nat)> {
    let number = text::after_last(url, '/');
    let middle = "/devtools/page/"@;
    let end = url.len() - number.len() - middle.len();
    let front = url.take(end);
    let port = text::after_last(front, ':');
    let head = "ws://"@;
    if end >= 0 && url.subrange(end, end + middle.len()) == middle && text::begins_with(front, head)
        && text::numeral(number) is Some && text::numeral(port) is Some && front.len()
        >= head.len() + port.len() + 1 {
        Some(
            (
                front.subrange(head.len() as int, front.len() - port.len() - 1),
                text::numeral(port).unwrap(),
                text::numeral(number).unwrap(),
            ),
        )
    } else {
        None
    }
}

/// No numeral holds a character that is no digit.
proof fn lemma_digits_only(n: nat, c: char)
    requires
        !('0' <= c <= '9'),
    ensures
        !text::decimal(n).contains(c),
{
    numerals::law_numeral_reads_back(n);
    let s = text::decimal(n);
    assert forall|i: int| 0 <= i < s.len() implies s[i] != c by {
        assert('0' <= s[i] <= '9');
    }
}

proof fn lemma_debugger_in(host: Seq<char>, port: nat, page_num: nat)
    ensures
        debugger_in(
            "ws://"@ + host + ":"@ + text::decimal(port) + "/devtools/page/"@ + text::decimal(
                page_num,
            ),
        ) == Some((host, port, page_num)),
{
    let head = "ws://"@;
    let middle = "/devtools/page/"@;
    let p = text::decimal(port);
    let n = text::decimal(page_num);
    let front = head + host + ":"@ + p;
    let url = front + middle + n;
    assert(url =~= "ws://"@ + host + ":"@ + p + "/devtools/page/"@ + n);
    reveal_strlit("/devtools/page/");
    reveal_strlit(":");
    numerals::law_numeral_reads_back(port);
    numerals::law_numeral_reads_back(page_num);
    lemma_digits_only(page_num, '/');
    lemma_digits_only(port, ':');
    assert(url =~= (front + middle.drop_last()) + seq!['/'] + n);
    numerals::law_last(front + middle.drop_last(), n, '/');
    assert(front =~= (head + host) + seq![':'] + p);
    numerals::law_last(head + host, p, ':');
    assert(url.take(front.len() as int) =~= front);
    assert(url.subrange(front.len() as int, front.len() as int + middle.len()) =~= middle);
    assert(front.take(head.len() as int) =~= head);
    assert(front.subrange(head.len() as int, front.len() - p.len() - 1) =~= host);
}

/// The address of the debugger that is told of a page leads to the page: it names the host that was
/// asked, the port of the device and the number of the page.
pub proof fn law_debugger_address_leads_to_page(
    state: PortStateView,
    host: Seq<char>,
    page: EntryView,
)
    ensures
        member(http_server::page_members(state, host, page), "webSocketDebuggerUrl"@) matches Some(
            url,
        ) && debugger_in(url) == Some((host, state.port as nat, page.page_num as nat)),
{
    lemma_page_members(state, host, page);
    lemma_debugger_in(host, state.port as nat, page.page_num as nat);
}

/// Two pages that differ in their number, or that are on different ports or asked of different
/// hosts, are never told with the same address.
pub proof fn law_debugger_addresses_differ(
    a: PortStateView,
    host_a: Seq<char>,
    page_a: EntryView,
    b: PortStateView,
    host_b: Seq<char>,
    page_b: EntryView,
)
    requires
        a.port != b.port || host_a != host_b || page_a.page_num != page_b.page_num,
    ensures
        member(http_server::page_members(a, host_a, page_a), "webSocketDebuggerUrl"@) != member(
            http_server::page_members(b, host_b, page_b),
            "webSocketDebuggerUrl"@,
        ),
{
    law_debugger_address_leads_to_page(a, host_a, page_a);
    law_debugger_address_leads_to_page(b, host_b, page_b);
}

/// The page that an address in the list names is there to be debugged: a client that comes to it is
/// not refused.
pub proof fn law_listed_page_can_be_opened(state: PortStateView, host: Seq<char>, i: int)
    requires
        0 <= i < state.pages.len(),
    ensures
        ({
            let all = http_server::pages_members(state, host);
            &&& all.len() == state.pages.len()
            &&& member(all[i], "webSocketDebuggerUrl"@) matches Some(url) && debugger_in(
                url,
            ) matches Some((h, port, n)) && h == host && port == state.port && n
                == state.pages[i].page_num && http_server::shows_page(state, n as u32)
        }),
{
    law_debugger_address_leads_to_page(state, host, state.pages[i]);
    assert(state.pages[i].page_num == state.pages[i].page_num);
}

/// A page is there to be debugged just if it is among those of the device.
pub proof fn law_page_is_there(state: PortStateView, page: EntryView)
    ensures
        http_server::shows_page(PortStateView { pages: state.pages.push(page), ..state }, page.page_num),
        state.pages.len() == 0 ==> !http_server::shows_page(state, page.page_num),
        forall|n: u32|
            n != page.page_num ==> (#[trigger] http_server::shows_page(
                PortStateView { pages: state.pages.push(page), ..state },
                n,
            ) <==> http_server::shows_page(state, n)),
{
    let more = PortStateView { pages: state.pages.push(page), ..state };
    assert(more.pages[state.pages.len() as int].page_num == page.page_num);
    assert forall|n: u32| n != page.page_num implies (#[trigger] http_server::shows_page(more, n)
        <==> http_server::shows_page(state, n)) by {
        if http_server::shows_page(more, n) {
            let k = choose|k: int| 0 <= k < more.pages.len() && (#[trigger] more.pages[k]).page_num == n;
            assert(state.pages[k].page_num == n);
        }
        if http_server::shows_page(state, n) {
            let k = choose|k: int|
                0 <= k < state.pages.len() && (#[trigger] state.pages[k]).page_num == n;
            assert(more.pages[k].page_num == n);
        }
    }
}

// ---------------------------------------------------------------------------------------------
// Pages
// ---------------------------------------------------------------------------------------------

proof fn lemma_page_members(state: PortStateView, host: Seq<char>, page: EntryView)
    ensures
        ({
            let m = http_server::page_members(state, host, page);
            forall|i: int| 0 <= i < m.len() ==> member(m, (#[trigger] m[i]).0) == Some(m[i].1)
        }),
{
    let m = http_server::page_members(state, host, page);
    reveal_strlit("devtoolsFrontendUrl");
    reveal_strlit("faviconUrl");
    reveal_strlit("thumbnailUrl");
    reveal_strlit("title");
    reveal_strlit("url");
    reveal_strlit("webSocketDebuggerUrl");
    reveal_strlit("appId");
    assert("title"@[0] == 't');
    assert("appId"@[0] == 'a');
    assert forall|i: int| 0 <= i < m.len() implies member(m, (#[trigger] m[i]).0) == Some(
        m[i].1,
    ) by {
        assert forall|k: int| 0 <= k < i implies (#[trigger] m[k]).0 != m[i].0 by {
            if m[k].0.len() == m[i].0.len() {
                assert(m[k].0[0] != m[i].0[0]);
            }
        }
        lemma_member(m, i);
    }
}

/// A page is told with its own title, address and application; what it has not is empty. Its
/// thumbnail goes by its address, and it has no icon.
pub proof fn law_page_described(state: PortStateView, host: Seq<char>, page: EntryView)
    ensures
        ({
            let m = http_server::page_members(state, host, page);
            &&& m.len() == 7
            &&& member(m, "title"@) == Some(or_empty(page.title))
            &&& member(m, "url"@) == Some(or_empty(page.url))
            &&& member(m, "appId"@) == Some(page.app_id)
            &&& member(m, "thumbnailUrl"@) == Some("/thumb/"@ + or_empty(page.url))
            &&& member(m, "faviconUrl"@) == Some(Seq::<char>::empty())
            &&& member(m, "devtoolsFrontendUrl"@) == Some(
                http_server::frontend_url(state, page.page_num),
            )
        }),
{
    lemma_page_members(state, host, page);
    let m = http_server::page_members(state, host, page);
    assert(m[0].0 == "devtoolsFrontendUrl"@);
    assert(m[1].0 == "faviconUrl"@);
    assert(m[2].0 == "thumbnailUrl"@);
    assert(m[3].0 == "title"@);
    assert(m[4].0 == "url"@);
    assert(m[6].0 == "appId"@);
}

/// All pages are told of, in order, each by itself.
pub proof fn law_pages_described(state: PortStateView, host: Seq<char>)
    ensures
        http_server::pages_members(state, host).len() == state.pages.len(),
        forall|i: int|
            0 <= i < state.pages.len() ==> #[trigger] http_server::pages_members(state, host)[i]
                == http_server::page_members(state, host, state.pages[i]),
{
}

/// The frontend for a page is the frontend's own file below `/devtools/`, told to connect to the
/// address at which the page is debugged. Without a frontend there is none.
#[verifier::spinoff_prover]
#[verifier::rlimit(40)]
pub proof fn law_frontend_for_page(
    state: PortStateView,
    page_num: u32,
    dir: Seq<char>,
    file: Seq<char>,
)
    requires
        !file.contains('/'),
    ensures
        state.frontend is None ==> http_server::frontend_url(state, page_num).len() == 0,
        state.frontend == Some(dir + seq!['/'] + file) || state.frontend == Some(file)
            ==> "ws://"@ + http_server::frontend_url(state, page_num).skip(
            ("/devtools/"@ + file + "?ws="@).len() as int,
        ) == proxy::debugger_url(state.port, page_num) && text::begins_with(
            http_server::frontend_url(state, page_num),
            "/devtools/"@ + file + "?ws="@,
        ),
{
    if state.frontend == Some(dir + seq!['/'] + file) || state.frontend == Some(file) {
        numerals::law_last(dir, file, '/');
        assert(text::after_last(state.frontend.unwrap(), '/') == file);
        reveal_strlit("?ws=localhost:");
        reveal_strlit("?ws=");
        reveal_strlit("ws://localhost:");
        reveal_strlit("ws://");
        let front = "/devtools/"@ + file + "?ws="@;
        let url = http_server::frontend_url(state, page_num);
        let p = text::decimal(state.port as nat);
        let n = text::decimal(page_num as nat);
        let local = "localhost:"@;
        reveal_strlit("localhost:");
        assert("?ws=localhost:"@ =~= "?ws="@ + local);
        assert("ws://localhost:"@ =~= "ws://"@ + local);
        let tail = local + p + "/devtools/page/"@ + n;
        assert(url =~= front + tail);
        assert(url.skip(front.len() as int) =~= tail);
        assert(url.take(front.len() as int) =~= front);
        assert("ws://"@ + tail =~= proxy::debugger_url(state.port, page_num));
    }
}

/// A page in the list stands under its number, leads to the frontend for it, and shows its title
/// and its address, or a question mark for what it has not.
pub proof fn law_page_listed(state: PortStateView, page: EntryView)
    ensures
        http_server::page_item(state, page) == "<li value=\""@ + text::decimal(page.page_num as nat)
            + "\"><a href=\""@ + http_server::frontend_url(state, page.page_num) + "\">"@ + (
        match page.title {
            Some(t) => t,
            None => "?"@,
        }) + " - "@ + (match page.url {
            Some(u) => u,
            None => "?"@,
        }) + "</a></li>"@,
{
}

/// How the list of pages ends.
pub open spec fn list_end() -> Seq<char> {
    "</ol></body></html>"@
}

/// One more page makes the list longer by just that page, at its end. The list shows the name of
/// the device, or that it is not known.
pub proof fn law_list_of_pages(state: PortStateView, page: EntryView)
    ensures
        ({
            let more = PortStateView { pages: state.pages.push(page), ..state };
            let before = http_server::pages_html(state);
            let after = http_server::pages_html(more);
            let name = match state.device_name {
                Some(n) => n,
                None => "Unknown"@,
            };
            &&& after == before.take(before.len() - list_end().len()) + (if state.pages.len() == 0 {
                Seq::empty()
            } else {
                "\n"@
            }) + http_server::page_item(state, page) + list_end()
            &&& text::begins_with(
                before,
                "<html><head><title>"@ + name + "</title></head><body>Inspectable pages for "@
                    + name + ":<p><ol>"@,
            )
            &&& state.pages.len() == 0 ==> before == "<html><head><title>"@ + name
                + "</title></head><body>Inspectable pages for "@ + name + ":<p><ol>"@ + list_end()
        }),
{
    let more = PortStateView { pages: state.pages.push(page), ..state };
    let before = http_server::pages_html(state);
    let after = http_server::pages_html(more);
    let name = text::chars_or(state.device_name, "Unknown"@);
    let head = "<html><head><title>"@ + name + "</title></head><body>Inspectable pages for "@ + name
        + ":<p><ol>"@;
    let items = Seq::new(
        state.pages.len(),
        |i: int| http_server::page_item(state, state.pages[i]),
    );
    let one = http_server::page_item(state, page);
    let all = Seq::new(more.pages.len(), |i: int| http_server::page_item(more, more.pages[i]));
    assert forall|i: int| 0 <= i < all.len() implies all[i] == items.push(one)[i] by {
        assert(http_server::page_item(more, more.pages[i]) == http_server::page_item(
            state,
            more.pages[i],
        ));
    }
    assert(all =~= items.push(one));
    lemma_one_more(items, one, head);
    assert(before =~= head + text::joined(items, "\n"@) + list_end());
    assert(after =~= head + text::joined(all, "\n"@) + list_end());
}

/// Joining one more item.
proof fn lemma_one_more(items: Seq<Seq<char>>, one: Seq<char>, head: Seq<char>)
    ensures
        ({
            let before = head + text::joined(items, "\n"@) + list_end();
            let after = head + text::joined(items.push(one), "\n"@) + list_end();
            &&& after == before.take(before.len() - list_end().len()) + (if items.len() == 0 {
                Seq::empty()
            } else {
                "\n"@
            }) + one + list_end()
            &&& text::begins_with(before, head)
            &&& items.len() == 0 ==> before == head + list_end()
        }),
{
    let before = head + text::joined(items, "\n"@) + list_end();
    let after = head + text::joined(items.push(one), "\n"@) + list_end();
    assert(before.take(before.len() - list_end().len()) =~= head + text::joined(items, "\n"@));
    assert(before.take(head.len() as int) =~= head);
    numerals::law_joined(items, seq![one], one, "\n"@);
    if items.len() == 0 {
        assert(items.push(one) =~= seq![one]);
        assert(items =~= Seq::empty());
        assert(before =~= head + list_end());
    } else {
        assert(items.push(one) =~= items + seq![one]);
    }
    assert(after =~= before.take(before.len() - list_end().len()) + (if items.len() == 0 {
        Seq::empty()
    } else {
        "\n"@
    }) + one + list_end());
}

/// The host in a header is what stands before the last colon, or all of it if there is none; without
/// a header it is this host.
pub proof fn law_host(host: Seq<char>, port: Seq<char>)
    ensures
        !port.contains(':') ==> http_server::host_named(Some(host + seq![':'] + port)) == host,
        !host.contains(':') ==> http_server::host_named(Some(host)) == host,
        http_server::host_named(None) == "localhost"@,
{
    if !port.contains(':') {
        numerals::law_last(host, port, ':');
        assert((host + seq![':'] + port).take(host.len() as int) =~= host);
    }
    if !host.contains(':') {
        numerals::law_last(Seq::empty(), host, ':');
    }
}

// ---------------------------------------------------------------------------------------------
// Devices
// ---------------------------------------------------------------------------------------------

proof fn lemma_device_members(d: InfoView)
    ensures
        ({
            let m = http_server::device_members(d);
            forall|i: int| 0 <= i < m.len() ==> member(m, (#[trigger] m[i]).0) == Some(m[i].1)
        }),
{
    let m = http_server::device_members(d);
    reveal_strlit("deviceId");
    reveal_strlit("deviceName");
    reveal_strlit("deviceOSVersion");
    reveal_strlit("url");
    assert("deviceId"@.len() == 8 && "deviceName"@.len() == 10 && "deviceOSVersion"@.len() == 15
        && "url"@.len() == 3);
    assert forall|i: int| 0 <= i < m.len() implies member(m, (#[trigger] m[i]).0) == Some(
        m[i].1,
    ) by {
        lemma_member(m, i);
    }
}

/// A device is told with its own identifier and name, and with the port that its endpoints are on.
pub proof fn law_device_described(d: InfoView)
    ensures
        ({
            let m = http_server::device_members(d);
            &&& m.len() == 4
            &&& member(m, "deviceId"@) == Some(d.device_id)
            &&& member(m, "deviceName"@) == Some(d.device_name)
            &&& member(m, "url"@) matches Some(url) && text::begins_with(url, "localhost:"@)
                && text::numeral(url.skip("localhost:"@.len() as int)) == Some(d.port as nat)
            &&& member(m, "deviceOSVersion"@) == Some(
                http_server::version_words(d.device_os_version),
            )
        }),
{
    let m = http_server::device_members(d);
    lemma_device_members(d);
    assert(m[0].0 == "deviceId"@);
    assert(m[1].0 == "deviceName"@);
    assert(m[2].0 == "deviceOSVersion"@);
    assert(m[3].0 == "url"@);
    let p = text::decimal(d.port as nat);
    numerals::law_numeral_reads_back(d.port as nat);
    numerals::law_begins("localhost:"@, p);
    assert(("localhost:"@ + p).skip("localhost:"@.len() as int) =~= p);
}

/// All devices are told of, in order, each by itself.
pub proof fn law_devices_described(devices: Seq<InfoView>)
    ensures
        http_server::devices_members(devices).len() == devices.len(),
        forall|i: int|
            0 <= i < devices.len() ==> #[trigger] http_server::devices_members(devices)[i]
                == http_server::device_members(devices[i]),
{
}

/// A device in the list leads to the port that its endpoints are on, and shows its name and its
/// identifier.
pub proof fn law_device_listed(d: InfoView)
    ensures
        http_server::device_item(d) == "<li><a href=\"http://localhost:"@ + text::decimal(
            d.port as nat,
        ) + "/\">"@ + d.device_name + "</a> - "@ + d.device_id + "</li>"@,
{
}

/// One more device makes the list longer by just that device, at its end.
pub proof fn law_list_of_devices(devices: Seq<InfoView>, d: InfoView)
    ensures
        ({
            let before = http_server::devices_html(devices);
            let after = http_server::devices_html(devices.push(d));
            let head = "<html><head><title>iOS Devices</title></head><body>iOS Devices:<p><ol>"@;
            &&& after == before.take(before.len() - list_end().len()) + (if devices.len() == 0 {
                Seq::empty()
            } else {
                "\n"@
            }) + http_server::device_item(d) + list_end()
            &&& text::begins_with(before, head)
            &&& devices.len() == 0 ==> before == head + list_end()
        }),
{
    let head = "<html><head><title>iOS Devices</title></head><body>iOS Devices:<p><ol>"@;
    let items = Seq::new(devices.len(), |i: int| http_server::device_item(devices[i]));
    let more = devices.push(d);
    let all = Seq::new(more.len(), |i: int| http_server::device_item(more[i]));
    assert(all =~= items.push(http_server::device_item(d)));
    lemma_one_more(items, http_server::device_item(d), head);
}

/// The words for a version are its three parts, with points between them; and packing them again
/// gives the version back.
#[verifier::spinoff_prover]
#[verifier::rlimit(40)]
pub proof fn law_version_reads_back(version: u32)
    requires
        version < 0x100_0000,
    ensures
        idevice_ext::packed_version(http_server::version_words(version)) == Some(version),
        ({
            let parts = text::split_on(http_server::version_words(version), '.');
            &&& parts.len() == 3
            &&& text::numeral(parts[0]) == Some(version as nat / 0x1_0000)
            &&& text::numeral(parts[1]) == Some((version as nat / 0x100) % 256)
            &&& text::numeral(parts[2]) == Some(version as nat % 256)
        }),
{
    let a = (version as nat / 0x1_0000) % 256;
    let b = (version as nat / 0x100) % 256;
    let c = version as nat % 256;
    reveal_strlit(".");
    assert("."@ =~= seq!['.']);
    numerals::law_numeral_reads_back(a);
    numerals::law_numeral_reads_back(b);
    numerals::law_numeral_reads_back(c);
    lemma_three_parts(a, b, c);
    let words = http_server::version_words(version);
    assert(words =~= text::decimal(a) + seq!['.'] + text::decimal(b) + seq!['.'] + text::decimal(c));
    let pieces = seq![text::decimal(a), text::decimal(b), text::decimal(c)];
    assert(text::split_on(words, '.') == pieces);
    lemma_three_numbers(pieces[0], pieces[1], pieces[2]);
}

/// Text of three numerals with points between them is split into them.
pub(crate) proof fn lemma_three_parts(a: nat, b: nat, c: nat)
    ensures
        text::split_on(
            text::decimal(a) + seq!['.'] + text::decimal(b) + seq!['.'] + text::decimal(c),
            '.',
        ) == seq![text::decimal(a), text::decimal(b), text::decimal(c)],
        text::split_on(text::decimal(a) + seq!['.'] + text::decimal(b), '.') == seq![
            text::decimal(a),
            text::decimal(b),
        ],
{
    let x = text::decimal(a);
    let y = text::decimal(b);
    let z = text::decimal(c);
    lemma_digits_only(a, '.');
    lemma_digits_only(b, '.');
    lemma_digits_only(c, '.');
    numerals::law_split(x, y, '.');
    numerals::law_split(y, y, '.');
    numerals::law_split(z, z, '.');
    numerals::law_split(x + seq!['.'] + y, z, '.');
    assert(seq![x] + seq![y] =~= seq![x, y]);
    assert(seq![x, y] + seq![z] =~= seq![x, y, z]);
}

/// The numbers among three pieces that all are numbers.
pub(crate) proof fn lemma_three_numbers(x: Seq<char>, y: Seq<char>, z: Seq<char>)
    requires
        text::parsed_u32(x) is Some,
        text::parsed_u32(y) is Some,
        text::parsed_u32(z) is Some,
    ensures
        idevice_ext::numbers_in(seq![x, y, z]) == seq![
            text::parsed_u32(x).unwrap(),
            text::parsed_u32(y).unwrap(),
            text::parsed_u32(z).unwrap(),
        ],
        idevice_ext::numbers_in(seq![x, y]) == seq![
            text::parsed_u32(x).unwrap(),
            text::parsed_u32(y).unwrap(),
        ],
{
    reveal_with_fuel(idevice_ext::numbers_in, 4);
    assert(seq![x, y, z].drop_last() =~= seq![x, y]);
    assert(seq![x, y].drop_last() =~= seq![x]);
    assert(seq![x].drop_last() =~= Seq::empty());
    assert(idevice_ext::numbers_in(seq![x]) =~= seq![text::parsed_u32(x).unwrap()]);
    assert(idevice_ext::numbers_in(seq![x, y]) =~= seq![
        text::parsed_u32(x).unwrap(),
        text::parsed_u32(y).unwrap(),
    ]);
    assert(idevice_ext::numbers_in(seq![x, y, z]) =~= seq![
        text::parsed_u32(x).unwrap(),
        text::parsed_u32(y).unwrap(),
        text::parsed_u32(z).unwrap(),
    ]);
}

// ---------------------------------------------------------------------------------------------
// Answers
// ---------------------------------------------------------------------------------------------

/// What is found is answered with its own content and as what it is; a refusal is answered with its
/// status and its words. A page from anywhere may read either.
pub proof fn law_answers(body: Seq<char>, status: u16)
    ensures
        ({
            let r = http_server::json_found(body);
            &&& r.status == 200
            &&& r.body == body
            &&& member(r.headers, "content-type"@) == Some("application/json; charset=UTF-8"@)
            &&& member(r.headers, "Access-Control-Allow-Origin"@) == Some("*"@)
            &&& member(r.headers, "Access-Control-Allow-Methods"@) == Some("GET, HEAD"@)
        }),
        ({
            let r = http_server::html_page(body);
            &&& r.status == 200
            &&& r.body == body
            &&& r.html
            &&& member(r.headers, "Access-Control-Allow-Origin"@) == Some("*"@)
            &&& member(r.headers, "Access-Control-Allow-Methods"@) == Some("GET, HEAD"@)
        }),
        ({
            let r = http_server::refused(status, body);
            &&& r.status == status
            &&& r.body == body
            &&& !r.html
            &&& member(r.headers, "Access-Control-Allow-Origin"@) == Some("*"@)
            &&& member(r.headers, "Access-Control-Allow-Methods"@) == Some("GET, HEAD"@)
        }),
{
    reveal_strlit("Access-Control-Allow-Origin");
    reveal_strlit("Access-Control-Allow-Methods");
    reveal_strlit("content-type");
    assert("Access-Control-Allow-Origin"@.len() == 27 && "Access-Control-Allow-Methods"@.len() == 28
        && "content-type"@.len() == 12);
    let few = http_server::cors();
    let all = http_server::cors_with_type("application/json; charset=UTF-8"@);
    lemma_member(few, 0);
    lemma_member(few, 1);
    lemma_member(all, 0);
    lemma_member(all, 1);
    lemma_member(all, 2);
}

/// The content type that is asked for is told, and a page from anywhere may read the answer.
pub proof fn law_content_type(content_type: Seq<char>)
    ensures
        ({
            let headers = http_server::cors_with_type(content_type);
            &&& member(headers, "content-type"@) == Some(content_type)
            &&& member(headers, "Access-Control-Allow-Origin"@) == Some("*"@)
            &&& member(headers, "Access-Control-Allow-Methods"@) == Some("GET, HEAD"@)
        }),
{
    reveal_strlit("Access-Control-Allow-Origin");
    reveal_strlit("Access-Control-Allow-Methods");
    reveal_strlit("content-type");
    assert("Access-Control-Allow-Origin"@.len() == 27 && "Access-Control-Allow-Methods"@.len() == 28
        && "content-type"@.len() == 12);
    let all = http_server::cors_with_type(content_type);
    lemma_member(all, 0);
    lemma_member(all, 1);
    lemma_member(all, 2);
}

/// The list is the JSON of what is told, or that of no list where it cannot be written; and the
/// program tells its name and the version of the protocol.
pub proof fn law_json(objects: Seq<Pairs>)
    ensures
        http_server::json_objects(objects) matches Some(json) ==> http_server::json_list(objects)
            == json,
        http_server::json_objects(objects) is None ==> http_server::json_list(objects) == "[]"@,
        member(http_server::version_members(), "Browser"@) == Some("iOS WebKit Debug Proxy"@),
        member(http_server::version_members(), "Protocol-Version"@) == Some("1.1"@),
{
    reveal_strlit("Browser");
    reveal_strlit("Protocol-Version");
    assert("Browser"@.len() == 7 && "Protocol-Version"@.len() == 16);
    lemma_member(http_server::version_members(), 0);
    lemma_member(http_server::version_members(), 1);
}

/// What is not found is named.
pub proof fn law_not_found(path: Seq<char>)
    ensures
        http_server::not_found_html(path) == "<html><body>404: "@ + path
            + " not found</body></html>"@,
{
}

// ---------------------------------------------------------------------------------------------
// The frontend
// ---------------------------------------------------------------------------------------------

/// The resource that a request asks for is what stands behind `/devtools/`.
pub proof fn law_resource_asked_for(path: Seq<char>, other: Seq<char>)
    ensures
        http_server::resource_path("/devtools/"@ + path) == path,
        !text::begins_with(other, "/devtools/"@) ==> http_server::resource_path(other).len() == 0,
{
    reveal_strlit("/devtools/");
    numerals::law_begins("/devtools/"@, path);
    assert(("/devtools/"@ + path).skip(10) =~= path);
}

/// A resource is beside the frontend's own file: in the same directory, under the path that is
/// asked for; without a path it is that file.
pub proof fn law_resource_beside_frontend(dir: Seq<char>, file: Seq<char>, path: Seq<char>)
    requires
        !file.contains('/'),
    ensures
        path.len() > 0 ==> http_server::target_path(dir + seq!['/'] + file, path) == dir + seq!['/']
            + path,
        path.len() == 0 ==> http_server::target_path(dir + seq!['/'] + file, path) == dir
            + seq!['/'] + file,
        path.len() > 0 ==> http_server::target_path(file, path) == seq!['/'] + path,
        path.len() == 0 ==> http_server::target_path(file, path) == seq!['/'] + file,
{
    let all = dir + seq!['/'] + file;
    numerals::law_last(dir, file, '/');
    reveal_strlit("/");
    assert("/"@ =~= seq!['/']);
    assert(all.take(dir.len() as int + 1) =~= dir + seq!['/']);
    assert(http_server::target_path(all, path) =~= dir + seq!['/'] + (if path.len() == 0 {
        file
    } else {
        path
    }));
}

/// A path is safe just if all of its characters are letters, digits, dashes, points, slashes and
/// underscores, and it does not go up.
pub proof fn law_safe_path(path: Seq<char>)
    ensures
        http_server::is_safe_path(path) <==> (forall|i: int|
            0 <= i < path.len() ==> (('a' <= #[trigger] path[i] <= 'z') || ('A' <= path[i] <= 'Z')
                || ('0' <= path[i] <= '9') || path[i] == '-' || path[i] == '.' || path[i] == '/'
                || path[i] == '_')) && !(exists|i: int|
            0 <= i < path.len() - 1 && #[trigger] path[i] == '.' && path[i + 1] == '.'),
{
    if http_server::is_safe_path(path) {
        assert forall|i: int| 0 <= i < path.len() implies (('a' <= #[trigger] path[i] <= 'z') || (
        'A' <= path[i] <= 'Z') || ('0' <= path[i] <= '9') || path[i] == '-' || path[i] == '.'
            || path[i] == '/' || path[i] == '_') by {
            assert(http_server::is_safe_char(path[i]));
        }
    }
}

/// A request for a resource is refused if there is no frontend, if the frontend is not on a server,
/// if the path is not safe, or if the frontend's address cannot be read, with the first of these
/// reasons. Otherwise the resource is fetched from the frontend's own server.
pub proof fn law_resource_fetched(uri_path: Seq<char>, fe: Seq<char>)
    ensures
        http_server::static_plan(uri_path, None) == PlanView::Respond(
            http_server::refused(404, "Frontend is disabled."@),
        ),
        ({
            let plan = http_server::static_plan(uri_path, Some(fe));
            let on_server = text::begins_with(fe, "http://"@) || text::begins_with(
                fe,
                "https://"@,
            );
            let path = http_server::resource_path(uri_path);
            let safe = http_server::is_safe_path(path);
            &&& !on_server ==> plan == PlanView::Respond(
                http_server::refused(404, "Frontend URL is not http(s)://, cannot proxy."@),
            )
            &&& on_server && !safe ==> plan == PlanView::Respond(
                http_server::refused(403, "Invalid path"@),
            )
            &&& on_server && safe && http_server::url_path(fe) is None ==> plan
                == PlanView::Respond(http_server::refused(502, "Invalid frontend URL"@))
            &&& on_server && safe ==> (http_server::url_path(fe) matches Some(fe_path) ==> plan
                == PlanView::Fetch(
                http_server::url_with_path(
                    fe,
                    http_server::target_path(fe_path, path),
                ).unwrap(),
            ))
        }),
{
}

// ---------------------------------------------------------------------------------------------
// WebSocket connections
// ---------------------------------------------------------------------------------------------

/// Everything that a client sends is handed to the proxy byte for byte, in its name and for its
/// page, and the connection goes on.
pub proof fn law_message_handed_over(page_num: u32, ws_id: Seq<char>, data: Vec<u8>)
    ensures
        ({
            let (action, next) = http_server::ws_step(page_num, ws_id, WsEvent::Message(data));
            &&& next == WsNext::Wait
            &&& action matches Some(
                WsActionView::ToProxy { page_num: n, ws_id: w, data: b, is_close },
            ) && n == page_num && w == ws_id && b.len() == data@.len() && (forall|i: int|
                0 <= i < b.len() ==> #[trigger] b[i] == data@[i]) && !is_close
        }),
{
}

/// Two messages are handed over as the same just if they are.
pub proof fn law_messages_kept_apart(page_num: u32, ws_id: Seq<char>, a: Vec<u8>, b: Vec<u8>)
    ensures
        http_server::ws_step(page_num, ws_id, WsEvent::Message(a)) == http_server::ws_step(
            page_num,
            ws_id,
            WsEvent::Message(b),
        ) <==> a@ == b@,
        http_server::ws_step(page_num, ws_id, WsEvent::Ping(a)) == http_server::ws_step(
            page_num,
            ws_id,
            WsEvent::Ping(b),
        ) <==> a@ == b@,
{
    let x = http_server::ws_step(page_num, ws_id, WsEvent::Message(a)).0;
    let y = http_server::ws_step(page_num, ws_id, WsEvent::Message(b)).0;
    if x == y {
        assert(x.unwrap()->data == y.unwrap()->data);
    }
    let p = http_server::ws_step(page_num, ws_id, WsEvent::Ping(a)).0;
    let q = http_server::ws_step(page_num, ws_id, WsEvent::Ping(b)).0;
    if p == q {
        assert(p.unwrap()->Pong_0 == q.unwrap()->Pong_0);
    }
}

/// A ping is answered with what it brought. What the device sends goes to the client as text. Both
/// end the connection only if they cannot be sent. A connection that fails ends, one whose device
/// goes is closed and ends, and anything else is passed over.
pub proof fn law_other_events(page_num: u32, ws_id: Seq<char>, data: Vec<u8>)
    ensures
        http_server::ws_step(page_num, ws_id, WsEvent::Ping(data)) == (
            Some(WsActionView::Pong(data@)),
            WsNext::WaitIfSent,
        ),
        http_server::ws_step(page_num, ws_id, WsEvent::FromDevice(data)) == (
            Some(WsActionView::Text(text::utf8_lossy(data@))),
            WsNext::WaitIfSent,
        ),
        http_server::ws_step(page_num, ws_id, WsEvent::Failed) == (
            None::<WsActionView>,
            WsNext::End,
        ),
        http_server::ws_step(page_num, ws_id, WsEvent::DeviceGone) == (
            Some(WsActionView::Close),
            WsNext::End,
        ),
        http_server::ws_step(page_num, ws_id, WsEvent::Other) == (
            None::<WsActionView>,
            WsNext::Wait,
        ),
{
}

} // verus!
