//! What the command line asks for.

use crate::port_config;
use crate::port_config::PortConfig;
use crate::proxy::HttpServiceConfig;
use crate::text;
use std::ops::Range;
use vstd::prelude::*;
#[allow(unused_imports)]
use vstd::string::*;

verus! {

/// The rules where none are given: the device list on one port, devices on a hundred and one.
pub const DEFAULT_CONFIG: &'static str = "null:9221,:9222-9322";

/// The frontend where none is given.
pub const DEFAULT_FRONTEND: &'static str =
    "http://chrome-devtools-frontend.appspot.com/static/27.0.1453.93/devtools.html";

/// Whether text is a port and a dash with a second one, each if it is there.
pub open spec fn ports_or_none(s: Seq<char>) -> bool {
    let m = port_config::run_end(s, 0, port_config::decimal_digit());
    m == s.len() || (s[m] == '-' && m + 1 < s.len() && port_config::run_end(
        s,
        m + 1,
        port_config::decimal_digit(),
    ) == s.len())
}

/// Whether text names a device: its identifier, of 25 characters or more, and behind a colon a port
/// and a dash with a second one, each if it is there.
pub open spec fn is_udid(s: Seq<char>) -> bool {
    let n = port_config::run_end(s, 0, port_config::id_char());
    n >= 25 && (n == s.len() || (s[n] == ':' && ports_or_none(s.skip(n + 1))))
}

/// Tests whether text names a device.
pub fn names_device(udid: &str) -> (r: bool)
    ensures
        r == is_udid(udid@),
{
    let v = text::chars_of(udid);
    let len: usize = v.len();
    let n = port_config::skip_id_chars(&v, 0);
    if n < 25 {
        return false;
    }
    if n == len {
        return true;
    }
    if v[n] != ':' {
        return false;
    }
    let ghost s = udid@.skip(n + 1);
    let m = port_config::skip_digits(&v, n + 1);
    proof {
        port_config::lemma_run_shifts(udid@, n + 1, 0, port_config::decimal_digit());
    }
    if m == len {
        return true;
    }
    if v[m] != '-' || m + 1 >= len {
        return false;
    }
    proof {
        port_config::lemma_run_shifts(udid@, n + 1, m - n, port_config::decimal_digit());
    }
    port_config::skip_digits(&v, m + 1) == len
}

/// The rules that the command line asks for, on one line, or the words of refusal.
pub open spec fn config_chosen(udid: Option<Seq<char>>, config: Option<Seq<char>>) -> Result<
    Seq<char>,
    Seq<char>,
> {
    match udid {
        Some(u) => if !is_udid(u) {
            Err("Invalid UDID format: "@ + u)
        } else if u.contains(':') {
            Ok(u)
        } else {
            Ok(u + ":"@)
        },
        None => Ok(text::chars_or(config, DEFAULT_CONFIG@)),
    }
}

/// Chooses the rules: those for the device that is named, if one is, or else those that are given,
/// or else the usual ones.
pub fn choose_config(udid: Option<&str>, config: Option<&str>) -> (r: Result<String, String>)
    ensures
        match config_chosen(text::str_view(udid), text::str_view(config)) {
            Ok(line) => r matches Ok(t) && t@ == line,
            Err(words) => r matches Err(t) && t@ == words,
        },
{
    match udid {
        Some(u) => {
            if !names_device(u) {
                let mut words = "Invalid UDID format: ".to_owned();
                words.append(u);
                return Err(words);
            }
            let mut line = u.to_owned();
            if !text::contains_char(u, ':') {
                line.append(":");
            }
            Ok(line)
        },
        None => match config {
            Some(c) => Ok(c.to_owned()),
            None => Ok(DEFAULT_CONFIG.to_owned()),
        },
    }
}

/// The frontend: none if it is switched off, or else the one that is given, or else the usual one.
pub fn choose_frontend(no_frontend: bool, frontend: Option<&str>) -> (r: Option<String>)
    ensures
        text::option_view(r) == (if no_frontend {
            None
        } else {
            Some(text::chars_or(text::str_view(frontend), DEFAULT_FRONTEND@))
        }),
{
    if no_frontend {
        None
    } else {
        match frontend {
            Some(f) => Some(f.to_owned()),
            None => Some(DEFAULT_FRONTEND.to_owned()),
        }
    }
}

/// The rules on a line, if all of its items are rules. Otherwise it is the name of a file.
pub fn rules_on_line(config: &str) -> (r: Option<PortConfig>)
    ensures
        ({
            let added = port_config::line_added(Seq::empty(), config@, 0);
            match added.bad {
                None => r matches Some(pc) && port_config::entries_view(pc.entries@)
                    == added.entries,
                Some(_) => r is None,
            }
        }),
{
    let mut pc = PortConfig::new();
    assert(port_config::entries_view(pc.entries@) =~= Seq::empty());
    if pc.add_line(config).is_some() {
        None
    } else {
        Some(pc)
    }
}

/// The first rule's ports for the device list.
pub open spec fn list_ports(pc: PortConfig) -> port_config::Selected {
    port_config::selected(port_config::entries_view(pc.entries@), None, (-1) as i32)
}

/// The first rule's ports for every device.
pub open spec fn every_device_ports(pc: PortConfig) -> port_config::Selected {
    port_config::selected(port_config::entries_view(pc.entries@), Some("*"@), (-1) as i32)
}

/// The HTTP service that the rules ask for, if they give the device list a port: its low sixteen
/// bits count.
pub fn http_service(pc: &PortConfig, frontend: Option<String>) -> (r: Option<HttpServiceConfig>)
    ensures
        r is Some <==> list_ports(*pc).min > 0,
        r matches Some(c) ==> c.device_list_port == list_ports(*pc).min as u16 && c.frontend
            == frontend,
{
    let mut list_port: i32 = -1;
    let mut list_min: i32 = -1;
    let mut list_max: i32 = -1;
    let found = pc.select_port(None, &mut list_port, &mut list_min, &mut list_max).is_ok();
    if found && list_port < 0 && list_min > 0 {
        list_port = list_min;
    }
    if list_port > 0 {
        Some(HttpServiceConfig { device_list_port: list_port as u16, frontend })
    } else {
        None
    }
}

/// Whether the rules ask for a range of ports whose end can be told.
pub open spec fn range_fits(pc: PortConfig) -> bool {
    let s = every_device_ports(pc);
    s.min > 0 && s.max >= s.min ==> (s.max as u16) < u16::MAX
}

/// Tests whether the rules ask for a range of ports whose end can be told.
pub fn device_range_fits(pc: &PortConfig) -> (r: bool)
    ensures
        r == range_fits(*pc),
{
    let mut port: i32 = -1;
    let mut min: i32 = -1;
    let mut max: i32 = -1;
    let _ = pc.select_port(Some("*"), &mut port, &mut min, &mut max);
    !(min > 0 && max >= min) || (max as u16) < u16::MAX
}

/// The ports for devices that the rules ask for, if they do: the low sixteen bits of each bound
/// count.
pub fn device_ports(pc: &PortConfig) -> (r: Option<Range<u16>>)
    requires
        range_fits(*pc),
    ensures
        ({
            let s = every_device_ports(*pc);
            if s.min > 0 && s.max >= s.min {
                r matches Some(range) && range.start == s.min as u16 && range.end == (s.max as u16)
                    + 1
            } else {
                r is None
            }
        }),
{
    let mut dev_port: i32 = -1;
    let mut dev_min: i32 = -1;
    let mut dev_max: i32 = -1;
    let _ = pc.select_port(Some("*"), &mut dev_port, &mut dev_min, &mut dev_max);
    if dev_min > 0 && dev_max >= dev_min {
        Some((dev_min as u16)..(dev_max as u16 + 1))
    } else {
        None
    }
}

/// A line for a device that is named is a rule for it: everything that [`names_device`] lets pass
/// is one, with the colon that is added where there is none.
pub proof fn law_named_device_is_rule(udid: Seq<char>)
    requires
        is_udid(udid),
    ensures
        ({
            let line = config_chosen(Some(udid), None)->Ok_0;
            let id = udid.take(port_config::run_end(udid, 0, port_config::id_char()));
            port_config::rule_in(line) matches Some(rule) && rule.device_id == Some(id)
        }),
{
    let n = port_config::run_end(udid, 0, port_config::id_char());
    let blank = port_config::blank();
    let digit = port_config::decimal_digit();
    port_config::lemma_run_end(udid, 0, port_config::id_char());
    reveal_strlit(":");
    reveal_strlit("null");
    let line = config_chosen(Some(udid), None)->Ok_0;
    if n == udid.len() {
        assert forall|i: int| 0 <= i < udid.len() implies udid[i] != ':' by {
            assert(port_config::id_char()(udid[i]));
        }
    } else {
        assert(udid[n] == ':');
        assert(udid.contains(':'));
    }
    let len = line.len() as int;
    assert(line[n] == ':');
    assert forall|i: int| 0 <= i < n implies port_config::id_char()(#[trigger] line[i]) by {
        assert(port_config::id_char()(udid[i]));
    }
    assert(port_config::id_char()(line[0]));
    port_config::lemma_is_run_end(line, 0, 0, blank);
    port_config::lemma_is_run_end(line, 0, n, port_config::id_char());
    port_config::lemma_is_run_end(line, n, n, blank);
    assert(line.subrange(0, n) =~= udid.take(n));
    let e = n + 1;
    let rest = line.skip(e);
    port_config::lemma_run_end(rest, 0, digit);
    port_config::lemma_run_shifts(line, e, 0, digit);
    let k = port_config::run_end(rest, 0, digit);
    let first = e + k;
    if e < len {
        assert(rest =~= udid.skip(n + 1));
        assert(line[e] == rest[0]);
        if k > 0 {
            assert(digit(rest[0]));
        }
    }
    port_config::lemma_is_run_end(line, e, e, blank);
    port_config::lemma_is_run_end(line, len, len, blank);
    if k < rest.len() {
        assert(line[first] == rest[k]);
        port_config::lemma_run_end(rest, k + 1, digit);
        port_config::lemma_run_shifts(line, e, k + 1, digit);
        assert(digit(rest[k + 1]));
        assert(line[first + 1] == rest[k + 1]);
        port_config::lemma_is_run_end(line, first, first, blank);
        port_config::lemma_is_run_end(line, first + 1, first + 1, blank);
    }
}

} // verus!
