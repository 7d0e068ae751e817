//! The rules for ports, and what the command line asks for.

use crate::laws::numerals;
use crate::options;
use crate::port_config;
use crate::port_config::{Added, EntryView, PortConfig};
use crate::seqs;
use crate::text;
use vstd::prelude::*;
#[allow(unused_imports)]
use vstd::string::*;

verus! {

// ---------------------------------------------------------------------------------------------
// One rule
// ---------------------------------------------------------------------------------------------

/// A port is the number that is written, where it fits; a port that is not written, or does not fit,
/// is the one that stands for it.
pub proof fn law_port_number(n: nat, default: i32, digits: Seq<char>)
    ensures
        n <= i32::MAX ==> port_config::port_or(Some(text::decimal(n)), default) == n,
        n > i32::MAX ==> port_config::port_or(Some(text::decimal(n)), default) == default,
        port_config::port_or(None, default) == default,
        text::parsed_i32(digits) is None ==> port_config::port_or(Some(digits), default) == default,
{
    numerals::law_numeral_reads_back(n);
}

/// Whether text can be the identifier of a device: 25 hexadecimal digits and dashes or more.
pub open spec fn is_identifier(id: Seq<char>) -> bool {
    &&& id.len() >= 25
    &&& forall|i: int|
        0 <= i < id.len() ==> ('0' <= #[trigger] id[i] <= '9') || ('a' <= id[i] <= 'f') || ('A'
            <= id[i] <= 'F') || id[i] == '-'
}

/// What stands for the devices of a rule: nothing or `*` for all of them, `null` in letters of either
/// case for the device list, or the identifier of one.
pub open spec fn is_head(head: Seq<char>) -> bool {
    head.len() == 0 || head == seq!['*'] || text::same_ignoring_case(head, "null"@)
        || is_identifier(head)
}

/// Whether text is spaces and tabs alone.
pub open spec fn is_blank(s: Seq<char>) -> bool {
    forall|i: int| 0 <= i < s.len() ==> #[trigger] s[i] == ' ' || s[i] == '\t'
}

/// A rule in writing: what stands for its devices, a colon, and its ports, if they are there, with a
/// dash between them. There may be blanks about each of these.
pub open spec fn rule_text(
    head: Seq<char>,
    min: Option<nat>,
    max: Option<nat>,
    b: Seq<Seq<char>>,
) -> Seq<char> {
    let front = b[0] + head + b[1] + seq![':'] + b[2];
    match min {
        None => front,
        Some(x) => match max {
            None => front + text::decimal(x) + b[3],
            Some(y) => front + text::decimal(x) + b[3] + seq!['-'] + b[4] + text::decimal(y) + b[5],
        },
    }
}

/// The head of a rule in writing is found where it is.
proof fn lemma_head_found(head: Seq<char>, b0: Seq<char>, b1: Seq<char>, rest: Seq<char>)
    requires
        is_head(head),
        is_blank(b0),
        is_blank(b1),
    ensures
        ({
            let s = b0 + head + b1 + seq![':'] + rest;
            let colon = (b0 + head + b1).len() as int;
            port_config::head_in(s, port_config::run_end(s, 0, port_config::blank())) matches Some(
                h,
            ) && h.end == colon + 1 && h.device == (if head.len() == 0 {
                None
            } else {
                Some(head)
            })
        }),
{
    let s = b0 + head + b1 + seq![':'] + rest;
    let blank = port_config::blank();
    let id = port_config::id_char();
    let front = b0 + head + b1;
    let colon = front.len() as int;
    let a = b0.len() as int;
    let end = a + head.len();
    reveal_strlit("null");
    assert("null"@.len() == 4);
    assert(s[colon] == ':');
    assert forall|i: int| 0 <= i < a implies blank(#[trigger] s[i]) by {
        assert(s[i] == b0[i]);
    }
    assert forall|i: int| end <= i < colon implies blank(#[trigger] s[i]) by {
        assert(s[i] == b1[i - end]);
    }
    assert forall|i: int| a <= i < end implies s[i] == #[trigger] head[i - a] by {}
    if head.len() == 0 {
        // The blanks go on up to the colon.
        port_config::lemma_is_run_end(s, 0, colon, blank);
        port_config::lemma_is_run_end(s, colon, colon, id);
        if colon + 4 <= s.len() && text::same_ignoring_case(s.subrange(colon, colon + 4), "null"@) {
            numerals::law_ignoring_case(s.subrange(colon, colon + 4), "null"@);
            assert(s.subrange(colon, colon + 4)[0] == ':');
            assert("null"@[0] == 'n');
        }
    } else {
        assert(s[a] == head[0]);
        if text::same_ignoring_case(head, "null"@) {
            numerals::law_ignoring_case(head, "null"@);
            assert("null"@[0] == 'n');
            assert(head[0] == 'n' || head[0] == 'N');
        }
        assert(!blank(s[a]));
        port_config::lemma_is_run_end(s, 0, a, blank);
        port_config::lemma_is_run_end(s, end, colon, blank);
        assert(s.subrange(a, end) =~= head);
        if is_identifier(head) {
            assert forall|i: int| a <= i < end implies id(#[trigger] s[i]) by {
                assert(s[i] == head[i - a]);
                let c = head[i - a];
                assert(('0' <= c <= '9') || ('a' <= c <= 'f') || ('A' <= c <= 'F') || c == '-');
            }
            if end < colon {
                assert(blank(s[end]));
            }
            assert(!id(s[end]));
            port_config::lemma_is_run_end(s, a, end, id);
        } else {
            assert(!id(s[a]));
            port_config::lemma_is_run_end(s, a, a, id);
        }
    }
}

/// The ports of a rule in writing are found where they are.
proof fn lemma_ports_found(
    front: Seq<char>,
    min: Option<nat>,
    max: Option<nat>,
    b2: Seq<char>,
    b3: Seq<char>,
    b4: Seq<char>,
    b5: Seq<char>,
)
    requires
        is_blank(b2),
        is_blank(b3),
        is_blank(b4),
        is_blank(b5),
    ensures
        ({
            let s = match min {
                None => front + b2,
                Some(x) => match max {
                    None => front + b2 + text::decimal(x) + b3,
                    Some(y) => front + b2 + text::decimal(x) + b3 + seq!['-'] + b4 + text::decimal(y)
                        + b5,
                },
            };
            let e = port_config::run_end(s, front.len() as int, port_config::blank());
            let m = port_config::first_port_end(s, e);
            let (g, x) = port_config::second_port(s, m);
            &&& port_config::run_end(s, x, port_config::blank()) == s.len()
            &&& min is None ==> m == e && x == g
            &&& min matches Some(k) ==> m > e && s.subrange(e, m) == text::decimal(k)
            &&& min is Some && max is None ==> x == g
            &&& min is Some ==> (max matches Some(k) ==> x > g && s.subrange(g, x) == text::decimal(
                k,
            ))
        }),
{
    let blank = port_config::blank();
    let digit = port_config::decimal_digit();
    let c = front.len() as int;
    let e = c + b2.len();
    match min {
        None => {
            let s = front + b2;
            let n = s.len() as int;
            assert forall|i: int| c <= i < n implies blank(#[trigger] s[i]) by {
                assert(s[i] == b2[i - c]);
            }
            port_config::lemma_is_run_end(s, c, n, blank);
            port_config::lemma_is_run_end(s, n, n, blank);
            port_config::lemma_is_run_end(s, n, n, digit);
        },
        Some(k) => {
            let d = text::decimal(k);
            numerals::law_numeral_reads_back(k);
            let m = e + d.len();
            let s = match max {
                None => front + b2 + d + b3,
                Some(y) => front + b2 + d + b3 + seq!['-'] + b4 + text::decimal(y) + b5,
            };
            let n = s.len() as int;
            assert forall|i: int| c <= i < e implies blank(#[trigger] s[i]) by {
                assert(s[i] == b2[i - c]);
            }
            assert forall|i: int| e <= i < m implies digit(#[trigger] s[i]) by {
                assert(s[i] == d[i - e]);
                assert('0' <= d[i - e] <= '9');
            }
            assert(digit(s[e]));
            port_config::lemma_is_run_end(s, c, e, blank);
            let f = m + b3.len();
            assert forall|i: int| m <= i < f implies blank(#[trigger] s[i]) by {
                assert(s[i] == b3[i - m]);
            }
            assert(s.subrange(e, m) =~= d);
            match max {
                None => {
                    if m < n {
                        assert(blank(s[m]));
                    }
                    port_config::lemma_is_run_end(s, e, m, digit);
                    port_config::lemma_is_run_end(s, m, n, blank);
                },
                Some(y) => {
                    let w = text::decimal(y);
                    numerals::law_numeral_reads_back(y);
                    let g = f + 1 + b4.len();
                    let x = g + w.len();
                    assert(s[f] == '-');
                    assert forall|i: int| f < i < g implies blank(#[trigger] s[i]) by {
                        assert(s[i] == b4[i - f - 1]);
                    }
                    assert forall|i: int| g <= i < x implies digit(#[trigger] s[i]) by {
                        assert(s[i] == w[i - g]);
                        assert('0' <= w[i - g] <= '9');
                    }
                    assert forall|i: int| x <= i < n implies blank(#[trigger] s[i]) by {
                        assert(s[i] == b5[i - x]);
                    }
                    if m < f {
                        assert(blank(s[m]));
                    }
                    if x < n {
                        assert(blank(s[x]));
                    }
                    assert(digit(s[g]));
                    port_config::lemma_is_run_end(s, e, m, digit);
                    port_config::lemma_is_run_end(s, m, f, blank);
                    port_config::lemma_is_run_end(s, f + 1, g, blank);
                    port_config::lemma_is_run_end(s, g, x, digit);
                    port_config::lemma_is_run_end(s, x, n, blank);
                    assert(s.subrange(g, x) =~= w);
                },
            }
        },
    }
}

/// A rule in writing is a rule, whatever blanks are in it: for the device that is named, for every
/// device if none is or if there is a star, and for the device list if there is a `null`. Its ports
/// go from the first to the second, are the first alone if there is no second, and port zero if there
/// is none.
#[verifier::rlimit(40)]
pub proof fn law_rule(
    head: Seq<char>,
    min: Option<nat>,
    max: Option<nat>,
    b: Seq<Seq<char>>,
)
    requires
        is_head(head),
        min matches Some(x) ==> x <= i32::MAX,
        max matches Some(y) ==> y <= i32::MAX,
        b.len() == 6,
        forall|i: int| 0 <= i < 6 ==> is_blank(#[trigger] b[i]),
    ensures
        port_config::rule_in(rule_text(head, min, max, b)) matches Some(rule) && {
            &&& head.len() == 0 ==> rule.device_id == Some("*"@)
            &&& text::same_ignoring_case(head, "null"@) ==> rule.device_id is None
            &&& head == seq!['*'] || is_identifier(head) ==> rule.device_id == Some(head)
            &&& min is None ==> rule.min_port == 0 && rule.max_port == 0
            &&& min matches Some(x) ==> rule.min_port == x && rule.max_port == (match max {
                Some(y) => y,
                None => x,
            })
        },
{
    let s = rule_text(head, min, max, b);
    let front = b[0] + head + b[1] + seq![':'];
    assert(is_blank(b[0]) && is_blank(b[1]) && is_blank(b[2]) && is_blank(b[3]) && is_blank(b[4])
        && is_blank(b[5]));
    let rest = match min {
        None => b[2],
        Some(x) => match max {
            None => b[2] + text::decimal(x) + b[3],
            Some(y) => b[2] + text::decimal(x) + b[3] + seq!['-'] + b[4] + text::decimal(y) + b[5],
        },
    };
    assert(s =~= b[0] + head + b[1] + seq![':'] + rest);
    lemma_head_found(head, b[0], b[1], rest);
    lemma_ports_found(front, min, max, b[2], b[3], b[4], b[5]);
    if let Some(x) = min {
        law_port_number(x, 0, Seq::empty());
        if let Some(y) = max {
            law_port_number(y, x as i32, Seq::empty());
        }
    }
    reveal_strlit("null");
    assert("null"@.len() == 4);
}

// ---------------------------------------------------------------------------------------------
// Lines
// ---------------------------------------------------------------------------------------------

/// What is left of a line adds what it would add as a line of its own.
#[verifier::rlimit(40)]
proof fn lemma_rest_of_line(entries: Seq<EntryView>, line: Seq<char>, k: int, i: int)
    requires
        0 <= k,
        0 <= i,
        k + i <= line.len(),
    ensures
        port_config::line_added(entries, line, k + i).entries == port_config::line_added(
            entries,
            line.skip(k),
            i,
        ).entries,
        port_config::line_added(entries, line, k + i).bad is Some <==> port_config::line_added(
            entries,
            line.skip(k),
            i,
        ).bad is Some,
    decreases line.len() - i,
{
    let rest = line.skip(k);
    if k + i < line.len() {
        let blank = port_config::blank();
        let rule = port_config::rule_char();
        port_config::lemma_run_end(rest, i, blank);
        port_config::lemma_run_shifts(line, k, i, blank);
        let c = port_config::run_end(rest, i, blank);
        port_config::lemma_run_end(rest, c, rule);
        port_config::lemma_run_shifts(line, k, c, rule);
        let end = port_config::run_end(rest, c, rule);
        assert(line.subrange(k + c, k + end) =~= rest.subrange(c, end));
        if end < rest.len() {
            assert(rest[end] == line[k + end]);
        }
        let text = rest.subrange(c, end);
        if !(c < end && port_config::rule_in(text) is None) {
            let more = if c < end {
                entries.push(port_config::rule_in(text).unwrap())
            } else {
                entries
            };
            if port_config::char_at(rest, end, ',') {
                lemma_rest_of_line(more, line, k, end + 1);
            }
        }
    }
}

/// Whether text can be an item of a line as it is: it does not end the item, and does not begin
/// with a blank.
pub open spec fn is_item(s: Seq<char>) -> bool {
    &&& s.len() > 0
    &&& s[0] != ' ' && s[0] != '\t'
    &&& forall|i: int|
        0 <= i < s.len() ==> #[trigger] s[i] != ',' && s[i] != '#' && s[i] != '\n' && s[i] != '\0'
}

proof fn lemma_item(item: Seq<char>, line: Seq<char>)
    requires
        is_item(item),
        item.len() <= line.len(),
        line.take(item.len() as int) == item,
        item.len() < line.len() ==> !port_config::rule_char()(line[item.len() as int]),
    ensures
        port_config::run_end(line, 0, port_config::blank()) == 0,
        port_config::run_end(line, 0, port_config::rule_char()) == item.len(),
        line.subrange(0, item.len() as int) == item,
{
    assert forall|i: int| 0 <= i < item.len() implies port_config::rule_char()(#[trigger] line[i]) by {
        assert(line[i] == line.take(item.len() as int)[i]);
        assert(item[i] != ',');
    }
    assert(line[0] == line.take(item.len() as int)[0]);
    assert(!port_config::blank()(line[0]));
    port_config::lemma_is_run_end(line, 0, 0, port_config::blank());
    port_config::lemma_is_run_end(line, 0, item.len() as int, port_config::rule_char());
    assert(line.subrange(0, item.len() as int) =~= line.take(item.len() as int));
}

/// The rules on a line, with commas between them, are taken one after the other, and those behind a
/// comma as if they stood on a line of their own; a comment adds nothing. An item that is no rule
/// ends the line.
pub proof fn law_rules_on_line(
    entries: Seq<EntryView>,
    item: Seq<char>,
    rest: Seq<char>,
    rule: EntryView,
)
    requires
        is_item(item),
    ensures
        port_config::rule_in(item) == Some(rule) ==> {
            let more = entries.push(rule);
            let one = port_config::line_added(entries, item, 0);
            let commented = port_config::line_added(entries, item + seq!['#'] + rest, 0);
            let several = port_config::line_added(entries, item + seq![','] + rest, 0);
            let others = port_config::line_added(more, rest, 0);
            &&& one == (Added { entries: more, bad: None })
            &&& commented == (Added { entries: more, bad: None })
            &&& several.entries == others.entries
            &&& several.bad is Some <==> others.bad is Some
        },
        port_config::rule_in(item) is None ==> {
            &&& port_config::line_added(entries, item, 0) == (Added { entries, bad: Some(0) })
            &&& port_config::line_added(entries, item + seq![','] + rest, 0) == (Added {
                entries,
                bad: Some(0),
            })
        },
{
    let n = item.len() as int;
    assert(item.take(n) =~= item);
    lemma_item(item, item);
    let commented = item + seq!['#'] + rest;
    assert(commented.take(n) =~= item);
    assert(commented[n] == '#');
    lemma_item(item, commented);
    let several = item + seq![','] + rest;
    assert(several.take(n) =~= item);
    assert(several[n] == ',');
    lemma_item(item, several);
    if port_config::rule_in(item) == Some(rule) {
        lemma_rest_of_line(entries.push(rule), several, n + 1, 0);
        assert(several.skip(n + 1) =~= rest);
    }
}

/// Lines are taken one after the other; the lines with an item that is no rule are told by their
/// positions, and the rules before such an item stay.
pub proof fn law_lines(entries: Seq<EntryView>, lines: Seq<Seq<char>>, line: Seq<char>)
    ensures
        ({
            let before = port_config::lines_added(entries, lines);
            let added = port_config::line_added(before, line, 0);
            &&& port_config::lines_added(entries, Seq::empty()) == entries
            &&& port_config::lines_added(entries, lines.push(line)) == added.entries
            &&& port_config::bad_lines(Seq::empty()).len() == 0
            &&& lines.len() < usize::MAX ==> port_config::bad_lines(lines.push(line)) == (
            if added.bad is Some {
                port_config::bad_lines(lines).push(lines.len() as usize)
            } else {
                port_config::bad_lines(lines)
            })
        }),
{
    assert(lines.push(line).drop_last() =~= lines);
    port_config::law_line_adds_behind(port_config::lines_added(entries, lines), line, 0);
}

// ---------------------------------------------------------------------------------------------
// Which rule counts
// ---------------------------------------------------------------------------------------------

/// Whether a rule is for a device, or for the device list: it is for every device, or for this one,
/// in letters of either case; and one for no device is for the device list alone.
pub open spec fn is_for(rule: EntryView, device_id: Option<Seq<char>>) -> bool {
    match (rule.device_id, device_id) {
        (None, None) => true,
        (None, Some(_)) => false,
        (Some(s), None) => s == "*"@,
        (Some(s), Some(d)) => s == "*"@ || text::same_ignoring_case(s, d),
    }
}

/// The ports are those of the first rule that is for the device. A current port is kept just if it
/// is in their range; one that is no port stays so. Where no rule is for the device, there are none.
pub proof fn law_ports_of_first_rule(
    rules: Seq<EntryView>,
    device_id: Option<Seq<char>>,
    current: i32,
    i: int,
)
    requires
        0 <= i <= rules.len(),
        forall|k: int| 0 <= k < i ==> !is_for(#[trigger] rules[k], device_id),
        i < rules.len() ==> is_for(rules[i], device_id),
    ensures
        ({
            let s = port_config::selected(rules, device_id, current);
            &&& s.found <==> i < rules.len()
            &&& i < rules.len() ==> {
                &&& s.min == rules[i].min_port
                &&& s.max == rules[i].max_port
                &&& s.min <= current <= s.max ==> s.current == current
                &&& current >= 0 && !(s.min <= current <= s.max) ==> s.current == -1
                &&& current < 0 ==> s.current == current
            }
            &&& i == rules.len() ==> s.min == -1 && s.max == -1 && s.current == -1
        }),
{
    let f = port_config::counts_for(device_id);
    assert forall|k: int| 0 <= k < rules.len() implies f(#[trigger] rules[k]) == is_for(
        rules[k],
        device_id,
    ) by {}
    assert forall|k: int| 0 <= k < i implies !f(#[trigger] rules[k]) by {
        assert(!is_for(rules[k], device_id));
    }
    seqs::lemma_is_first_index(rules, f, i);
}

/// The device list has the port of the first rule for it, or for every device; and devices have the
/// ports of the first rule for every device.
pub proof fn law_ports_asked_for(pc: PortConfig, i: int, j: int)
    requires
        ({
            let rules = port_config::entries_view(pc.entries@);
            &&& 0 <= i < rules.len()
            &&& rules[i].device_id is None || rules[i].device_id == Some("*"@)
            &&& forall|k: int|
                0 <= k < i ==> (#[trigger] rules[k]).device_id is Some && rules[k].device_id
                    != Some("*"@)
            &&& 0 <= j < rules.len()
            &&& rules[j].device_id == Some("*"@)
            &&& forall|k: int| 0 <= k < j ==> (#[trigger] rules[k]).device_id != Some("*"@)
        }),
    ensures
        options::list_ports(pc).min == pc.entries@[i].min_port,
        options::list_ports(pc).max == pc.entries@[i].max_port,
        options::every_device_ports(pc).min == pc.entries@[j].min_port,
        options::every_device_ports(pc).max == pc.entries@[j].max_port,
{
    let rules = port_config::entries_view(pc.entries@);
    assert(rules[i] == pc.entries@[i]@);
    assert(rules[j] == pc.entries@[j]@);
    assert forall|k: int| 0 <= k < i implies !is_for(#[trigger] rules[k], None) by {}
    law_ports_of_first_rule(rules, None, (-1) as i32, i);
    reveal_strlit("*");
    assert forall|k: int| 0 <= k < j implies !is_for(#[trigger] rules[k], Some("*"@)) by {
        if let Some(s) = rules[k].device_id {
            if text::same_ignoring_case(s, "*"@) {
                numerals::law_ignoring_case(s, "*"@);
                assert("*"@[0] == '*');
                assert(s[0] == '*');
                assert(s =~= "*"@);
            }
        }
    }
    law_ports_of_first_rule(rules, Some("*"@), (-1) as i32, j);
}

/// Where no rule is for the device list, it has no port, and where none is for every device, devices
/// have none.
pub proof fn law_no_ports_asked_for(pc: PortConfig)
    ensures
        ({
            let rules = port_config::entries_view(pc.entries@);
            &&& (forall|k: int|
                0 <= k < rules.len() ==> (#[trigger] rules[k]).device_id is Some
                    && rules[k].device_id != Some("*"@)) ==> !options::list_ports(pc).found
                && options::list_ports(pc).min == -1 && options::list_ports(pc).max == -1
            &&& (forall|k: int|
                0 <= k < rules.len() ==> (#[trigger] rules[k]).device_id != Some("*"@))
                ==> !options::every_device_ports(pc).found && options::every_device_ports(pc).min
                == -1 && options::every_device_ports(pc).max == -1
        }),
{
    let rules = port_config::entries_view(pc.entries@);
    let n = rules.len() as int;
    if forall|k: int|
        0 <= k < rules.len() ==> (#[trigger] rules[k]).device_id is Some && rules[k].device_id
            != Some("*"@) {
        assert forall|k: int| 0 <= k < n implies !is_for(#[trigger] rules[k], None) by {}
        law_ports_of_first_rule(rules, None, (-1) as i32, n);
    }
    if forall|k: int| 0 <= k < rules.len() ==> (#[trigger] rules[k]).device_id != Some("*"@) {
        reveal_strlit("*");
        assert forall|k: int| 0 <= k < n implies !is_for(#[trigger] rules[k], Some("*"@)) by {
            if let Some(s) = rules[k].device_id {
                if text::same_ignoring_case(s, "*"@) {
                    numerals::law_ignoring_case(s, "*"@);
                    assert("*"@[0] == '*');
                    assert(s[0] == '*');
                    assert(s =~= "*"@);
                }
            }
        }
        law_ports_of_first_rule(rules, Some("*"@), (-1) as i32, n);
    }
}

// ---------------------------------------------------------------------------------------------
// The command line
// ---------------------------------------------------------------------------------------------

/// The rules that are given are taken as they are, and the usual ones where none are given. A device
/// that is named takes their place; it is refused, by its name, if it is none.
pub proof fn law_rules_chosen(udid: Seq<char>, config: Option<Seq<char>>)
    ensures
        config matches Some(c) ==> options::config_chosen(None, config) == Result::<
            Seq<char>,
            Seq<char>,
        >::Ok(c),
        config is None ==> options::config_chosen(None, config) == Result::<
            Seq<char>,
            Seq<char>,
        >::Ok("null:9221,:9222-9322"@),
        !options::is_udid(udid) ==> options::config_chosen(Some(udid), config) == Result::<
            Seq<char>,
            Seq<char>,
        >::Err("Invalid UDID format: "@ + udid),
        options::is_udid(udid) && udid.contains(':') ==> options::config_chosen(Some(udid), config)
            == Result::<Seq<char>, Seq<char>>::Ok(udid),
        options::is_udid(udid) && !udid.contains(':') ==> options::config_chosen(Some(udid), config)
            == Result::<Seq<char>, Seq<char>>::Ok(udid.push(':')),
{
    reveal_strlit(":");
    assert(udid + ":"@ =~= udid.push(':'));
}

/// An identifier names a device, alone or with a colon and ports behind it. Text that begins with
/// fewer than 25 characters of one names none.
pub proof fn law_device_named(id: Seq<char>, min: nat, max: nat, rest: Seq<char>)
    ensures
        is_identifier(id) ==> {
            &&& options::is_udid(id)
            &&& options::is_udid(id + seq![':'])
            &&& options::is_udid(id + seq![':'] + text::decimal(min))
            &&& options::is_udid(id + seq![':'] + text::decimal(min) + seq!['-'] + text::decimal(max))
        },
        id.len() < 25 && (rest.len() == 0 || !(('0' <= rest[0] <= '9') || ('a' <= rest[0] <= 'f')
            || ('A' <= rest[0] <= 'F') || rest[0] == '-')) ==> !options::is_udid(id + rest),
{
    let f = port_config::id_char();
    let digit = port_config::decimal_digit();
    let a = text::decimal(min);
    let b = text::decimal(max);
    numerals::law_numeral_reads_back(min);
    numerals::law_numeral_reads_back(max);
    if is_identifier(id) {
        let n = id.len() as int;
        let s0 = id;
        let s1 = id + seq![':'];
        let s2 = id + seq![':'] + a;
        let s3 = id + seq![':'] + a + seq!['-'] + b;
        assert forall|i: int| 0 <= i < n implies f(#[trigger] id[i]) by {
            assert(('0' <= id[i] <= '9') || ('a' <= id[i] <= 'f') || ('A' <= id[i] <= 'F')
                || id[i] == '-');
        }
        assert forall|i: int| 0 <= i < n implies f(#[trigger] s1[i]) by {
            assert(f(id[i]));
        }
        assert forall|i: int| 0 <= i < n implies f(#[trigger] s2[i]) by {
            assert(f(id[i]));
        }
        assert forall|i: int| 0 <= i < n implies f(#[trigger] s3[i]) by {
            assert(f(id[i]));
        }
        assert(s1[n] == ':' && s2[n] == ':' && s3[n] == ':');
        port_config::lemma_is_run_end(s0, 0, n, f);
        port_config::lemma_is_run_end(s1, 0, n, f);
        port_config::lemma_is_run_end(s2, 0, n, f);
        port_config::lemma_is_run_end(s3, 0, n, f);
        assert(s1.skip(n + 1) =~= Seq::empty());
        assert(s2.skip(n + 1) =~= a);
        let t = a + seq!['-'] + b;
        assert(s3.skip(n + 1) =~= t);
        assert forall|i: int| 0 <= i < a.len() implies digit(#[trigger] a[i]) by {
            assert('0' <= a[i] <= '9');
        }
        assert forall|i: int| 0 <= i < a.len() implies digit(#[trigger] t[i]) by {
            assert(t[i] == a[i]);
            assert('0' <= a[i] <= '9');
        }
        assert forall|i: int| a.len() < i < t.len() implies digit(#[trigger] t[i]) by {
            assert(t[i] == b[i - a.len() - 1]);
            assert('0' <= b[i - a.len() - 1] <= '9');
        }
        assert(t[a.len() as int] == '-');
        port_config::lemma_is_run_end(a, 0, a.len() as int, digit);
        port_config::lemma_is_run_end(t, 0, a.len() as int, digit);
        port_config::lemma_is_run_end(t, a.len() as int + 1, t.len() as int, digit);
    }
    let s = id + rest;
    if id.len() < 25 && (rest.len() == 0 || !(('0' <= rest[0] <= '9') || ('a' <= rest[0] <= 'f') || (
    'A' <= rest[0] <= 'F') || rest[0] == '-')) {
        port_config::lemma_run_end(s, 0, f);
        let e = port_config::run_end(s, 0, f);
        if e > id.len() {
            assert(f(s[id.len() as int]));
            assert(s[id.len() as int] == rest[0]);
        }
    }
}

} // verus!
