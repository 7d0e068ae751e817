//! Which ports devices are given: rules on lines, and which rule counts for a device.
//!
//! A line holds rules with commas between them, up to the end of the line or a `#`. A rule is a
//! device identifier, `*` or `null`, then a colon, then a port or a range of ports:
//! `null:9221,:9222-9322`. What is not needed to tell a rule may be left out.

use crate::seqs;
use crate::text;
use vstd::prelude::*;
#[allow(unused_imports)]
use vstd::string::*;

verus! {

// ---------------------------------------------------------------------------------------------
// One rule
// ---------------------------------------------------------------------------------------------

/// Where a run of characters that `f` holds of, from position `i` on, ends.
pub open spec fn run_end(s: Seq<char>, i: int, f: spec_fn(char) -> bool) -> int
    decreases s.len() - i,
{
    if 0 <= i < s.len() && f(s[i]) {
        run_end(s, i + 1, f)
    } else {
        i
    }
}

/// A run ends in range, not before its start; every character in it passes, and the one behind it
/// does not.
pub proof fn lemma_run_end(s: Seq<char>, i: int, f: spec_fn(char) -> bool)
    requires
        0 <= i <= s.len(),
    ensures
        i <= run_end(s, i, f) <= s.len(),
        forall|k: int| i <= k < run_end(s, i, f) ==> f(#[trigger] s[k]),
        run_end(s, i, f) < s.len() ==> !f(s[run_end(s, i, f)]),
    decreases s.len() - i,
{
    if i < s.len() && f(s[i]) {
        lemma_run_end(s, i + 1, f);
    }
}

/// Where a run ends is the first position from `i` on that does not pass.
pub proof fn lemma_is_run_end(s: Seq<char>, i: int, j: int, f: spec_fn(char) -> bool)
    requires
        0 <= i <= j <= s.len(),
        forall|k: int| i <= k < j ==> f(#[trigger] s[k]),
        j < s.len() ==> !f(s[j]),
    ensures
        run_end(s, i, f) == j,
    decreases j - i,
{
    if i < j {
        assert(f(s[i]));
        lemma_is_run_end(s, i + 1, j, f);
    }
}

/// A run in the rest of a text is the same run in the whole.
pub proof fn lemma_run_shifts(s: Seq<char>, k: int, i: int, f: spec_fn(char) -> bool)
    requires
        0 <= k,
        0 <= i,
        k + i <= s.len(),
    ensures
        run_end(s.skip(k), i, f) + k == run_end(s, k + i, f),
    decreases s.len() - i,
{
    if k + i < s.len() && f(s[k + i]) {
        assert(s.skip(k)[i] == s[k + i]);
        lemma_run_shifts(s, k, i + 1, f);
    } else if k + i < s.len() {
        assert(s.skip(k)[i] == s[k + i]);
    }
}

/// A space or a tab.
pub open spec fn blank() -> spec_fn(char) -> bool {
    |c: char| c == ' ' || c == '\t'
}

/// An ASCII digit.
pub open spec fn decimal_digit() -> spec_fn(char) -> bool {
    |c: char| text::is_digit(c)
}

/// What a device identifier is made of: hexadecimal digits and dashes.
pub open spec fn id_char() -> spec_fn(char) -> bool {
    |c: char|
        text::is_digit(c) || ('a' <= c <= 'f') || ('A' <= c <= 'F') || c == '-'
}

/// What a rule is made of: not the end of a line, not a comma, and not the start of a comment.
pub open spec fn rule_char() -> spec_fn(char) -> bool {
    |c: char| c != '\0' && c != '\n' && c != '#' && c != ','
}

/// Whether `c` is at a position.
pub open spec fn char_at(s: Seq<char>, i: int, c: char) -> bool {
    0 <= i < s.len() && s[i] == c
}

/// The device that a rule is for, and where the ports begin.
pub struct Head {
    /// What stands for the device, if anything does.
    pub device: Option<Seq<char>>,
    pub end: int,
}

/// The head of a rule, from position `a` on: a device identifier of 25 characters or more, `*` or
/// `null`, with a colon behind it or not, or a colon alone.
pub open spec fn head_in(s: Seq<char>, a: int) -> Option<Head> {
    let id_end = run_end(s, a, id_char());
    let end = if id_end - a >= 25 {
        id_end
    } else if char_at(s, a, '*') {
        a + 1
    } else if a + 4 <= s.len() && text::same_ignoring_case(s.subrange(a, a + 4), "null"@) {
        a + 4
    } else {
        a
    };
    if end > a {
        let c = run_end(s, end, blank());
        Some(
            Head {
                device: Some(s.subrange(a, end)),
                end: if char_at(s, c, ':') {
                    c + 1
                } else {
                    c
                },
            },
        )
    } else if char_at(s, a, ':') {
        Some(Head { device: None, end: a + 1 })
    } else {
        None
    }
}

/// Where the first port, from position `e` on, ends: digits with a minus sign before them or not.
/// It ends where it begins if there is none.
pub open spec fn first_port_end(s: Seq<char>, e: int) -> int {
    let digits = if char_at(s, e, '-') {
        e + 1
    } else {
        e
    };
    let end = run_end(s, digits, decimal_digit());
    if end > digits {
        end
    } else {
        e
    }
}

/// Where the digits of the second port, behind position `m`, begin and end: behind a dash, with
/// blanks about it or not. They end where they begin if there is none.
pub open spec fn second_port(s: Seq<char>, m: int) -> (int, int) {
    let f = run_end(s, m, blank());
    if char_at(s, f, '-') {
        let g = run_end(s, f + 1, blank());
        let x = run_end(s, g, decimal_digit());
        if x > g {
            (g, x)
        } else {
            (m, m)
        }
    } else {
        (m, m)
    }
}

/// A rule as it is written: what stands for the device, and the two ports, each if it is there.
pub struct Written {
    pub device: Option<Seq<char>>,
    pub min: Option<Seq<char>>,
    pub max: Option<Seq<char>>,
}

/// The rule that all of `s` is, if it is one.
pub open spec fn written_in(s: Seq<char>) -> Option<Written> {
    match head_in(s, run_end(s, 0, blank())) {
        None => None,
        Some(head) => {
            let e = run_end(s, head.end, blank());
            let m = first_port_end(s, e);
            let (g, x) = second_port(s, m);
            if run_end(s, x, blank()) == s.len() {
                Some(
                    Written {
                        device: head.device,
                        min: if m > e {
                            Some(s.subrange(e, m))
                        } else {
                            None
                        },
                        max: if x > g {
                            Some(s.subrange(g, x))
                        } else {
                            None
                        },
                    },
                )
            } else {
                None
            }
        },
    }
}

/// A rule: the ports for a device.
#[derive(Debug)]
pub struct PortConfigEntry {
    /// The device: none stands for the device list, `*` for every device.
    pub device_id: Option<String>,
    pub min_port: i32,
    pub max_port: i32,
}

/// A [`PortConfigEntry`] over characters.
pub struct EntryView {
    pub device_id: Option<Seq<char>>,
    pub min_port: i32,
    pub max_port: i32,
}

impl View for PortConfigEntry {
    type V = EntryView;

    open spec fn view(&self) -> EntryView {
        EntryView {
            device_id: text::option_view(self.device_id),
            min_port: self.min_port,
            max_port: self.max_port,
        }
    }
}

/// The number that digits stand for, or `default` where they stand for none that fits.
pub open spec fn port_or(digits: Option<Seq<char>>, default: i32) -> i32 {
    match digits {
        Some(d) => match text::parsed_i32(d) {
            Some(n) => n,
            None => default,
        },
        None => default,
    }
}

/// What a rule means: no device stands for every device, `null` for the device list; no first port
/// is port zero, and no second port is the first.
pub open spec fn meaning(w: Written) -> EntryView {
    let min_port = port_or(w.min, 0);
    EntryView {
        device_id: match w.device {
            Some(d) => if text::same_ignoring_case(d, "null"@) {
                None
            } else {
                Some(d)
            },
            None => Some("*"@),
        },
        min_port,
        max_port: port_or(w.max, min_port),
    }
}

/// The rule that all of `s` is, if it is one.
pub open spec fn rule_in(s: Seq<char>) -> Option<EntryView> {
    match written_in(s) {
        Some(w) => Some(meaning(w)),
        None => None,
    }
}

fn is_digit(c: char) -> (r: bool)
    ensures
        r == text::is_digit(c),
{
    c >= '0' && c <= '9'
}

fn skip_blanks(v: &Vec<char>, i: usize) -> (r: usize)
    requires
        i <= v@.len(),
    ensures
        r == run_end(v@, i as int, blank()),
        i <= r <= v@.len(),
{
    let mut j: usize = i;
    while j < v.len() && (v[j] == ' ' || v[j] == '\t')
        invariant
            i <= j <= v@.len(),
            forall|k: int| i <= k < j ==> blank()(#[trigger] v@[k]),
        decreases v@.len() - j,
    {
        j = j + 1;
    }
    proof {
        lemma_is_run_end(v@, i as int, j as int, blank());
    }
    j
}

pub(crate) fn skip_digits(v: &Vec<char>, i: usize) -> (r: usize)
    requires
        i <= v@.len(),
    ensures
        r == run_end(v@, i as int, decimal_digit()),
        i <= r <= v@.len(),
{
    let mut j: usize = i;
    while j < v.len() && is_digit(v[j])
        invariant
            i <= j <= v@.len(),
            forall|k: int| i <= k < j ==> decimal_digit()(#[trigger] v@[k]),
        decreases v@.len() - j,
    {
        j = j + 1;
    }
    proof {
        lemma_is_run_end(v@, i as int, j as int, decimal_digit());
    }
    j
}

/// Skips what a device identifier is made of.
pub(crate) fn skip_id_chars(v: &Vec<char>, i: usize) -> (r: usize)
    requires
        i <= v@.len(),
    ensures
        r == run_end(v@, i as int, id_char()),
        i <= r <= v@.len(),
{
    let mut j: usize = i;
    while j < v.len() && (is_digit(v[j]) || (v[j] >= 'a' && v[j] <= 'f') || (v[j] >= 'A' && v[j]
        <= 'F') || v[j] == '-')
        invariant
            i <= j <= v@.len(),
            forall|k: int| i <= k < j ==> id_char()(#[trigger] v@[k]),
        decreases v@.len() - j,
    {
        j = j + 1;
    }
    proof {
        lemma_is_run_end(v@, i as int, j as int, id_char());
    }
    j
}

fn skip_rule_chars(v: &Vec<char>, i: usize) -> (r: usize)
    requires
        i <= v@.len(),
    ensures
        r == run_end(v@, i as int, rule_char()),
        i <= r <= v@.len(),
{
    let mut j: usize = i;
    while j < v.len() && v[j] != '\0' && v[j] != '\n' && v[j] != '#' && v[j] != ','
        invariant
            i <= j <= v@.len(),
            forall|k: int| i <= k < j ==> rule_char()(#[trigger] v@[k]),
        decreases v@.len() - j,
    {
        j = j + 1;
    }
    proof {
        lemma_is_run_end(v@, i as int, j as int, rule_char());
    }
    j
}

fn part(s: &str, from: usize, to: usize) -> (r: String)
    requires
        from <= to <= s@.len(),
    ensures
        r@ == s@.subrange(from as int, to as int),
{
    s.substring_char(from, to).to_owned()
}

fn read_port(digits: &Option<String>, default: i32) -> (r: i32)
    ensures
        r == port_or(text::option_view(*digits), default),
{
    match digits {
        Some(d) => match text::parse_i32(d.as_str()) {
            Some(n) => n,
            None => default,
        },
        None => default,
    }
}

/// Reads a rule.
pub fn parse_rule(segment: &str) -> (r: Option<PortConfigEntry>)
    ensures
        match rule_in(segment@) {
            Some(e) => r matches Some(t) && t@ == e,
            None => r is None,
        },
{
    let v = text::chars_of(segment);
    let n: usize = v.len();
    let a = skip_blanks(&v, 0);
    let id_end = skip_id_chars(&v, a);
    proof {
        reveal_strlit("null");
    }
    let is_null = n - a >= 4 && text::eq_ignore_ascii_case(
        part(segment, a, a + 4).as_str(),
        "null",
    );
    let end: usize = if id_end - a >= 25 {
        id_end
    } else if a < n && v[a] == '*' {
        a + 1
    } else if is_null {
        a + 4
    } else {
        a
    };
    let device: Option<String>;
    let ports: usize;
    if end > a {
        device = Some(part(segment, a, end));
        let c = skip_blanks(&v, end);
        ports = if c < n && v[c] == ':' {
            c + 1
        } else {
            c
        };
    } else if a < n && v[a] == ':' {
        device = None;
        ports = a + 1;
    } else {
        return None;
    }
    let ghost head = head_in(segment@, a as int);
    assert(head == Some(Head { device: text::option_view(device), end: ports as int }));
    let e = skip_blanks(&v, ports);
    let digits: usize = if e < n && v[e] == '-' {
        e + 1
    } else {
        e
    };
    let digits_end = skip_digits(&v, digits);
    let m: usize = if digits_end > digits {
        digits_end
    } else {
        e
    };
    assert(m == first_port_end(segment@, e as int));
    let f = skip_blanks(&v, m);
    let mut g: usize = m;
    let mut x: usize = m;
    if f < n && v[f] == '-' {
        let from = skip_blanks(&v, f + 1);
        let to = skip_digits(&v, from);
        if to > from {
            g = from;
            x = to;
        }
    }
    assert((g as int, x as int) == second_port(segment@, m as int));
    if skip_blanks(&v, x) != n {
        return None;
    }
    let min = if m > e {
        Some(part(segment, e, m))
    } else {
        None
    };
    let max = if x > g {
        Some(part(segment, g, x))
    } else {
        None
    };
    let min_port = read_port(&min, 0);
    let max_port = read_port(&max, min_port);
    let device_id = match device {
        Some(d) => if text::eq_ignore_ascii_case(d.as_str(), "null") {
            None
        } else {
            Some(d)
        },
        None => Some("*".to_owned()),
    };
    Some(PortConfigEntry { device_id, min_port, max_port })
}

// ---------------------------------------------------------------------------------------------
// Lines
// ---------------------------------------------------------------------------------------------

/// What a line adds to the rules, and the position of the first item that is no rule, if there is
/// one.
pub struct Added {
    pub entries: Seq<EntryView>,
    pub bad: Option<int>,
}

/// What a line adds, from a position on. An item goes up to a comma, or up to the end of the line
/// or a comment, where the line ends. An item of blanks alone is passed over. An item that is no
/// rule ends it; the rules before it stay.
pub open spec fn line_added(entries: Seq<EntryView>, line: Seq<char>, curr: int) -> Added
    decreases line.len() - curr,
{
    if curr < 0 || curr >= line.len() {
        Added { entries, bad: None }
    } else {
        let c = run_end(line, curr, blank());
        let end = run_end(line, c, rule_char());
        proof {
            lemma_run_end(line, curr, blank());
            lemma_run_end(line, c, rule_char());
        }
        if c < end && rule_in(line.subrange(c, end)) is None {
            Added { entries, bad: Some(c) }
        } else {
            let more = if c < end {
                entries.push(rule_in(line.subrange(c, end)).unwrap())
            } else {
                entries
            };
            if char_at(line, end, ',') {
                line_added(more, line, end + 1)
            } else {
                Added { entries: more, bad: None }
            }
        }
    }
}

/// The views of a list of rules.
pub open spec fn entries_view(entries: Seq<PortConfigEntry>) -> Seq<EntryView> {
    Seq::new(entries.len(), |i: int| entries[i]@)
}

/// Whether a rule counts for a device, or for the device list.
pub open spec fn counts_for(device_id: Option<Seq<char>>) -> spec_fn(EntryView) -> bool {
    |e: EntryView|
        match e.device_id {
            Some(s) => s == "*"@ || (device_id matches Some(d) && text::same_ignoring_case(s, d)),
            None => device_id is None,
        }
}

/// The rules.
#[derive(Debug)]
pub struct PortConfig {
    pub entries: Vec<PortConfigEntry>,
}

/// The outcome of looking for ports: the rule that counts, if one does, and the ports after it.
pub struct Selected {
    pub found: bool,
    pub current: int,
    pub min: int,
    pub max: int,
}

/// What looking for ports gives: the range of the first rule that counts, with the current port
/// given up if it is outside that range; nothing if no rule counts.
pub open spec fn selected(
    entries: Seq<EntryView>,
    device_id: Option<Seq<char>>,
    current: i32,
) -> Selected {
    let i = seqs::first_index(entries, counts_for(device_id));
    if i < entries.len() {
        let e = entries[i];
        Selected {
            found: true,
            current: if current >= 0 && (current < e.min_port || current > e.max_port) {
                -1
            } else {
                current as int
            },
            min: e.min_port as int,
            max: e.max_port as int,
        }
    } else {
        Selected { found: false, current: -1, min: -1, max: -1 }
    }
}

/// The rules that several lines add, one after the other; a line with an item that is no rule adds
/// those before it.
pub open spec fn lines_added(entries: Seq<EntryView>, lines: Seq<Seq<char>>) -> Seq<EntryView>
    decreases lines.len(),
{
    if lines.len() == 0 {
        entries
    } else {
        line_added(lines_added(entries, lines.drop_last()), lines.last(), 0).entries
    }
}

/// The positions of the lines with an item that is no rule.
pub open spec fn bad_lines(lines: Seq<Seq<char>>) -> Seq<usize>
    decreases lines.len(),
{
    if lines.len() == 0 {
        Seq::empty()
    } else if line_added(Seq::empty(), lines.last(), 0).bad is Some {
        bad_lines(lines.drop_last()).push((lines.len() - 1) as usize)
    } else {
        bad_lines(lines.drop_last())
    }
}

/// Which item of a line is no rule does not depend on the rules before it, and the rules that a
/// line adds come behind those.
pub proof fn law_line_adds_behind(entries: Seq<EntryView>, line: Seq<char>, curr: int)
    ensures
        line_added(entries, line, curr).bad == line_added(Seq::empty(), line, curr).bad,
        line_added(entries, line, curr).entries == entries + line_added(
            Seq::empty(),
            line,
            curr,
        ).entries,
    decreases line.len() - curr,
{
    let none: Seq<EntryView> = Seq::empty();
    if curr < 0 || curr >= line.len() {
        assert(entries + none =~= entries);
    } else {
        let c = run_end(line, curr, blank());
        let end = run_end(line, c, rule_char());
        lemma_run_end(line, curr, blank());
        lemma_run_end(line, c, rule_char());
        assert(entries + none =~= entries);
        if c < end && rule_in(line.subrange(c, end)) is None {
        } else {
            if c < end {
                let rule = rule_in(line.subrange(c, end)).unwrap();
                assert(entries + none.push(rule) =~= entries.push(rule));
                if char_at(line, end, ',') {
                    law_line_adds_behind(entries.push(rule), line, end + 1);
                    law_line_adds_behind(none.push(rule), line, end + 1);
                    let rest = line_added(none, line, end + 1).entries;
                    assert(entries.push(rule) + rest =~= entries + (none.push(rule) + rest));
                }
            } else if char_at(line, end, ',') {
                law_line_adds_behind(entries, line, end + 1);
            }
        }
    }
}

impl PortConfig {
    /// No rules.
    pub fn new() -> (r: Self)
        ensures
            r.entries@.len() == 0,
    {
        PortConfig { entries: Vec::new() }
    }

    /// Removes every rule.
    pub fn clear(&mut self)
        ensures
            final(self).entries@.len() == 0,
    {
        self.entries.clear();
    }

    /// Adds a rule behind the others.
    pub fn add(&mut self, device_id: Option<String>, min_port: i32, max_port: i32)
        ensures
            entries_view(final(self).entries@) == entries_view(old(self).entries@).push(
                EntryView { device_id: text::option_view(device_id), min_port, max_port },
            ),
    {
        let ghost before = self.entries@;
        self.entries.push(PortConfigEntry { device_id, min_port, max_port });
        assert(entries_view(self.entries@) =~= entries_view(before).push(
            EntryView { device_id: text::option_view(device_id), min_port, max_port },
        ));
    }

    /// Adds the rules on a line. Returns where the first item begins that is no rule, in bytes, if
    /// there is one.
    pub fn add_line(&mut self, line: &str) -> (r: Option<usize>)
        ensures
            entries_view(final(self).entries@) == line_added(
                entries_view(old(self).entries@),
                line@,
                0,
            ).entries,
            match line_added(entries_view(old(self).entries@), line@, 0).bad {
                Some(c) => r == Some(vstd::utf8::encode_utf8(line@.take(c)).len() as usize),
                None => r is None,
            },
    {
        let ghost all = line_added(entries_view(self.entries@), line@, 0);
        let v = text::chars_of(line);
        let n: usize = v.len();
        let mut curr: usize = 0;
        while curr < n
            invariant
                curr <= n,
                n == v@.len(),
                v@ == line@,
                all == line_added(entries_view(old(self).entries@), line@, 0),
                all == line_added(entries_view(self.entries@), line@, curr as int),
            decreases n - curr,
        {
            let c = skip_blanks(&v, curr);
            let end = skip_rule_chars(&v, c);
            if c < end {
                let segment = part(line, c, end);
                match parse_rule(segment.as_str()) {
                    Some(e) => {
                        self.add(e.device_id, e.min_port, e.max_port);
                    },
                    None => {
                        let before = line.substring_char(0, c);
                        assert(before@ =~= line@.take(c as int));
                        return Some(before.len());
                    },
                }
            }
            if end >= n || v[end] != ',' {
                return None;
            }
            curr = end + 1;
        }
        None
    }

    /// Adds the rules on several lines. Returns the positions of the lines with an item that is no
    /// rule.
    pub fn add_lines(&mut self, lines: &Vec<String>) -> (r: Vec<usize>)
        ensures
            entries_view(final(self).entries@) == lines_added(
                entries_view(old(self).entries@),
                text::strings(lines@),
            ),
            r@ == bad_lines(text::strings(lines@)),
    {
        let ghost first = entries_view(self.entries@);
        let ghost all = text::strings(lines@);
        let mut bad: Vec<usize> = Vec::new();
        let mut i: usize = 0;
        while i < lines.len()
            invariant
                i <= lines@.len(),
                all == text::strings(lines@),
                entries_view(self.entries@) == lines_added(first, all.take(i as int)),
                bad@ == bad_lines(all.take(i as int)),
            decreases lines@.len() - i,
        {
            proof {
                assert(all.take(i + 1).drop_last() =~= all.take(i as int));
                assert(all.take(i + 1).last() == lines@[i as int]@);
                law_line_adds_behind(entries_view(self.entries@), lines@[i as int]@, 0);
            }
            if self.add_line(lines[i].as_str()).is_some() {
                bad.push(i);
            }
            i = i + 1;
        }
        assert(all.take(all.len() as int) =~= all);
        bad
    }

    /// Finds the first rule that counts for a device, or for the device list.
    pub fn find(&self, device_id: Option<&str>) -> (r: Option<&PortConfigEntry>)
        ensures
            ({
                let entries = entries_view(self.entries@);
                let i = seqs::first_index(entries, counts_for(text::str_view(device_id)));
                if i < entries.len() {
                    r matches Some(e) && *e == self.entries@[i]
                } else {
                    r is None
                }
            }),
    {
        let ghost entries = entries_view(self.entries@);
        let ghost f = counts_for(text::str_view(device_id));
        let mut i: usize = 0;
        while i < self.entries.len()
            invariant
                i <= self.entries@.len(),
                entries == entries_view(self.entries@),
                f == counts_for(text::str_view(device_id)),
                forall|k: int| 0 <= k < i ==> !f(#[trigger] entries[k]),
            decreases self.entries@.len() - i,
        {
            let entry = &self.entries[i];
            assert(entries[i as int] == entry@);
            let counts = match (&entry.device_id, device_id) {
                (Some(s), Some(d)) => text::str_eq(s.as_str(), "*") || text::eq_ignore_ascii_case(
                    s.as_str(),
                    d,
                ),
                (Some(s), None) => text::str_eq(s.as_str(), "*"),
                (None, Some(_)) => false,
                (None, None) => true,
            };
            assert(counts == f(entries[i as int]));
            if counts {
                proof {
                    seqs::lemma_is_first_index(entries, f, i as int);
                }
                return Some(entry);
            }
            i = i + 1;
        }
        proof {
            seqs::lemma_is_first_index(entries, f, entries.len() as int);
        }
        None
    }

    /// Looks for the ports of a device, or of the device list.
    pub fn select_port(
        &self,
        device_id: Option<&str>,
        current_port: &mut i32,
        min_port: &mut i32,
        max_port: &mut i32,
    ) -> (r: std::result::Result<(), ()>)
        ensures
            ({
                let s = selected(
                    entries_view(self.entries@),
                    text::str_view(device_id),
                    *old(current_port),
                );
                &&& r is Ok <==> s.found
                &&& *final(current_port) == s.current
                &&& *final(min_port) == s.min
                &&& *final(max_port) == s.max
            }),
    {
        match self.find(device_id) {
            Some(config) => {
                proof {
                    let entries = entries_view(self.entries@);
                    let f = counts_for(text::str_view(device_id));
                    seqs::lemma_first_index(entries, f);
                    assert(entries[seqs::first_index(entries, f)] == config@);
                }
                *min_port = config.min_port;
                *max_port = config.max_port;
                if *current_port >= 0 && (*current_port < *min_port || *current_port
                    > *max_port) {
                    *current_port = -1;
                }
                Ok(())
            },
            None => {
                *min_port = -1;
                *max_port = -1;
                *current_port = -1;
                Err(())
            },
        }
    }
}

// ---------------------------------------------------------------------------------------------
// What always holds
// ---------------------------------------------------------------------------------------------

/// Where no rules are, none counts. A rule that is added behind others changes nothing for a device
/// for which one of those counts; and a rule for every device counts for all the others, and for
/// the device list.
pub proof fn law_first_rule_counts(
    entries: Seq<EntryView>,
    rule: EntryView,
    device_id: Option<Seq<char>>,
    current: i32,
)
    ensures
        !selected(Seq::empty(), device_id, current).found,
        selected(entries, device_id, current).found ==> selected(
            entries.push(rule),
            device_id,
            current,
        ) == selected(entries, device_id, current),
        !selected(entries, device_id, current).found && rule.device_id == Some("*"@) ==> selected(
            entries.push(rule),
            device_id,
            current,
        ).found,
{
    let f = counts_for(device_id);
    let more = entries.push(rule);
    seqs::lemma_first_index(entries, f);
    let i = seqs::first_index(entries, f);
    assert forall|k: int| 0 <= k < i implies !f(#[trigger] more[k]) by {
        assert(!f(entries[k]));
    }
    if i < entries.len() {
        assert(more[i] == entries[i]);
        seqs::lemma_is_first_index(more, f, i);
    } else if rule.device_id == Some("*"@) {
        assert(f(more[i]));
        seqs::lemma_is_first_index(more, f, i);
    }
}

/// A current port that is kept is in the range, or is no port.
pub proof fn law_kept_port(entries: Seq<EntryView>, device_id: Option<Seq<char>>, current: i32)
    ensures
        ({
            let s = selected(entries, device_id, current);
            s.current < 0 || (s.found && s.current == current && s.min <= s.current <= s.max)
        }),
{
}

/// A line that begins with a comment adds nothing, and neither does an empty one.
pub proof fn law_comment(entries: Seq<EntryView>, words: Seq<char>)
    ensures
        line_added(entries, seq!['#'] + words, 0) == (Added { entries, bad: None }),
        line_added(entries, Seq::empty(), 0) == (Added { entries, bad: None }),
{
    let line = seq!['#'] + words;
    assert(line[0] == '#');
    assert(!blank()(line[0]));
    assert(!rule_char()(line[0]));
}

/// A device identifier, a colon, a port, a dash and a port are a rule that gives the device the
/// ports from the first to the second.
pub proof fn law_full_rule(id: Seq<char>, min: Seq<char>, max: Seq<char>)
    requires
        id.len() >= 25,
        forall|i: int| 0 <= i < id.len() ==> id_char()(#[trigger] id[i]),
        text::numeral(min) is Some,
        text::numeral(max) is Some,
    ensures
        rule_in(id + seq![':'] + min + seq!['-'] + max) == Some(
            EntryView {
                device_id: Some(id),
                min_port: port_or(Some(min), 0),
                max_port: port_or(Some(max), port_or(Some(min), 0)),
            },
        ),
{
    let s = id + seq![':'] + min + seq!['-'] + max;
    let n = s.len() as int;
    let colon = id.len() as int;
    let e = colon + 1;
    let dash = e + min.len();
    assert(s[colon] == ':');
    assert(s[dash] == '-');
    assert forall|i: int| 0 <= i < colon implies id_char()(#[trigger] s[i]) by {
        assert(s[i] == id[i]);
    }
    assert forall|i: int| e <= i < dash implies decimal_digit()(#[trigger] s[i]) by {
        assert(s[i] == min[i - e]);
    }
    assert forall|i: int| dash < i < n implies decimal_digit()(#[trigger] s[i]) by {
        assert(s[i] == max[i - dash - 1]);
    }
    assert(id_char()(s[0]));
    assert(decimal_digit()(s[e]));
    assert(decimal_digit()(s[dash + 1]));
    lemma_is_run_end(s, 0, 0, blank());
    lemma_is_run_end(s, 0, colon, id_char());
    lemma_is_run_end(s, colon, colon, blank());
    lemma_is_run_end(s, e, e, blank());
    lemma_is_run_end(s, e, dash, decimal_digit());
    lemma_is_run_end(s, dash, dash, blank());
    lemma_is_run_end(s, dash + 1, dash + 1, blank());
    lemma_is_run_end(s, dash + 1, n, decimal_digit());
    lemma_is_run_end(s, n, n, blank());
    assert(s.subrange(0, colon) =~= id);
    assert(s.subrange(e, dash) =~= min);
    assert(s.subrange(dash + 1, n) =~= max);
    reveal_strlit("null");
    assert(id.len() != "null"@.len());
}

} // verus!
