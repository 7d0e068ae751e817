use ios_webkit_debug_proxy::port_config::{parse_rule, PortConfig};
use regex::Regex;

const RULE: &str = r"(?i)^[ \t]*(([a-fA-F0-9-]{25,}|\*|null)[ \t]*:?|:)[ \t]*(-?[0-9]+)?([ \t]*-[ \t]*([0-9]+))?[ \t]*$";

const ID: &str = "0123456789abcdefABCDEF-00";

#[test]
fn test_parse_config_line() {
    let mut pc = PortConfig::new();
    assert!(pc.add_line("null:9221,:9222-9322").is_none());
    assert_eq!(pc.entries.len(), 2);
    assert!(pc.entries[0].device_id.is_none());
    assert_eq!(pc.entries[0].min_port, 9221);
    assert_eq!(pc.entries[1].device_id, Some("*".to_string()));
    assert_eq!(pc.entries[1].min_port, 9222);
    assert_eq!(pc.entries[1].max_port, 9322);
}

#[test]
fn test_parse_config_empty_port() {
    // Empty after colon means port is auto-assigned by the system
    let mut pc = PortConfig::new();
    assert!(pc.add_line("null:9221,:").is_none());
    assert_eq!(pc.entries.len(), 2);
    assert!(pc.entries[0].device_id.is_none());
    assert_eq!(pc.entries[0].min_port, 9221);
    // Wildcard entry port is 0, meaning auto-assigned by the system
    assert_eq!(pc.entries[1].device_id, Some("*".to_string()));
    assert_eq!(pc.entries[1].min_port, 0);
    assert_eq!(pc.entries[1].max_port, 0);
}

/// What the expression makes of a rule.
fn by_regex(re: &Regex, segment: &str) -> Option<(Option<String>, i32, i32)> {
    let caps = re.captures(segment)?;
    let device_id = match caps.get(2) {
        Some(m) if m.as_str().eq_ignore_ascii_case("null") => None,
        Some(m) => Some(m.as_str().to_string()),
        None => Some("*".to_string()),
    };
    let min: i32 = caps.get(3).map_or(0, |m| m.as_str().parse().unwrap_or(0));
    let max: i32 = caps.get(5).map_or(min, |m| m.as_str().parse().unwrap_or(min));
    Some((device_id, min, max))
}

fn by_parser(segment: &str) -> Option<(Option<String>, i32, i32)> {
    parse_rule(segment).map(|e| (e.device_id, e.min_port, e.max_port))
}

#[test]
fn rules_are_those_of_the_expression() {
    let re = Regex::new(RULE).unwrap();
    let ids = [
        "", "*", "null", "NULL", "nUll", "nul", "nulll", "**", "x", ID,
        "0123456789abcdefABCDEF-0", "0123456789abcdefABCDEF-00-12", "-------------------------",
        "0123456789abcdefABCDEF-00-", "\u{e9}", "0123456789abcdefABCDEF-0\u{e9}0",
    ];
    let colons = ["", ":", " :", ": ", " : ", "::", "\t:\t", " "];
    let ports = [
        "", "1", "-1", "--1", "1-", "1-2", "1 -2", "1 - 2", "- 2", "-1-2", "-1 - 2", "1--2", "12 34",
        "9222-9322 ", "99999999999", "-99999999999", "1-99999999999", "2147483648", "-2147483648",
        "- 5 - 6", "1-2-3", "+1", "\t7\t-\t8\t", "a", "1x",
    ];
    for lead in ["", " ", "\t "] {
        for id in ids {
            for colon in colons {
                for port in ports {
                    let segment = format!("{}{}{}{}", lead, id, colon, port);
                    assert_eq!(by_parser(&segment), by_regex(&re, &segment), "{:?}", segment);
                }
            }
        }
    }
}

#[test]
fn short_texts_are_rules_as_the_expression_says() {
    let re = Regex::new(RULE).unwrap();
    let alphabet = [' ', '-', ':', '*', '1', 'n'];
    let mut texts = vec![String::new()];
    for _ in 0..5 {
        let mut longer = Vec::new();
        for t in &texts {
            for c in alphabet {
                longer.push(format!("{}{}", t, c));
            }
        }
        for t in &longer {
            assert_eq!(by_parser(t), by_regex(&re, t), "{:?}", t);
            let with_id = format!("{}{}", ID, t);
            assert_eq!(by_parser(&with_id), by_regex(&re, &with_id), "{:?}", with_id);
        }
        texts = longer;
    }
}

#[test]
fn full_rule() {
    let e = parse_rule(&format!("{}:9000-9010", ID)).unwrap();
    assert_eq!(e.device_id, Some(ID.to_string()));
    assert_eq!(e.min_port, 9000);
    assert_eq!(e.max_port, 9010);
}

#[test]
fn bad_item_is_told_by_its_place_in_bytes() {
    let mut pc = PortConfig::new();
    assert_eq!(pc.add_line("null:1,  what"), Some(9));
    assert_eq!(pc.entries.len(), 1);
    let mut pc = PortConfig::new();
    assert_eq!(pc.add_line("\u{e9}"), Some(0));
    assert_eq!(pc.entries.len(), 0);
    let mut pc = PortConfig::new();
    assert_eq!(pc.add_line("null:1,\u{e9}"), Some(7));
}

#[test]
fn comments_and_blanks_add_nothing() {
    let mut pc = PortConfig::new();
    for line in ["", "   ", "# null:1", "\t# x", ",,", "\0null:1", "\nnull:1"] {
        assert_eq!(pc.add_line(line), None, "{:?}", line);
        assert_eq!(pc.entries.len(), 0, "{:?}", line);
    }
    assert_eq!(pc.add_line("null:1 # what, ever"), None);
    assert_eq!(pc.entries.len(), 1);
    assert_eq!(pc.add_line("null:1, ,*:2"), None);
    assert_eq!(pc.entries.len(), 3);
}

#[test]
fn lines_of_a_file() {
    let mut pc = PortConfig::new();
    let lines = vec![
        "# ports".to_string(),
        "null:9221".to_string(),
        "nonsense".to_string(),
        ":9222-9322, nonsense, null:1".to_string(),
    ];
    assert_eq!(pc.add_lines(&lines), vec![2, 3]);
    assert_eq!(pc.entries.len(), 2);
    assert_eq!(pc.entries[1].max_port, 9322);
}

#[test]
fn first_rule_that_counts() {
    let mut pc = PortConfig::new();
    assert!(pc.find(Some("x")).is_none());
    assert!(pc.find(None).is_none());
    pc.add(Some("AbC".to_string()), 1, 2);
    pc.add(None, 3, 4);
    pc.add(Some("*".to_string()), 5, 6);
    pc.add(Some("def".to_string()), 7, 8);
    assert_eq!(pc.find(Some("aBc")).unwrap().min_port, 1);
    assert_eq!(pc.find(None).unwrap().min_port, 3);
    assert_eq!(pc.find(Some("def")).unwrap().min_port, 5);
    pc.clear();
    assert!(pc.find(Some("aBc")).is_none());
    pc.add(Some("*".to_string()), 5, 6);
    assert_eq!(pc.find(None).unwrap().min_port, 5);
}

#[test]
fn ports_are_selected() {
    let mut pc = PortConfig::new();
    pc.add(Some("*".to_string()), 10, 20);
    for (current, kept) in [(15, 15), (10, 10), (20, 20), (9, -1), (21, -1), (-1, -1), (-5, -5)] {
        let (mut port, mut min, mut max) = (current, 0, 0);
        assert!(pc.select_port(Some("d"), &mut port, &mut min, &mut max).is_ok());
        assert_eq!((port, min, max), (kept, 10, 20));
    }
    pc.clear();
    let (mut port, mut min, mut max) = (15, 1, 2);
    assert!(pc.select_port(Some("d"), &mut port, &mut min, &mut max).is_err());
    assert_eq!((port, min, max), (-1, -1, -1));
}
