use ios_webkit_debug_proxy::options::{
    choose_config, choose_frontend, device_ports, device_range_fits, http_service, names_device,
    rules_on_line, DEFAULT_CONFIG, DEFAULT_FRONTEND,
};
use ios_webkit_debug_proxy::port_config::PortConfig;
use regex::Regex;

const ID: &str = "0123456789abcdefABCDEF-00";

#[test]
fn devices_are_named_as_the_expression_says() {
    let re = Regex::new(r"^[a-fA-F0-9-]{25,}(:[0-9]*(-[0-9]+)?)?$").unwrap();
    let ids = ["", ID, "0123456789abcdefABCDEF-0", "0123456789abcdefABCDEF-00-1", "xyz"];
    let rests = [
        "", ":", ":1", ":1-", ":1-2", ":-2", ":-", "::", ":1-2-3", ":a", " ", ":1 ", "1", "x", "\n",
        ":12345-67890", ":1-2x",
    ];
    for id in ids {
        for rest in rests {
            let udid = format!("{}{}", id, rest);
            assert_eq!(names_device(&udid), re.is_match(&udid), "{:?}", udid);
        }
    }
}

#[test]
fn config_is_chosen() {
    assert_eq!(choose_config(None, None), Ok(DEFAULT_CONFIG.to_string()));
    assert_eq!(DEFAULT_CONFIG, "null:9221,:9222-9322");
    assert_eq!(choose_config(None, Some("null:1")), Ok("null:1".to_string()));
    assert_eq!(choose_config(Some(ID), Some("null:1")), Ok(format!("{}:", ID)));
    let with_port = format!("{}:9000-9001", ID);
    assert_eq!(choose_config(Some(&with_port), None), Ok(with_port.clone()));
    assert_eq!(choose_config(Some("abc"), None), Err("Invalid UDID format: abc".to_string()));
}

#[test]
fn named_device_is_a_rule() {
    for udid in [ID.to_string(), format!("{}:", ID), format!("{}:1-2", ID), format!("{}:-2", ID)] {
        let line = choose_config(Some(&udid), None).unwrap();
        let pc = rules_on_line(&line).unwrap();
        assert_eq!(pc.entries.len(), 1);
        assert_eq!(pc.entries[0].device_id, Some(ID.to_string()));
    }
}

#[test]
fn frontend_is_chosen() {
    assert_eq!(choose_frontend(true, Some("x")), None);
    assert_eq!(choose_frontend(false, Some("x")), Some("x".to_string()));
    assert_eq!(choose_frontend(false, None), Some(DEFAULT_FRONTEND.to_string()));
    assert_eq!(
        DEFAULT_FRONTEND,
        "http://chrome-devtools-frontend.appspot.com/static/27.0.1453.93/devtools.html"
    );
}

#[test]
fn usual_ports() {
    let pc = rules_on_line(DEFAULT_CONFIG).unwrap();
    let service = http_service(&pc, Some("fe".to_string())).unwrap();
    assert_eq!(service.device_list_port, 9221);
    assert_eq!(service.frontend, Some("fe".to_string()));
    assert!(device_range_fits(&pc));
    assert_eq!(device_ports(&pc), Some(9222..9323));
}

#[test]
fn no_ports() {
    let pc = PortConfig::new();
    assert!(http_service(&pc, None).is_none());
    assert!(device_range_fits(&pc));
    assert_eq!(device_ports(&pc), None);
    let pc = rules_on_line("null:0,:").unwrap();
    assert!(http_service(&pc, None).is_none());
    assert_eq!(device_ports(&pc), None);
    let pc = rules_on_line(":5-4").unwrap();
    assert_eq!(device_ports(&pc), None);
}

#[test]
fn low_bits_of_ports_count() {
    let pc = rules_on_line("null:70000,:65537-65540").unwrap();
    assert_eq!(http_service(&pc, None).unwrap().device_list_port, 4464);
    assert_eq!(device_ports(&pc), Some(1..5));
    assert!(!device_range_fits(&rules_on_line(":1-65535").unwrap()));
    assert!(device_range_fits(&rules_on_line(":1-65534").unwrap()));
}

#[test]
fn line_that_is_no_rule() {
    assert!(rules_on_line("ports.txt").is_none());
    assert!(rules_on_line("null:1,what").is_none());
}
