use ios_webkit_debug_proxy::text;
use ios_webkit_debug_proxy::{parse_device_os_version, DebuggablePageInfo, DeviceInfo, PageType};

#[test]
fn os_version_parts() {
    assert_eq!(parse_device_os_version(0x0e0501), (14, 5, 1));
    assert_eq!(parse_device_os_version(0), (0, 0, 0));
    assert_eq!(parse_device_os_version(0xffff_ffff), (0xffff, 0xff, 0xff));
}

#[test]
fn infos_are_copied() {
    let info = DeviceInfo {
        device_id: "id".to_string(),
        device_name: "name".to_string(),
        device_os_version: 3,
        port: 4,
    };
    let copy = info.clone();
    assert_eq!(copy.device_id, "id");
    assert_eq!(copy.device_name, "name");
    assert_eq!((copy.device_os_version, copy.port), (3, 4));
    let page = DebuggablePageInfo {
        device_id: "id".to_string(),
        page_num: 1,
        page_type: PageType::WebPage,
        name: "n".to_string(),
        web_socket_debugger_url: "u".to_string(),
        device_os_version: 2,
    };
    let copy = page.clone();
    assert_eq!(copy.name, "n");
    assert_eq!(copy.page_type, PageType::WebPage);
}

#[test]
fn numerals() {
    for n in [0u64, 7, 10, 12345, u64::MAX] {
        assert_eq!(text::u64_text(n), format!("{}", n));
    }
    for i in [0i32, -1, 10, i32::MIN, i32::MAX] {
        assert_eq!(text::i32_text(i), format!("{}", i));
    }
    for s in [
        "", "0", "+", "-", "+1", "-1", "00012", "1a", "4294967295", "4294967296", "2147483647",
        "2147483648", "-2147483648", "-2147483649", "99999999999999999999", " 1", "\u{0661}",
    ] {
        assert_eq!(text::parse_u32(s), s.parse::<u32>().ok(), "{:?}", s);
        assert_eq!(text::parse_i32(s), s.parse::<i32>().ok(), "{:?}", s);
    }
}

#[test]
fn searches() {
    assert_eq!(text::split("a.b..c", '.'), vec!["a", "b", "", "c"]);
    assert_eq!(text::split("", '.'), vec![""]);
    assert_eq!(text::tail_after("a/b/c", '/'), "c");
    assert_eq!(text::tail_after("abc", '/'), "abc");
    assert_eq!(text::join(&vec!["a".to_string(), "b".to_string()], ", "), "a, b");
    assert_eq!(text::strip_prefix("unix:/x", "unix:"), Some("/x".to_string()));
    assert_eq!(text::strip_prefix("tcp:/x", "unix:"), None);
    assert!(text::contains_pair("a..b", '.'));
    assert!(!text::contains_pair("a.b.", '.'));
    assert!(text::eq_ignore_ascii_case("NuLl", "nUlL"));
    assert!(!text::eq_ignore_ascii_case("k", "\u{212a}"));
}
