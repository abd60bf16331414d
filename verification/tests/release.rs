use tpdf::update::{extract_tag, find_in, is_current, platform_name, Arch, Os, UpdateError};

fn bytes(s: &str) -> Vec<u8> {
    s.as_bytes().to_vec()
}

fn by_split(body: &str) -> Option<String> {
    body.split("\"tag_name\"")
        .nth(1)
        .and_then(|s| s.split('"').nth(1))
        .map(|s| s.to_string())
}

#[test]
fn platform_name_joins_system_and_processor() {
    assert!(platform_name(Os::Linux, Arch::X86_64) == Ok(String::from("tpdf-linux-x86_64")));
    assert!(platform_name(Os::Linux, Arch::Aarch64) == Ok(String::from("tpdf-linux-aarch64")));
    assert!(platform_name(Os::Macos, Arch::X86_64) == Ok(String::from("tpdf-macos-x86_64")));
    assert!(platform_name(Os::Macos, Arch::Aarch64) == Ok(String::from("tpdf-macos-aarch64")));
    assert!(platform_name(Os::Other, Arch::X86_64) == Err(UpdateError::UnsupportedOs));
    assert!(platform_name(Os::Other, Arch::Other) == Err(UpdateError::UnsupportedOs));
    assert!(platform_name(Os::Linux, Arch::Other) == Err(UpdateError::UnsupportedArch));
}

#[test]
fn extract_tag_reads_the_value_after_the_key() {
    let body = r#"{"url":"x","tag_name": "v1.2.3","name":"release"}"#;
    assert_eq!(extract_tag(&bytes(body)), Some(bytes("v1.2.3")));
    assert_eq!(extract_tag(&bytes(r#""tag_name":"0.9""#)), Some(bytes("0.9")));
    assert_eq!(extract_tag(&bytes(r#""tag_name":"""#)), Some(bytes("")));
}

#[test]
fn extract_tag_agrees_with_splitting() {
    let bodies = [
        "",
        "{}",
        "\"tag_name\"",
        "\"tag_name\":",
        "\"tag_name\": \"v1",
        "\"tag_name\": \"v1\"",
        "\"tag_name\": \"v1\" \"tag_name\": \"v2\"",
        "\"tag_name\"  \"tag_name\": \"v2\"",
        "\"tag_name\" \"a\"tag_name\" \"b\"",
        "\"tag_name\"\"tag_name\"",
        "\"tag_name\"tag_name\"x\"",
        "x\"tag_name\":\"é√\"y",
        "tag_name: \"v1\"",
        "\"tag_nam\": \"v1\"",
        "\"\"tag_name\"\" \"q",
    ];
    for body in bodies {
        let expected = by_split(body).map(|s| s.into_bytes());
        assert_eq!(extract_tag(&bytes(body)), expected);
    }
}

#[test]
fn find_in_finds_the_first_place() {
    let s = bytes("abcabcabc");
    assert_eq!(find_in(&s, &bytes("abc"), 0, 9), Some(0));
    assert_eq!(find_in(&s, &bytes("abc"), 1, 9), Some(3));
    assert_eq!(find_in(&s, &bytes("abc"), 4, 9), Some(6));
    assert_eq!(find_in(&s, &bytes("abc"), 4, 8), None);
    assert_eq!(find_in(&s, &bytes("abc"), 7, 9), None);
    assert_eq!(find_in(&s, &bytes("abd"), 0, 9), None);
    assert_eq!(find_in(&s, &bytes("abc"), 0, 10), None);
    assert_eq!(find_in(&s, &bytes(""), 5, 5), Some(5));
    assert_eq!(find_in(&s, &bytes(""), 6, 5), None);
    assert_eq!(find_in(&s, &bytes("c"), 0, 9), Some(2));
}

#[test]
fn is_current_ignores_the_version_prefix() {
    assert!(is_current(&bytes("v1.2.3"), &bytes("1.2.3")));
    assert!(is_current(&bytes("1.2.3"), &bytes("1.2.3")));
    assert!(!is_current(&bytes("v1.2.4"), &bytes("1.2.3")));
    assert!(!is_current(&bytes("vv1.2.3"), &bytes("1.2.3")));
    assert!(!is_current(&bytes("v1.2.3"), &bytes("v1.2.3")));
    assert!(is_current(&bytes("v"), &bytes("")));
    assert!(is_current(&bytes(""), &bytes("")));
    assert!(!is_current(&bytes("v1.2"), &bytes("1.2.3")));
}
