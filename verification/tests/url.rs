use zigzag::url::parse_url;

fn parts(input: &str) -> (String, String, u16, String) {
    let url = parse_url(input).unwrap();
    (url.authority, url.host, url.port, url.base_path)
}

fn expected(authority: &str, host: &str, port: u16, path: &str) -> (String, String, u16, String) {
    (
        authority.to_owned(),
        host.to_owned(),
        port,
        path.to_owned(),
    )
}

#[test]
fn urls_have_parts() {
    assert_eq!(
        parts("http://100.101.237.83:8765"),
        expected("100.101.237.83:8765", "100.101.237.83", 8765, "/")
    );
    assert_eq!(parts("http://h"), expected("h", "h", 80, "/"));
    assert_eq!(parts("http://h/"), expected("h", "h", 80, "/"));
    assert_eq!(parts("http://h:1/a/b"), expected("h:1", "h", 1, "/a/b/"));
    assert_eq!(parts("http://h:1//a//"), expected("h:1", "h", 1, "/a/"));
    assert_eq!(parts("http://h//"), expected("h", "h", 80, "//"));
    assert_eq!(parts("http://[::1]:9/"), expected("[::1]:9", "[::1]", 9, "/"));
}

#[test]
fn bad_urls_are_told_why() {
    for (input, message) in [
        (
            "https://h",
            "relay URL must use http:// (the tailnet is the transport boundary)",
        ),
        (
            "",
            "relay URL must use http:// (the tailnet is the transport boundary)",
        ),
        ("http://", "invalid relay URL authority"),
        ("http:///path", "invalid relay URL authority"),
        ("http://user@h", "invalid relay URL authority"),
        ("http://h:", "invalid relay URL port"),
        ("http://h:65536", "invalid relay URL port"),
        ("http://h:x", "invalid relay URL port"),
        ("http://:80", "invalid relay URL host"),
    ] {
        assert_eq!(parse_url(input).err(), Some(message.to_owned()));
    }
}
