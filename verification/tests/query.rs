use zigzag::query::{encode, get_query, hex, percent_decode, query};

#[test]
fn malformed_get_query_is_a_bad_request() {
    assert_eq!(
        get_query("/v1/events?after=not-a-number").unwrap_err(),
        "after must be a non-negative integer"
    );
    assert_eq!(
        get_query("/v1/events?epoch=%ZZ").unwrap_err(),
        "invalid URL encoding"
    );
}

#[test]
fn a_poll_has_defaults() {
    assert_eq!(get_query("/v1/events"), Ok((0, 50, String::new())));
    assert_eq!(get_query("/v1/events?"), Ok((0, 50, String::new())));
    assert_eq!(
        get_query("/v1/events?after=7&timeout=55&epoch=a%2Fb"),
        Ok((7, 55, "a/b".to_owned()))
    );
    assert_eq!(
        get_query("/v1/events?after=18446744073709551615&timeout=+0"),
        Err("timeout must be an integer".to_owned())
    );
    assert_eq!(
        get_query("/v1/events?after=18446744073709551615&timeout=%2B0"),
        Ok((u64::MAX, 0, String::new()))
    );
}

#[test]
fn bad_polls_are_told_why() {
    for target in ["/?after=-1", "/?after=", "/?after=18446744073709551616"] {
        assert_eq!(
            get_query(target).unwrap_err(),
            "after must be a non-negative integer"
        );
    }
    assert_eq!(
        get_query("/?timeout=soon").unwrap_err(),
        "timeout must be an integer"
    );
    assert_eq!(
        get_query("/?timeout=56").unwrap_err(),
        "timeout must be between 0 and 55"
    );
    assert_eq!(
        get_query("/?timeout=x&other=%").unwrap_err(),
        "invalid URL encoding"
    );
}

#[test]
fn later_parameters_win_and_empty_items_are_skipped() {
    let found = query("/p?a=1&&b&a=2=3&c%20d=%41+B&").unwrap();
    assert_eq!(found.get("a"), Some(&"2=3".to_owned()));
    assert_eq!(found.get("b"), Some(&String::new()));
    assert_eq!(found.get("c d"), Some(&"A B".to_owned()));
    assert_eq!(found.get(""), None);
    assert_eq!(found.len(), 3);
    assert_eq!(query("/p").unwrap().len(), 0);
    assert!(query("/p?%zz=1").is_err());
    assert!(query("/p?a=%f").is_err());
}

#[test]
fn percent_decoding_reads_escapes() {
    assert_eq!(percent_decode("a%20b+c%2b%C3%A9"), Ok("a b c+\u{e9}".to_owned()));
    assert_eq!(percent_decode(""), Ok(String::new()));
    for bad in ["%", "%4", "%4g", "%G4", "%ff", "%C3"] {
        assert_eq!(percent_decode(bad), Err("invalid URL encoding".to_owned()));
    }
}

#[test]
fn hexadecimal_digits_have_values() {
    assert_eq!(hex(b'0'), Ok(0));
    assert_eq!(hex(b'9'), Ok(9));
    assert_eq!(hex(b'a'), Ok(10));
    assert_eq!(hex(b'f'), Ok(15));
    assert_eq!(hex(b'A'), Ok(10));
    assert_eq!(hex(b'F'), Ok(15));
    for bad in [b'/', b':', b'@', b'G', b'`', b'g', 0, 255] {
        assert_eq!(hex(bad), Err("invalid URL encoding".to_owned()));
    }
}

#[test]
fn encoding_reads_back_and_is_safe() {
    assert_eq!(encode("aZ09-_.~"), "aZ09-_.~");
    assert_eq!(encode("a b/?&=+%\n"), "a%20b%2F%3F%26%3D%2B%25%0A");
    assert_eq!(encode("\u{e9}\u{1f600}"), "%C3%A9%F0%9F%98%80");
    let all: String = (0u32..0x250).filter_map(char::from_u32).collect();
    assert_eq!(percent_decode(&encode(&all)), Ok(all.clone()));
    assert!(encode(&all)
        .chars()
        .all(|c| c.is_ascii_alphanumeric() || "-_.~%".contains(c)));
}
