use zigzag::tailnet::{
    choose_tailnet, is_tailscale_ipv4, listen_addresses, resolve_tailscale_ip, resolved_address,
    Address, Resolution, TailnetSource,
};

#[test]
fn explicit_bind_address_must_be_tailscale_ipv4() {
    assert!(is_tailscale_ipv4(Address::V4([100, 101, 237, 83])));
    assert!(!is_tailscale_ipv4(Address::V4([0, 0, 0, 0])));
    assert!(!is_tailscale_ipv4(Address::V4([127, 0, 0, 1])));
}

#[test]
fn tailscale_addresses_have_bounds() {
    assert!(is_tailscale_ipv4(Address::V4([100, 64, 0, 0])));
    assert!(is_tailscale_ipv4(Address::V4([100, 127, 255, 255])));
    assert!(!is_tailscale_ipv4(Address::V4([100, 63, 255, 255])));
    assert!(!is_tailscale_ipv4(Address::V4([100, 128, 0, 0])));
    assert!(!is_tailscale_ipv4(Address::V4([101, 64, 0, 0])));
    assert!(!is_tailscale_ipv4(Address::V6([
        0xfd7a, 0x115c, 0xa1e0, 0, 0, 0, 0, 1
    ])));
}

#[test]
fn the_first_line_holds_the_address() {
    for (printed, line) in [
        ("100.101.237.83\n", "100.101.237.83"),
        ("100.101.237.83\r\nfd7a::1\r\n", "100.101.237.83"),
        ("100.101.237.83", "100.101.237.83"),
        ("a\r", "a\r"),
        ("\n", ""),
    ] {
        assert_eq!(
            resolve_tailscale_ip(Resolution::Ran(true, printed.as_bytes().to_vec())),
            Ok(line.to_owned())
        );
        assert_eq!(printed.lines().next(), Some(line));
    }
}

#[test]
fn a_failed_resolution_is_told_why() {
    assert_eq!(
        resolve_tailscale_ip(Resolution::NotRun("no such file".to_owned())),
        Err("could not run tailscale ip -4: no such file; use --tailscale-ip only for explicit test/development overrides".to_owned())
    );
    assert_eq!(
        resolve_tailscale_ip(Resolution::Ran(false, b"100.101.237.83\n".to_vec())),
        Err("tailscale ip -4 failed; relay will not bind broadly".to_owned())
    );
    assert_eq!(
        resolve_tailscale_ip(Resolution::Ran(true, vec![0xff])),
        Err("tailscale ip -4 produced non-UTF-8 output".to_owned())
    );
    assert_eq!(
        resolve_tailscale_ip(Resolution::Ran(true, Vec::new())),
        Err("tailscale ip -4 returned no address".to_owned())
    );
    assert_eq!(
        resolved_address(None),
        Err("tailscale ip -4 returned an invalid address".to_owned())
    );
    let address = Address::V4([100, 101, 237, 83]);
    assert_eq!(resolved_address(Some(address)), Ok(address));
}

#[test]
fn the_relay_listens_on_two_addresses() {
    let tailnet = Address::V4([100, 101, 237, 83]);
    assert_eq!(
        listen_addresses(tailnet),
        (Address::V4([127, 0, 0, 1]), tailnet)
    );
}

#[test]
fn a_given_address_takes_the_place_of_discovery() {
    let given = Address::V4([100, 101, 237, 83]);
    assert_eq!(choose_tailnet(Some(given)), TailnetSource::Use(given));
    assert_eq!(choose_tailnet(None), TailnetSource::Discover);
}
