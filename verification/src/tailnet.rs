//! The addresses that the relay binds to.

use crate::bytes;
use crate::text;
use vstd::prelude::*;

verus! {

/// An IP address.
#[derive(Debug, PartialEq, Eq, Clone, Copy)]
pub enum Address {
    V4([u8; 4]),
    V6([u16; 8]),
}

/// Whether an address is one that Tailscale gives to a host: an IPv4 address
/// in 100.64.0.0/10.
pub open spec fn tailscale(address: Address) -> bool {
    address matches Address::V4(octets) && octets[0] == 100 && 64 <= octets[1] <= 127
}

/// Tells whether an address is one that Tailscale gives to a host.
pub fn is_tailscale_ipv4(address: Address) -> (r: bool)
    ensures
        r == tailscale(address),
{
    match address {
        Address::V4(octets) => octets[0] == 100 && 64 <= octets[1] && octets[1] <= 127,
        Address::V6(_) => false,
    }
}

/// The first line of a text, without the line break that ends it.
pub open spec fn first_line(s: Seq<char>) -> Option<Seq<char>> {
    if s.len() == 0 {
        None
    } else {
        match text::first_cut(s, '\n') {
            Some((line, _)) => Some(
                if line.len() > 0 && line.last() == '\r' {
                    line.drop_last()
                } else {
                    line
                },
            ),
            None => Some(s),
        }
    }
}

/// What became of `tailscale ip -4`.
pub enum Resolution {
    /// It could not be run, with the reason.
    NotRun(String),
    /// It ran: whether it succeeded, and what it printed.
    Ran(bool, Vec<u8>),
}

/// The address in what `tailscale ip -4` printed, as text, or why there is
/// none.
pub open spec fn resolved(resolution: Resolution) -> Result<Seq<char>, Seq<char>> {
    match resolution {
        Resolution::NotRun(error) => Err(
            "could not run tailscale ip -4: "@ + error@
                + "; use --tailscale-ip only for explicit test/development overrides"@,
        ),
        Resolution::Ran(success, stdout) => if !success {
            Err("tailscale ip -4 failed; relay will not bind broadly"@)
        } else {
            match bytes::utf8_text(stdout@) {
                None => Err("tailscale ip -4 produced non-UTF-8 output"@),
                Some(s) => match first_line(s) {
                    Some(line) => Ok(line),
                    None => Err("tailscale ip -4 returned no address"@),
                },
            }
        },
    }
}

/// Reads what `tailscale ip -4` printed.
pub fn resolve_tailscale_ip(resolution: Resolution) -> (r: Result<String, String>)
    ensures
        match r {
            Ok(line) => resolved(resolution) == Ok::<_, Seq<char>>(line@),
            Err(message) => resolved(resolution) == Err::<Seq<char>, _>(message@),
        },
{
    let (success, stdout) = match resolution {
        Resolution::NotRun(error) => {
            let mut message = "could not run tailscale ip -4: ".to_owned();
            message.append(error.as_str());
            message.append("; use --tailscale-ip only for explicit test/development overrides");
            return Err(message);
        },
        Resolution::Ran(success, stdout) => (success, stdout),
    };
    if !success {
        return Err("tailscale ip -4 failed; relay will not bind broadly".to_owned());
    }
    let out = match bytes::to_text(stdout) {
        Some(s) => s,
        None => {
            return Err("tailscale ip -4 produced non-UTF-8 output".to_owned());
        },
    };
    let chars = text::chars_of(out.as_str());
    if chars.len() == 0 {
        return Err("tailscale ip -4 returned no address".to_owned());
    }
    match text::split_once(chars.as_slice(), '\n') {
        Some((line, _)) => {
            let n: usize = line.len();
            if n > 0 && line[n - 1] == '\r' {
                let cut = vstd::slice::slice_subrange(line, 0, n - 1);
                assert(cut@ == line@.drop_last());
                Ok(text::string_of(cut))
            } else {
                Ok(text::string_of(line))
            }
        },
        None => Ok(out),
    }
}

/// Accepts the address that `tailscale ip -4` printed, if it is one.
pub fn resolved_address(parsed: Option<Address>) -> (r: Result<Address, String>)
    ensures
        match r {
            Ok(address) => parsed == Some(address),
            Err(message) => parsed is None && message@
                == "tailscale ip -4 returned an invalid address"@,
        },
{
    match parsed {
        Some(address) => Ok(address),
        None => Err("tailscale ip -4 returned an invalid address".to_owned()),
    }
}

/// Where the address on the tailnet comes from.
#[derive(Debug, PartialEq, Eq, Clone, Copy)]
pub enum TailnetSource {
    /// This address was given.
    Use(Address),
    /// It is what `tailscale ip -4` prints.
    Discover,
}

/// Where the address on the tailnet comes from: an address that was given
/// takes the place of discovery.
pub open spec fn tailnet_source(configured: Option<Address>) -> TailnetSource {
    match configured {
        Some(address) => TailnetSource::Use(address),
        None => TailnetSource::Discover,
    }
}

/// Decides where the address on the tailnet comes from.
pub fn choose_tailnet(configured: Option<Address>) -> (r: TailnetSource)
    ensures
        r == tailnet_source(configured),
{
    match configured {
        Some(address) => TailnetSource::Use(address),
        None => TailnetSource::Discover,
    }
}

/// The addresses that the relay listens on: the loopback address and the one
/// on the tailnet, and no other.
pub fn listen_addresses(tailnet: Address) -> (r: (Address, Address))
    ensures
        r.0 matches Address::V4(o) && o@ == seq![127u8, 0, 0, 1],
        r.1 == tailnet,
{
    let loopback: [u8; 4] = [127, 0, 0, 1];
    assert(loopback@ =~= seq![127u8, 0, 0, 1]);
    (Address::V4(loopback), tailnet)
}

} // verus!
