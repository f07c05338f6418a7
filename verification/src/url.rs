//! The address of a relay or of a proxy.

use crate::text;
use crate::text::CharClass;
use vstd::prelude::*;

verus! {

/// The parts of an `http://` URL.
pub struct RelayUrl {
    pub authority: String,
    pub host: String,
    pub port: u16,
    pub base_path: String,
}

/// The mathematical counterpart of [`RelayUrl`].
pub struct UrlParts {
    pub authority: Seq<char>,
    pub host: Seq<char>,
    pub port: nat,
    pub base_path: Seq<char>,
}

impl View for RelayUrl {
    type V = UrlParts;

    open spec fn view(&self) -> UrlParts {
        UrlParts {
            authority: self.authority@,
            host: self.host@,
            port: self.port as nat,
            base_path: self.base_path@,
        }
    }
}

/// The host and the port that an authority names; the port is 80 unless one
/// is given behind the last colon.
pub open spec fn host_and_port(authority: Seq<char>) -> (Seq<char>, Option<nat>) {
    match text::last_cut(authority, ':') {
        Some((host, port)) => (host, text::number(port, u16::MAX as nat)),
        None => (authority, Some(80)),
    }
}

/// The path below which the endpoints lie: it begins and ends with a slash.
pub open spec fn base_path_of(path: Seq<char>) -> Seq<char> {
    if path.len() == 0 {
        "/"@
    } else {
        "/"@ + text::trimmed(path, CharClass::Only('/')) + "/"@
    }
}

/// The parts of a URL, or why it is refused.
pub open spec fn url_parts(input: Seq<char>) -> Result<UrlParts, Seq<char>> {
    match text::after_prefix(input, "http://"@) {
        None => Err("relay URL must use http:// (the tailnet is the transport boundary)"@),
        Some(rest) => {
            let (authority, path) = match text::first_cut(rest, '/') {
                Some(cut) => cut,
                None => (rest, seq![]),
            };
            let (host, port) = host_and_port(authority);
            if authority.len() == 0 || authority.contains('@') {
                Err("invalid relay URL authority"@)
            } else if port is None {
                Err("invalid relay URL port"@)
            } else if host.len() == 0 {
                Err("invalid relay URL host"@)
            } else {
                Ok(UrlParts { authority, host, port: port->0, base_path: base_path_of(path) })
            }
        },
    }
}

/// Reads a URL.
pub fn parse_url(input: &str) -> (r: Result<RelayUrl, String>)
    ensures
        match r {
            Ok(url) => url_parts(input@) == Ok::<_, Seq<char>>(url@),
            Err(message) => url_parts(input@) == Err::<UrlParts, _>(message@),
        },
{
    let chars = text::chars_of(input);
    let rest = match text::strip_prefix(chars.as_slice(), "http://") {
        Some(rest) => rest,
        None => {
            return Err(
                "relay URL must use http:// (the tailnet is the transport boundary)".to_owned(),
            );
        },
    };
    let empty: Vec<char> = Vec::new();
    let (authority, path) = match text::split_once(rest, '/') {
        Some((a, p)) => (a, p),
        None => (rest, empty.as_slice()),
    };
    proof {
        text::lemma_prefix_len(authority@, CharClass::Except('@'));
    }
    let n: usize = text::scan_prefix(authority, CharClass::Except('@'));
    if authority.len() == 0 || n < authority.len() {
        assert(n < authority.len() ==> authority@[n as int] == '@');
        return Err("invalid relay URL authority".to_owned());
    }
    assert(!authority@.contains('@'));
    let (host, port) = match text::rsplit_once(authority, ':') {
        Some((h, p)) => match text::parse_number(p, u16::MAX as u64) {
            Some(port) => (h, port as u16),
            None => {
                return Err("invalid relay URL port".to_owned());
            },
        },
        None => (authority, 80),
    };
    if host.len() == 0 {
        return Err("invalid relay URL host".to_owned());
    }
    let mut base_path = "/".to_owned();
    if path.len() > 0 {
        let trimmed = text::string_of(text::trim(path, CharClass::Only('/')));
        base_path.append(trimmed.as_str());
        base_path.append("/");
    }
    let url = RelayUrl {
        authority: text::string_of(authority),
        host: text::string_of(host),
        port,
        base_path,
    };
    assert(url_parts(input@) == Ok::<_, Seq<char>>(url@));
    Ok(url)
}

} // verus!
