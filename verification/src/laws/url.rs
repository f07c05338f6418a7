//! What reading a URL promises.

use crate::laws::text::{
    a_prefix_is_taken_off, the_first_cut_parts_a_text, the_last_cut_parts_a_text,
};
use crate::scan::{free_of, lemma_first_cut, lemma_one_piece};
use crate::text::{first_cut, last_cut, number, trimmed, CharClass};
use crate::url::{url_parts, RelayUrl, UrlParts};
use vstd::prelude::*;

verus! {

/// Two cuts of a text at its last separator are the same.
proof fn lemma_last_cut(a: Seq<char>, c: char, b: Seq<char>)
    requires
        !b.contains(c),
    ensures
        last_cut(a + seq![c] + b, c) == Some((a, b)),
{
    let s = a + seq![c] + b;
    assert(s[a.len() as int] == c);
    the_last_cut_parts_a_text(s, c);
    let (x, y) = last_cut(s, c)->0;
    assert(x.len() + 1 + y.len() == a.len() + 1 + b.len());
    assert(s[x.len() as int] == c);
    if x.len() < a.len() {
        assert(y[a.len() - x.len() - 1] == s[a.len() as int]);
        assert(y.contains(c));
    }
    if a.len() < x.len() {
        assert(b[x.len() - a.len() - 1] == s[x.len() as int]);
        assert(b.contains(c));
    }
    assert(x =~= s.take(a.len() as int));
    assert(a =~= s.take(a.len() as int));
    assert(y =~= s.skip(a.len() as int + 1));
    assert(b =~= s.skip(a.len() as int + 1));
}

/// A URL that names a host and a port is read as these, and the path below
/// which the endpoints lie is the root.
pub proof fn a_host_and_a_port_are_read(host: Seq<char>, port: Seq<char>)
    requires
        host.len() > 0,
        !host.contains('/'),
        !host.contains('@'),
        !port.contains('/'),
        !port.contains('@'),
        !port.contains(':'),
    ensures
        url_parts("http://"@ + (host + seq![':'] + port)) == (match number(port, 65535) {
            Some(p) => Ok(
                UrlParts {
                    authority: host + seq![':'] + port,
                    host,
                    port: p,
                    base_path: seq!['/'],
                },
            ),
            None => Err("invalid relay URL port"@),
        }),
        !host.contains(':') ==> url_parts("http://"@ + host) == Ok::<_, Seq<char>>(
            UrlParts { authority: host, host, port: 80, base_path: seq!['/'] },
        ),
{
    reveal_strlit("/");
    assert("/"@ =~= seq!['/']);
    let authority = host + seq![':'] + port;
    assert(!authority.contains('/') && !authority.contains('@')) by {
        assert forall|i: int| 0 <= i < authority.len() implies #[trigger] authority[i] != '/'
            && authority[i] != '@' by {
            if i < host.len() {
                assert(host.contains(host[i]));
                assert(authority[i] == host[i]);
            } else if i > host.len() {
                assert(port.contains(port[i - host.len() - 1]));
                assert(authority[i] == port[i - host.len() - 1]);
            }
        }
    }
    a_prefix_is_taken_off(seq![], "http://"@, authority);
    a_prefix_is_taken_off(seq![], "http://"@, host);
    the_first_cut_parts_a_text(authority, '/');
    if let Some((a, _)) = first_cut(authority, '/') {
        assert(authority[a.len() as int] == '/');
    }
    the_first_cut_parts_a_text(host, '/');
    if let Some((a, _)) = first_cut(host, '/') {
        assert(host[a.len() as int] == '/');
    }
    lemma_last_cut(host, ':', port);
    the_last_cut_parts_a_text(host, ':');
    if let Some((a, _)) = last_cut(host, ':') {
        assert(host[a.len() as int] == ':');
    }
}

/// A path behind the authority changes the path below which the endpoints
/// lie, and nothing else: it is the given path between two slashes, without
/// slashes of its own at the ends.
pub proof fn a_path_is_put_between_slashes(authority: Seq<char>, path: Seq<char>)
    requires
        !authority.contains('/'),
    ensures
        ({
            let bare = url_parts("http://"@ + authority);
            let with = url_parts("http://"@ + (authority + seq!['/'] + path));
            match bare {
                Err(message) => with == Err::<UrlParts, _>(message),
                Ok(parts) => with == Ok::<_, Seq<char>>(
                    UrlParts {
                        base_path: if path.len() == 0 {
                            seq!['/']
                        } else {
                            seq!['/'] + trimmed(path, CharClass::Only('/')) + seq!['/']
                        },
                        ..parts
                    },
                ),
            }
        }),
{
    reveal_strlit("/");
    assert("/"@ =~= seq!['/']);
    a_prefix_is_taken_off(seq![], "http://"@, authority);
    a_prefix_is_taken_off(seq![], "http://"@, authority + seq!['/'] + path);
    assert(free_of(authority, '/')) by {
        assert forall|i: int| 0 <= i < authority.len() implies #[trigger] authority[i] != '/' by {
            assert(authority.contains(authority[i]));
        }
    }
    lemma_first_cut(authority, '/', path);
    lemma_one_piece(authority, '/');
}

/// What does not begin with the scheme, has no authority or one with a user,
/// or has no host, is refused.
pub proof fn other_urls_are_refused(
    input: Seq<char>,
    authority: Seq<char>,
    port: Seq<char>,
)
    requires
        !authority.contains('/'),
        !port.contains('/'),
        !port.contains('@'),
        !port.contains(':'),
    ensures
        !"http://"@.is_prefix_of(input) ==> url_parts(input) == Err::<UrlParts, _>(
            "relay URL must use http:// (the tailnet is the transport boundary)"@,
        ),
        authority.len() == 0 || authority.contains('@') ==> url_parts("http://"@ + authority)
            == Err::<UrlParts, _>("invalid relay URL authority"@),
        url_parts("http://"@ + (seq![':'] + port)) == Err::<UrlParts, _>(
            if number(port, 65535) is Some {
                "invalid relay URL host"@
            } else {
                "invalid relay URL port"@
            },
        ),
{
    a_prefix_is_taken_off(input, "http://"@, authority);
    lemma_one_piece_of(authority);
    let none = Seq::<char>::empty();
    let colon = seq![':'] + port;
    a_prefix_is_taken_off(input, "http://"@, colon);
    assert(none + seq![':'] + port =~= colon);
    lemma_last_cut(none, ':', port);
    assert(!colon.contains('/') && !colon.contains('@')) by {
        assert forall|i: int| 0 <= i < colon.len() implies #[trigger] colon[i] != '/' && colon[i]
            != '@' by {
            if i > 0 {
                assert(port.contains(port[i - 1]));
                assert(colon[i] == port[i - 1]);
            }
        }
    }
    lemma_one_piece_of(colon);
}

proof fn lemma_one_piece_of(s: Seq<char>)
    requires
        !s.contains('/'),
    ensures
        first_cut(s, '/') is None,
{
    the_first_cut_parts_a_text(s, '/');
    if let Some((a, _)) = first_cut(s, '/') {
        assert(s[a.len() as int] == '/');
    }
}

/// A URL shows its parts.
pub proof fn a_url_shows_its_parts(url: RelayUrl)
    ensures
        url@.authority == url.authority@,
        url@.host == url.host@,
        url@.port == url.port,
        url@.base_path == url.base_path@,
{
}

} // verus!
