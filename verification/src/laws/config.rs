//! What reading a command line promises.

use crate::config::{
    argument_values, optional_text, poller_choices, poller_configured, poller_defaults,
    poller_settings, server_choices, server_configured, server_defaults, server_settings,
    source_of, Argument, ArgumentValue, FileSource, PollerChoices, PollerConfig, PollerSettings,
    ServerChoices, ServerConfig, ServerSettings, Source,
};
use crate::tailnet::Address;
use crate::text::number;
use vstd::prelude::*;

verus! {

/// The characters by which the options differ.
proof fn lemma_names()
    ensures
        "--secret-file"@.len() == 13,
        "--state-file"@.len() == 12,
        "--port"@.len() == 6,
        "--tailscale-ip"@.len() == 14,
        "--max-events"@.len() == 12,
        "--jules-bin"@.len() == 11,
        "--relay-url"@.len() == 11,
        "--proxy"@.len() == 7,
        "--timeout"@.len() == 9,
        "--once"@.len() == 6,
        "--help"@.len() == 6,
        "-h"@.len() == 2,
        "--state-file"@[2] == 's',
        "--max-events"@[2] == 'm',
        "--port"@[2] == 'p',
        "--once"@[2] == 'o',
        "--help"@[2] == 'h',
        "--jules-bin"@[2] == 'j',
        "--relay-url"@[2] == 'r',
{
    reveal_strlit("--secret-file");
    reveal_strlit("--state-file");
    reveal_strlit("--port");
    reveal_strlit("--tailscale-ip");
    reveal_strlit("--max-events");
    reveal_strlit("--jules-bin");
    reveal_strlit("--relay-url");
    reveal_strlit("--proxy");
    reveal_strlit("--timeout");
    reveal_strlit("--once");
    reveal_strlit("--help");
    reveal_strlit("-h");
}

/// Each option of the relay sets one thing, to the value behind it, and leaves
/// all else; what follows is read over that. A value that is not what the
/// option asks for ends the reading.
pub proof fn a_relay_option_sets_one_thing(
    name: ArgumentValue,
    value: ArgumentValue,
    more: Seq<ArgumentValue>,
    c: ServerChoices,
)
    ensures
        ({
            let read = server_choices(seq![name, value] + more, c);
            &&& name.text == "--secret-file"@ ==> read == server_choices(
                more,
                ServerChoices { secret_file: Some(Source::Argument(value.text)), ..c },
            )
            &&& name.text == "--state-file"@ ==> read == server_choices(
                more,
                ServerChoices { state_file: Some(Source::Argument(value.text)), ..c },
            )
            &&& name.text == "--jules-bin"@ ==> read == server_choices(
                more,
                ServerChoices { jules_bin: value.text, ..c },
            )
            &&& name.text == "--port"@ ==> read == (match number(value.text, 65535) {
                Some(port) => server_choices(more, ServerChoices { port, ..c }),
                None => Err("--port must be a valid u16"@),
            })
            &&& name.text == "--max-events"@ ==> read == (match number(
                value.text,
                usize::MAX as nat,
            ) {
                Some(max_events) => server_choices(more, ServerChoices { max_events, ..c }),
                None => Err("--max-events must be a positive integer"@),
            })
            &&& name.text == "--tailscale-ip"@ ==> read == (match value.address {
                Some(Address::V4(o)) => if o[0] == 100 && 64 <= o[1] <= 127 {
                    server_choices(
                        more,
                        ServerChoices { tailscale_ip: Some(Address::V4(o)), ..c },
                    )
                } else {
                    Err("--tailscale-ip must be a Tailscale IPv4 address"@)
                },
                Some(Address::V6(_)) => Err("--tailscale-ip must be a Tailscale IPv4 address"@),
                None => Err("--tailscale-ip must be an IP address"@),
            })
        }),
{
    lemma_names();
    let all = seq![name, value] + more;
    assert(all[0] == name && all[1] == value);
    assert(all.skip(2) =~= more);
}

/// Whether one of the relay's options has that name.
pub open spec fn relay_option(name: Seq<char>) -> bool {
    name == "--secret-file"@ || name == "--state-file"@ || name == "--jules-bin"@ || name
        == "--port"@ || name == "--max-events"@ || name == "--tailscale-ip"@
}

/// Any other argument ends the reading, and so does an option without its
/// value.
pub proof fn other_relay_arguments_are_refused(
    name: ArgumentValue,
    more: Seq<ArgumentValue>,
    c: ServerChoices,
)
    ensures
        server_choices(Seq::<ArgumentValue>::empty(), c) == Ok::<_, Seq<char>>(c),
        relay_option(name.text) ==> server_choices(seq![name], c) == Err::<ServerChoices, _>(
            name.text + " requires a value"@,
        ),
        name.text == "--help"@ || name.text == "-h"@ ==> server_choices(seq![name] + more, c)
            == Err::<ServerChoices, _>(
            "usage: relay --secret-file PATH --state-file PATH [--port 8765] [--max-events 1000]"@,
        ),
        !relay_option(name.text) && name.text != "--help"@ && name.text != "-h"@
            ==> server_choices(seq![name] + more, c) == Err::<ServerChoices, _>(
            "unknown argument: "@ + name.text,
        ),
{
    lemma_names();
    assert((seq![name] + more)[0] == name);
    assert(seq![name][0] == name);
}

/// Before the command line the relay has its files from the environment, its
/// port is 8765 and it retains 1000 events; a binary in the environment comes
/// before the usual one.
pub proof fn the_relay_begins_with_its_defaults(secret: bool, state: bool, bin: Seq<char>)
    ensures
        ({
            let c = server_defaults(secret, state, Some(bin));
            &&& secret ==> c.secret_file == Some(Source::Environment)
            &&& !secret ==> c.secret_file is None
            &&& state ==> c.state_file == Some(Source::Environment)
            &&& !state ==> c.state_file is None
            &&& c.port == 8765
            &&& c.tailscale_ip is None
            &&& c.max_events == 1000
            &&& c.jules_bin == bin
            &&& server_defaults(secret, state, None) == (ServerChoices {
                jules_bin: "/Users/shukant/.npm-global/bin/jules"@,
                ..c
            })
        }),
{
}

/// The relay runs with what was chosen, as long as there are both files and
/// room for an event.
pub proof fn the_relay_runs_with_what_was_chosen(
    arguments: Seq<ArgumentValue>,
    defaults: ServerChoices,
    c: ServerChoices,
    message: Seq<char>,
)
    ensures
        c.secret_file is None ==> server_settings(c) == Err::<ServerSettings, _>(
            "--secret-file or RELAY_SECRET_FILE is required"@,
        ),
        c.secret_file is Some && c.state_file is None ==> server_settings(c) == Err::<
            ServerSettings,
            _,
        >("--state-file or RELAY_STATE_FILE is required"@),
        c.secret_file is Some && c.state_file is Some && c.max_events == 0 ==> server_settings(c)
            == Err::<ServerSettings, _>("--max-events must be greater than zero"@),
        c.secret_file is Some && c.state_file is Some && c.max_events > 0 ==> (server_settings(
            c,
        ) matches Ok(s) && c.secret_file == Some(s.secret_file) && c.state_file == Some(
            s.state_file,
        ) && s.port == c.port && s.tailscale_ip == c.tailscale_ip && s.max_events == c.max_events
            && s.jules_bin == c.jules_bin),
        server_choices(arguments, defaults) == Ok::<_, Seq<char>>(c) ==> server_configured(
            arguments,
            defaults,
        ) == server_settings(c),
        server_choices(arguments, defaults) == Err::<ServerChoices, _>(message)
            ==> server_configured(arguments, defaults) == Err::<ServerSettings, _>(message),
{
}

/// Each option of the poller sets one thing, to the value behind it, and
/// leaves all else; what follows is read over that.
pub proof fn a_poller_option_sets_one_thing(
    name: Seq<char>,
    value: Seq<char>,
    more: Seq<Seq<char>>,
    c: PollerChoices,
)
    ensures
        ({
            let read = poller_choices(seq![name, value] + more, c);
            &&& name == "--relay-url"@ ==> read == poller_choices(
                more,
                PollerChoices { relay_url: Some(value), ..c },
            )
            &&& name == "--secret-file"@ ==> read == poller_choices(
                more,
                PollerChoices { secret_file: Some(Source::Argument(value)), ..c },
            )
            &&& name == "--state-file"@ ==> read == poller_choices(
                more,
                PollerChoices { state_file: Some(value), ..c },
            )
            &&& name == "--proxy"@ ==> read == poller_choices(
                more,
                PollerChoices { proxy: Some(value), ..c },
            )
            &&& name == "--timeout"@ ==> read == (match number(value, 0xffff_ffff_ffff_ffff) {
                Some(timeout) => poller_choices(more, PollerChoices { timeout, ..c }),
                None => Err("--timeout must be an integer"@),
            })
        }),
        name == "--once"@ ==> poller_choices(seq![name] + more, c) == poller_choices(
            more,
            PollerChoices { once: true, ..c },
        ),
{
    lemma_names();
    let all = seq![name, value] + more;
    assert(all[0] == name && all[1] == value);
    assert(all.skip(2) =~= more);
    let one = seq![name] + more;
    assert(one[0] == name);
    assert(one.skip(1) =~= more);
}

/// Whether one of the poller's options with a value has that name.
pub open spec fn poller_option(name: Seq<char>) -> bool {
    name == "--relay-url"@ || name == "--secret-file"@ || name == "--state-file"@ || name
        == "--proxy"@ || name == "--timeout"@
}

/// Any other argument ends the reading, and so does an option without its
/// value.
pub proof fn other_poller_arguments_are_refused(
    name: Seq<char>,
    more: Seq<Seq<char>>,
    c: PollerChoices,
)
    ensures
        poller_choices(Seq::<Seq<char>>::empty(), c) == Ok::<_, Seq<char>>(c),
        poller_option(name) ==> poller_choices(seq![name], c) == Err::<PollerChoices, _>(
            name + " requires a value"@,
        ),
        name == "--help"@ || name == "-h"@ ==> poller_choices(seq![name] + more, c) == Err::<
            PollerChoices,
            _,
        >(
            "usage: poller --relay-url http://HOST:PORT --secret-file PATH --state-file PATH [--proxy URL] [--timeout 50] [--once]"@,
        ),
        !poller_option(name) && name != "--once"@ && name != "--help"@ && name != "-h"@
            ==> poller_choices(seq![name] + more, c) == Err::<PollerChoices, _>(
            "unknown argument: "@ + name,
        ),
{
    lemma_names();
    assert((seq![name] + more)[0] == name);
    assert(seq![name][0] == name);
}

/// Before the command line the poller waits fifty seconds, goes on for ever
/// and has its secret and its proxy from the environment; an empty proxy is
/// none.
pub proof fn the_poller_begins_with_its_defaults(secret: bool, proxy: Seq<char>)
    ensures
        ({
            let c = poller_defaults(secret, Some(proxy));
            &&& c.relay_url is None
            &&& secret ==> c.secret_file == Some(Source::Environment)
            &&& !secret ==> c.secret_file is None
            &&& c.state_file is None
            &&& proxy.len() > 0 ==> c.proxy == Some(proxy)
            &&& proxy.len() == 0 ==> c.proxy is None
            &&& c.timeout == 50
            &&& !c.once
            &&& poller_defaults(secret, None) == (PollerChoices { proxy: None, ..c })
        }),
{
}

/// The poller runs with what was chosen, as long as it waits between one and
/// fifty-five seconds and has a relay and both files.
pub proof fn the_poller_runs_with_what_was_chosen(
    arguments: Seq<Seq<char>>,
    defaults: PollerChoices,
    c: PollerChoices,
    message: Seq<char>,
)
    ensures
        ({
            let fits = 1 <= c.timeout <= 55;
            &&& !fits ==> poller_settings(c) == Err::<PollerSettings, _>(
                "--timeout must be between 1 and 55"@,
            )
            &&& fits && c.relay_url is None ==> poller_settings(c) == Err::<PollerSettings, _>(
                "--relay-url is required"@,
            )
            &&& fits && c.relay_url is Some && c.secret_file is None ==> poller_settings(c)
                == Err::<PollerSettings, _>("--secret-file or RELAY_SECRET_FILE is required"@)
            &&& fits && c.relay_url is Some && c.secret_file is Some && c.state_file is None
                ==> poller_settings(c) == Err::<PollerSettings, _>("--state-file is required"@)
            &&& fits && c.relay_url is Some && c.secret_file is Some && c.state_file is Some ==> (
            poller_settings(c) matches Ok(s) && c.relay_url == Some(s.relay_url) && c.secret_file
                == Some(s.secret_file) && c.state_file == Some(s.state_file) && s.proxy == c.proxy
                && s.timeout == c.timeout && s.once == c.once)
        }),
        poller_choices(arguments, defaults) == Ok::<_, Seq<char>>(c) ==> poller_configured(
            arguments,
            defaults,
        ) == poller_settings(c),
        poller_choices(arguments, defaults) == Err::<PollerChoices, _>(message)
            ==> poller_configured(arguments, defaults) == Err::<PollerSettings, _>(message),
{
}

/// Arguments and configurations show what they hold.
pub proof fn configurations_show_what_they_hold(
    file: FileSource,
    argument: Argument,
    arguments: Seq<Argument>,
    server: ServerConfig,
    poller: PollerConfig,
    text: String,
)
    ensures
        match file {
            FileSource::Environment => file@ == Source::Environment,
            FileSource::Argument(path) => file@ == Source::Argument(path@),
        },
        source_of(Some(file)) == Some(file@),
        source_of(None) is None,
        optional_text(Some(text)) == Some(text@),
        optional_text(None) is None,
        argument@ == (ArgumentValue { text: argument.text@, address: argument.address }),
        argument_values(arguments).len() == arguments.len(),
        forall|i: int|
            0 <= i < arguments.len() ==> #[trigger] argument_values(arguments)[i] == arguments[i]@,
        server@ == (ServerSettings {
            secret_file: server.secret_file@,
            state_file: server.state_file@,
            port: server.port as nat,
            tailscale_ip: server.tailscale_ip,
            max_events: server.max_events as nat,
            jules_bin: server.jules_bin@,
        }),
        poller@ == (PollerSettings {
            relay_url: poller.relay_url@,
            secret_file: poller.secret_file@,
            state_file: poller.state_file@,
            proxy: match poller.proxy {
                Some(url) => Some(url@),
                None => None,
            },
            timeout: poller.timeout as nat,
            once: poller.once,
        }),
{
}

} // verus!
