//! Command lines.

use crate::jules::DEFAULT_JULES_BIN;
use crate::query::MAX_TIMEOUT;
use crate::tailnet::{is_tailscale_ipv4, tailnet_source, tailscale, Address, TailnetSource};
use crate::text;
use vstd::prelude::*;

verus! {

/// Where the path of a file comes from.
#[derive(Debug, PartialEq, Eq)]
pub enum FileSource {
    /// The environment variable for that file.
    Environment,
    /// The command line.
    Argument(String),
}

/// The mathematical counterpart of [`FileSource`].
pub enum Source {
    Environment,
    Argument(Seq<char>),
}

impl View for FileSource {
    type V = Source;

    open spec fn view(&self) -> Source {
        match self {
            FileSource::Environment => Source::Environment,
            FileSource::Argument(path) => Source::Argument(path@),
        }
    }
}

/// The view of a file that may be missing.
pub open spec fn source_of(file: Option<FileSource>) -> Option<Source> {
    match file {
        Some(f) => Some(f@),
        None => None,
    }
}

/// The file that an environment variable gives, if it is set.
pub open spec fn environment_source(set: bool) -> Option<Source> {
    if set {
        Some(Source::Environment)
    } else {
        None
    }
}

/// An argument of the relay, with the IP address that it denotes if it
/// denotes one.
pub struct Argument {
    pub text: String,
    pub address: Option<Address>,
}

/// The mathematical counterpart of [`Argument`].
pub struct ArgumentValue {
    pub text: Seq<char>,
    pub address: Option<Address>,
}

impl View for Argument {
    type V = ArgumentValue;

    open spec fn view(&self) -> ArgumentValue {
        ArgumentValue { text: self.text@, address: self.address }
    }
}

/// The views of a list of arguments.
pub open spec fn argument_values(arguments: Seq<Argument>) -> Seq<ArgumentValue> {
    arguments.map_values(|a: Argument| a@)
}

/// The configuration of the relay.
pub struct ServerConfig {
    pub secret_file: FileSource,
    pub state_file: FileSource,
    pub port: u16,
    pub tailscale_ip: Option<Address>,
    pub max_events: usize,
    pub jules_bin: String,
}

/// The mathematical counterpart of [`ServerConfig`].
pub struct ServerSettings {
    pub secret_file: Source,
    pub state_file: Source,
    pub port: nat,
    pub tailscale_ip: Option<Address>,
    pub max_events: nat,
    pub jules_bin: Seq<char>,
}

impl View for ServerConfig {
    type V = ServerSettings;

    open spec fn view(&self) -> ServerSettings {
        ServerSettings {
            secret_file: self.secret_file@,
            state_file: self.state_file@,
            port: self.port as nat,
            tailscale_ip: self.tailscale_ip,
            max_events: self.max_events as nat,
            jules_bin: self.jules_bin@,
        }
    }
}

/// The options of the relay as far as they have been read.
struct ServerOptions {
    secret_file: Option<FileSource>,
    state_file: Option<FileSource>,
    port: u16,
    tailscale_ip: Option<Address>,
    max_events: usize,
    jules_bin: String,
}

/// The options of the relay as far as they have been read.
pub struct ServerChoices {
    pub secret_file: Option<Source>,
    pub state_file: Option<Source>,
    pub port: nat,
    pub tailscale_ip: Option<Address>,
    pub max_events: nat,
    pub jules_bin: Seq<char>,
}

impl View for ServerOptions {
    type V = ServerChoices;

    closed spec fn view(&self) -> ServerChoices {
        ServerChoices {
            secret_file: source_of(self.secret_file),
            state_file: source_of(self.state_file),
            port: self.port as nat,
            tailscale_ip: self.tailscale_ip,
            max_events: self.max_events as nat,
            jules_bin: self.jules_bin@,
        }
    }
}

/// The options of the relay before the command line is read.
pub open spec fn server_defaults(
    secret_set: bool,
    state_set: bool,
    jules_bin: Option<Seq<char>>,
) -> ServerChoices {
    ServerChoices {
        secret_file: environment_source(secret_set),
        state_file: environment_source(state_set),
        port: 8765,
        tailscale_ip: None,
        max_events: 1000,
        jules_bin: match jules_bin {
            Some(path) => path,
            None => DEFAULT_JULES_BIN@,
        },
    }
}

/// Whether an option of the relay has that name; all of them have a value.
pub open spec fn is_server_option(name: Seq<char>) -> bool {
    ||| name == "--secret-file"@
    ||| name == "--state-file"@
    ||| name == "--port"@
    ||| name == "--tailscale-ip"@
    ||| name == "--max-events"@
    ||| name == "--jules-bin"@
}

/// The options of the relay with one of them set.
pub open spec fn with_server_option(
    choices: ServerChoices,
    name: Seq<char>,
    value: ArgumentValue,
) -> Result<ServerChoices, Seq<char>> {
    if name == "--secret-file"@ {
        Ok(ServerChoices { secret_file: Some(Source::Argument(value.text)), ..choices })
    } else if name == "--state-file"@ {
        Ok(ServerChoices { state_file: Some(Source::Argument(value.text)), ..choices })
    } else if name == "--port"@ {
        match text::number(value.text, u16::MAX as nat) {
            Some(port) => Ok(ServerChoices { port, ..choices }),
            None => Err("--port must be a valid u16"@),
        }
    } else if name == "--tailscale-ip"@ {
        match value.address {
            None => Err("--tailscale-ip must be an IP address"@),
            Some(address) => if tailscale(address) {
                Ok(ServerChoices { tailscale_ip: Some(address), ..choices })
            } else {
                Err("--tailscale-ip must be a Tailscale IPv4 address"@)
            },
        }
    } else if name == "--max-events"@ {
        match text::number(value.text, usize::MAX as nat) {
            Some(max_events) => Ok(ServerChoices { max_events, ..choices }),
            None => Err("--max-events must be a positive integer"@),
        }
    } else {
        Ok(ServerChoices { jules_bin: value.text, ..choices })
    }
}

/// How the relay is started.
pub open spec fn server_usage() -> Seq<char> {
    "usage: relay --secret-file PATH --state-file PATH [--port 8765] [--max-events 1000]"@
}

/// What is answered where the value of an option is missing.
pub open spec fn missing_value(name: Seq<char>) -> Seq<char> {
    name + " requires a value"@
}

/// What is answered to an argument that is no option.
pub open spec fn unknown_argument(name: Seq<char>) -> Seq<char> {
    "unknown argument: "@ + name
}

/// The options after a command line is read from left to right, or the first
/// thing that is wrong with it.
pub open spec fn server_choices(
    arguments: Seq<ArgumentValue>,
    choices: ServerChoices,
) -> Result<ServerChoices, Seq<char>>
    decreases arguments.len(),
{
    if arguments.len() == 0 {
        Ok(choices)
    } else {
        let name = arguments[0].text;
        if is_server_option(name) {
            if arguments.len() < 2 {
                Err(missing_value(name))
            } else {
                match with_server_option(choices, name, arguments[1]) {
                    Ok(next) => server_choices(arguments.skip(2), next),
                    Err(message) => Err(message),
                }
            }
        } else if name == "--help"@ || name == "-h"@ {
            Err(server_usage())
        } else {
            Err(unknown_argument(name))
        }
    }
}

/// The configuration that the options make, or what they lack.
pub open spec fn server_settings(choices: ServerChoices) -> Result<ServerSettings, Seq<char>> {
    if choices.secret_file is None {
        Err("--secret-file or RELAY_SECRET_FILE is required"@)
    } else if choices.state_file is None {
        Err("--state-file or RELAY_STATE_FILE is required"@)
    } else if choices.max_events == 0 {
        Err("--max-events must be greater than zero"@)
    } else {
        Ok(
            ServerSettings {
                secret_file: choices.secret_file->0,
                state_file: choices.state_file->0,
                port: choices.port,
                tailscale_ip: choices.tailscale_ip,
                max_events: choices.max_events,
                jules_bin: choices.jules_bin,
            },
        )
    }
}

/// The configuration that a command line gives over the environment.
pub open spec fn server_configured(
    arguments: Seq<ArgumentValue>,
    defaults: ServerChoices,
) -> Result<ServerSettings, Seq<char>> {
    match server_choices(arguments, defaults) {
        Ok(choices) => server_settings(choices),
        Err(message) => Err(message),
    }
}

impl ServerOptions {
    /// Sets one option.
    fn set(self, name: &str, value: &Argument) -> (r: Result<ServerOptions, String>)
        requires
            is_server_option(name@),
        ensures
            match r {
                Ok(next) => with_server_option(self@, name@, value@) == Ok::<_, Seq<char>>(next@),
                Err(message) => with_server_option(self@, name@, value@) == Err::<
                    ServerChoices,
                    _,
                >(message@),
            },
    {
        if text::same(name, "--secret-file") {
            let file = FileSource::Argument(value.text.clone());
            return Ok(ServerOptions { secret_file: Some(file), ..self });
        }
        if text::same(name, "--state-file") {
            let file = FileSource::Argument(value.text.clone());
            return Ok(ServerOptions { state_file: Some(file), ..self });
        }
        let chars = text::chars_of(value.text.as_str());
        if text::same(name, "--port") {
            return match text::parse_number(chars.as_slice(), u16::MAX as u64) {
                Some(port) => Ok(ServerOptions { port: port as u16, ..self }),
                None => Err("--port must be a valid u16".to_owned()),
            };
        }
        if text::same(name, "--tailscale-ip") {
            return match value.address {
                None => Err("--tailscale-ip must be an IP address".to_owned()),
                Some(address) => if is_tailscale_ipv4(address) {
                    Ok(ServerOptions { tailscale_ip: Some(address), ..self })
                } else {
                    Err("--tailscale-ip must be a Tailscale IPv4 address".to_owned())
                },
            };
        }
        if text::same(name, "--max-events") {
            return match text::parse_number(chars.as_slice(), usize::MAX as u64) {
                Some(n) => Ok(ServerOptions { max_events: n as usize, ..self }),
                None => Err("--max-events must be a positive integer".to_owned()),
            };
        }
        Ok(ServerOptions { jules_bin: value.text.clone(), ..self })
    }
}

fn is_server_flag(name: &str) -> (r: bool)
    ensures
        r == is_server_option(name@),
{
    text::same(name, "--secret-file") || text::same(name, "--state-file") || text::same(
        name,
        "--port",
    ) || text::same(name, "--tailscale-ip") || text::same(name, "--max-events") || text::same(
        name,
        "--jules-bin",
    )
}

fn file_from_environment(set: bool) -> (r: Option<FileSource>)
    ensures
        source_of(r) == environment_source(set),
{
    if set {
        Some(FileSource::Environment)
    } else {
        None
    }
}

fn missing(name: &str) -> (r: String)
    ensures
        r@ == missing_value(name@),
{
    let mut message = name.to_owned();
    message.append(" requires a value");
    message
}

fn unknown(name: &str) -> (r: String)
    ensures
        r@ == unknown_argument(name@),
{
    let mut message = "unknown argument: ".to_owned();
    message.append(name);
    message
}

/// The text that an optional string holds.
pub open spec fn optional_text(s: Option<String>) -> Option<Seq<char>> {
    match s {
        Some(t) => Some(t@),
        None => None,
    }
}

/// Reads the command line of the relay. The flags tell whether the variables
/// `RELAY_SECRET_FILE` and `RELAY_STATE_FILE` are set; `jules_bin` is the
/// value of `JULES_BIN`.
pub fn server_config(
    arguments: &[Argument],
    secret_set: bool,
    state_set: bool,
    jules_bin: Option<String>,
) -> (r: Result<ServerConfig, String>)
    ensures
        match r {
            Ok(config) => server_configured(
                argument_values(arguments@),
                server_defaults(secret_set, state_set, optional_text(jules_bin)),
            ) == Ok::<_, Seq<char>>(config@),
            Err(message) => server_configured(
                argument_values(arguments@),
                server_defaults(secret_set, state_set, optional_text(jules_bin)),
            ) == Err::<ServerSettings, _>(message@),
        },
{
    let ghost all = argument_values(arguments@);
    let ghost defaults = server_defaults(secret_set, state_set, optional_text(jules_bin));
    let bin = match jules_bin {
        Some(path) => path,
        None => DEFAULT_JULES_BIN.to_owned(),
    };
    let mut options = ServerOptions {
        secret_file: file_from_environment(secret_set),
        state_file: file_from_environment(state_set),
        port: 8765,
        tailscale_ip: None,
        max_events: 1000,
        jules_bin: bin,
    };
    assert(all.skip(0) == all);
    let mut i: usize = 0;
    while i < arguments.len()
        invariant
            i <= arguments.len(),
            all == argument_values(arguments@),
            server_choices(all, defaults) == server_choices(all.skip(i as int), options@),
            defaults == server_defaults(secret_set, state_set, optional_text(jules_bin)),
        decreases arguments.len() - i,
    {
        let name = arguments[i].text.as_str();
        assert(all.skip(i as int)[0] == arguments@[i as int]@);
        if is_server_flag(name) {
            if arguments.len() - i < 2 {
                return Err(missing(name));
            }
            assert(all.skip(i as int)[1] == arguments@[i + 1]@);
            assert(all.skip(i as int).skip(2) == all.skip(i + 2));
            options = match options.set(name, &arguments[i + 1]) {
                Ok(next) => next,
                Err(message) => {
                    return Err(message);
                },
            };
            i = i + 2;
        } else if text::same(name, "--help") || text::same(name, "-h") {
            return Err(
                "usage: relay --secret-file PATH --state-file PATH [--port 8765] [--max-events 1000]".to_owned(),
            );
        } else {
            return Err(unknown(name));
        }
    }
    assert(server_choices(all, defaults) == Ok::<_, Seq<char>>(options@));
    let secret_file = match options.secret_file {
        Some(file) => file,
        None => {
            return Err("--secret-file or RELAY_SECRET_FILE is required".to_owned());
        },
    };
    let state_file = match options.state_file {
        Some(file) => file,
        None => {
            return Err("--state-file or RELAY_STATE_FILE is required".to_owned());
        },
    };
    if options.max_events == 0 {
        return Err("--max-events must be greater than zero".to_owned());
    }
    Ok(
        ServerConfig {
            secret_file,
            state_file,
            port: options.port,
            tailscale_ip: options.tailscale_ip,
            max_events: options.max_events,
            jules_bin: options.jules_bin,
        },
    )
}

/// The configuration of the poller.
pub struct PollerConfig {
    pub relay_url: String,
    pub secret_file: FileSource,
    pub state_file: String,
    pub proxy: Option<String>,
    pub timeout: u64,
    pub once: bool,
}

/// The mathematical counterpart of [`PollerConfig`].
pub struct PollerSettings {
    pub relay_url: Seq<char>,
    pub secret_file: Source,
    pub state_file: Seq<char>,
    pub proxy: Option<Seq<char>>,
    pub timeout: nat,
    pub once: bool,
}

impl View for PollerConfig {
    type V = PollerSettings;

    open spec fn view(&self) -> PollerSettings {
        PollerSettings {
            relay_url: self.relay_url@,
            secret_file: self.secret_file@,
            state_file: self.state_file@,
            proxy: optional_text(self.proxy),
            timeout: self.timeout as nat,
            once: self.once,
        }
    }
}

/// The options of the poller as far as they have been read.
struct PollerOptions {
    relay_url: Option<String>,
    secret_file: Option<FileSource>,
    state_file: Option<String>,
    proxy: Option<String>,
    timeout: u64,
    once: bool,
}

/// The options of the poller as far as they have been read.
pub struct PollerChoices {
    pub relay_url: Option<Seq<char>>,
    pub secret_file: Option<Source>,
    pub state_file: Option<Seq<char>>,
    pub proxy: Option<Seq<char>>,
    pub timeout: nat,
    pub once: bool,
}

impl View for PollerOptions {
    type V = PollerChoices;

    closed spec fn view(&self) -> PollerChoices {
        PollerChoices {
            relay_url: optional_text(self.relay_url),
            secret_file: source_of(self.secret_file),
            state_file: optional_text(self.state_file),
            proxy: optional_text(self.proxy),
            timeout: self.timeout as nat,
            once: self.once,
        }
    }
}

/// The options of the poller before the command line is read. A proxy that
/// the environment gives as an empty text is none.
pub open spec fn poller_defaults(secret_set: bool, proxy: Option<Seq<char>>) -> PollerChoices {
    PollerChoices {
        relay_url: None,
        secret_file: environment_source(secret_set),
        state_file: None,
        proxy: match proxy {
            Some(url) if url.len() > 0 => Some(url),
            _ => None,
        },
        timeout: 50,
        once: false,
    }
}

/// Whether an option of the poller with a value has that name.
pub open spec fn is_poller_option(name: Seq<char>) -> bool {
    ||| name == "--relay-url"@
    ||| name == "--secret-file"@
    ||| name == "--state-file"@
    ||| name == "--proxy"@
    ||| name == "--timeout"@
}

/// The options of the poller with one of them set.
pub open spec fn with_poller_option(
    choices: PollerChoices,
    name: Seq<char>,
    value: Seq<char>,
) -> Result<PollerChoices, Seq<char>> {
    if name == "--relay-url"@ {
        Ok(PollerChoices { relay_url: Some(value), ..choices })
    } else if name == "--secret-file"@ {
        Ok(PollerChoices { secret_file: Some(Source::Argument(value)), ..choices })
    } else if name == "--state-file"@ {
        Ok(PollerChoices { state_file: Some(value), ..choices })
    } else if name == "--proxy"@ {
        Ok(PollerChoices { proxy: Some(value), ..choices })
    } else {
        match text::number(value, u64::MAX as nat) {
            Some(timeout) => Ok(PollerChoices { timeout, ..choices }),
            None => Err("--timeout must be an integer"@),
        }
    }
}

/// How the poller is started.
pub open spec fn poller_usage() -> Seq<char> {
    "usage: poller --relay-url http://HOST:PORT --secret-file PATH --state-file PATH [--proxy URL] [--timeout 50] [--once]"@
}

/// The options after a command line is read from left to right, or the first
/// thing that is wrong with it.
pub open spec fn poller_choices(
    arguments: Seq<Seq<char>>,
    choices: PollerChoices,
) -> Result<PollerChoices, Seq<char>>
    decreases arguments.len(),
{
    if arguments.len() == 0 {
        Ok(choices)
    } else {
        let name = arguments[0];
        if is_poller_option(name) {
            if arguments.len() < 2 {
                Err(missing_value(name))
            } else {
                match with_poller_option(choices, name, arguments[1]) {
                    Ok(next) => poller_choices(arguments.skip(2), next),
                    Err(message) => Err(message),
                }
            }
        } else if name == "--once"@ {
            poller_choices(arguments.skip(1), PollerChoices { once: true, ..choices })
        } else if name == "--help"@ || name == "-h"@ {
            Err(poller_usage())
        } else {
            Err(unknown_argument(name))
        }
    }
}

/// The configuration that the options make, or what is wrong with them.
pub open spec fn poller_settings(choices: PollerChoices) -> Result<PollerSettings, Seq<char>> {
    if !(1 <= choices.timeout <= MAX_TIMEOUT) {
        Err("--timeout must be between 1 and 55"@)
    } else if choices.relay_url is None {
        Err("--relay-url is required"@)
    } else if choices.secret_file is None {
        Err("--secret-file or RELAY_SECRET_FILE is required"@)
    } else if choices.state_file is None {
        Err("--state-file is required"@)
    } else {
        Ok(
            PollerSettings {
                relay_url: choices.relay_url->0,
                secret_file: choices.secret_file->0,
                state_file: choices.state_file->0,
                proxy: choices.proxy,
                timeout: choices.timeout,
                once: choices.once,
            },
        )
    }
}

/// The configuration that a command line gives over the environment.
pub open spec fn poller_configured(
    arguments: Seq<Seq<char>>,
    defaults: PollerChoices,
) -> Result<PollerSettings, Seq<char>> {
    match poller_choices(arguments, defaults) {
        Ok(choices) => poller_settings(choices),
        Err(message) => Err(message),
    }
}

impl PollerOptions {
    /// Sets one option.
    fn set(self, name: &str, value: &str) -> (r: Result<PollerOptions, String>)
        requires
            is_poller_option(name@),
        ensures
            match r {
                Ok(next) => with_poller_option(self@, name@, value@) == Ok::<_, Seq<char>>(next@),
                Err(message) => with_poller_option(self@, name@, value@) == Err::<
                    PollerChoices,
                    _,
                >(message@),
            },
    {
        if text::same(name, "--relay-url") {
            return Ok(PollerOptions { relay_url: Some(value.to_owned()), ..self });
        }
        if text::same(name, "--secret-file") {
            let file = FileSource::Argument(value.to_owned());
            return Ok(PollerOptions { secret_file: Some(file), ..self });
        }
        if text::same(name, "--state-file") {
            return Ok(PollerOptions { state_file: Some(value.to_owned()), ..self });
        }
        if text::same(name, "--proxy") {
            return Ok(PollerOptions { proxy: Some(value.to_owned()), ..self });
        }
        let chars = text::chars_of(value);
        match text::parse_number(chars.as_slice(), u64::MAX) {
            Some(timeout) => Ok(PollerOptions { timeout, ..self }),
            None => Err("--timeout must be an integer".to_owned()),
        }
    }
}

fn is_poller_flag(name: &str) -> (r: bool)
    ensures
        r == is_poller_option(name@),
{
    text::same(name, "--relay-url") || text::same(name, "--secret-file") || text::same(
        name,
        "--state-file",
    ) || text::same(name, "--proxy") || text::same(name, "--timeout")
}

/// Reads the command line of the poller. The flag tells whether the variable
/// `RELAY_SECRET_FILE` is set; `proxy` is the value of `RELAY_PROXY`.
pub fn config(arguments: &[String], secret_set: bool, proxy: Option<String>) -> (r: Result<
    PollerConfig,
    String,
>)
    ensures
        match r {
            Ok(config) => poller_configured(
                text::texts(arguments@),
                poller_defaults(secret_set, optional_text(proxy)),
            ) == Ok::<_, Seq<char>>(config@),
            Err(message) => poller_configured(
                text::texts(arguments@),
                poller_defaults(secret_set, optional_text(proxy)),
            ) == Err::<PollerSettings, _>(message@),
        },
{
    let ghost all = text::texts(arguments@);
    let ghost defaults = poller_defaults(secret_set, optional_text(proxy));
    let usable = match proxy {
        Some(url) => if url.as_str().is_empty() {
            None
        } else {
            Some(url)
        },
        None => None,
    };
    let mut options = PollerOptions {
        relay_url: None,
        secret_file: file_from_environment(secret_set),
        state_file: None,
        proxy: usable,
        timeout: 50,
        once: false,
    };
    assert(options@ == defaults);
    assert(all.skip(0) == all);
    let mut i: usize = 0;
    while i < arguments.len()
        invariant
            i <= arguments.len(),
            all == text::texts(arguments@),
            poller_choices(all, defaults) == poller_choices(all.skip(i as int), options@),
            defaults == poller_defaults(secret_set, optional_text(proxy)),
        decreases arguments.len() - i,
    {
        let name = arguments[i].as_str();
        assert(all.skip(i as int)[0] == name@);
        if is_poller_flag(name) {
            if arguments.len() - i < 2 {
                return Err(missing(name));
            }
            assert(all.skip(i as int)[1] == arguments@[i + 1]@);
            assert(all.skip(i as int).skip(2) == all.skip(i + 2));
            options = match options.set(name, arguments[i + 1].as_str()) {
                Ok(next) => next,
                Err(message) => {
                    return Err(message);
                },
            };
            i = i + 2;
        } else if text::same(name, "--once") {
            assert(all.skip(i as int).skip(1) == all.skip(i + 1));
            options = PollerOptions { once: true, ..options };
            i = i + 1;
        } else if text::same(name, "--help") || text::same(name, "-h") {
            return Err(
                "usage: poller --relay-url http://HOST:PORT --secret-file PATH --state-file PATH [--proxy URL] [--timeout 50] [--once]".to_owned(),
            );
        } else {
            return Err(unknown(name));
        }
    }
    assert(poller_choices(all, defaults) == Ok::<_, Seq<char>>(options@));
    if options.timeout < 1 || options.timeout > MAX_TIMEOUT {
        return Err("--timeout must be between 1 and 55".to_owned());
    }
    let relay_url = match options.relay_url {
        Some(url) => url,
        None => {
            return Err("--relay-url is required".to_owned());
        },
    };
    let secret_file = match options.secret_file {
        Some(file) => file,
        None => {
            return Err("--secret-file or RELAY_SECRET_FILE is required".to_owned());
        },
    };
    let state_file = match options.state_file {
        Some(file) => file,
        None => {
            return Err("--state-file is required".to_owned());
        },
    };
    Ok(
        PollerConfig {
            relay_url,
            secret_file,
            state_file,
            proxy: options.proxy,
            timeout: options.timeout,
            once: options.once,
        },
    )
}

/// Where a command line of the relay is followed by more arguments, these are
/// read over what it sets: an option that is given again wins, and every
/// option wins over the environment.
pub proof fn later_server_arguments_win(
    first: Seq<ArgumentValue>,
    more: Seq<ArgumentValue>,
    choices: ServerChoices,
)
    requires
        server_choices(first, choices) is Ok,
    ensures
        server_choices(first + more, choices) == server_choices(
            more,
            server_choices(first, choices)->Ok_0,
        ),
    decreases first.len(),
{
    let all = first + more;
    if first.len() == 0 {
        assert(all == more);
    } else {
        assert(all[0] == first[0] && all[1] == first[1]);
        let next = with_server_option(choices, first[0].text, first[1])->Ok_0;
        assert(all.skip(2) == first.skip(2) + more);
        later_server_arguments_win(first.skip(2), more, next);
    }
}

/// Where a command line of the poller is followed by more arguments, these
/// are read over what it sets.
pub proof fn later_poller_arguments_win(
    first: Seq<Seq<char>>,
    more: Seq<Seq<char>>,
    choices: PollerChoices,
)
    requires
        poller_choices(first, choices) is Ok,
    ensures
        poller_choices(first + more, choices) == poller_choices(
            more,
            poller_choices(first, choices)->Ok_0,
        ),
    decreases first.len(),
{
    let all = first + more;
    if first.len() == 0 {
        assert(all == more);
    } else {
        assert(all[0] == first[0]);
        if is_poller_option(first[0]) {
            assert(all[1] == first[1]);
            let next = with_poller_option(choices, first[0], first[1])->Ok_0;
            assert(all.skip(2) == first.skip(2) + more);
            later_poller_arguments_win(first.skip(2), more, next);
        } else {
            assert(all.skip(1) == first.skip(1) + more);
            later_poller_arguments_win(
                first.skip(1),
                more,
                PollerChoices { once: true, ..choices },
            );
        }
    }
}

/// An address from the command line is one that Tailscale gives, and it is
/// used in place of discovery, which there is only without one. The relay
/// retains at least one event, and its port is a port.
pub proof fn relay_configuration_is_sound(
    arguments: Seq<ArgumentValue>,
    secret_set: bool,
    state_set: bool,
    jules_bin: Option<Seq<char>>,
)
    ensures
        server_configured(arguments, server_defaults(secret_set, state_set, jules_bin)) matches Ok(
            s,
        ) ==> {
            &&& match tailnet_source(s.tailscale_ip) {
                TailnetSource::Use(address) => s.tailscale_ip == Some(address) && tailscale(
                    address,
                ),
                TailnetSource::Discover => s.tailscale_ip is None,
            }
            &&& s.max_events > 0
            &&& s.port <= u16::MAX
        },
{
    lemma_server_choices(arguments, server_defaults(secret_set, state_set, jules_bin));
}

spec fn sound(choices: ServerChoices) -> bool {
    &&& choices.tailscale_ip matches Some(address) ==> tailscale(address)
    &&& choices.port <= u16::MAX
}

proof fn lemma_server_choices(arguments: Seq<ArgumentValue>, choices: ServerChoices)
    requires
        sound(choices),
    ensures
        server_choices(arguments, choices) matches Ok(c) ==> sound(c),
    decreases arguments.len(),
{
    if arguments.len() >= 2 && is_server_option(arguments[0].text) {
        if let Ok(next) = with_server_option(choices, arguments[0].text, arguments[1]) {
            lemma_server_choices(arguments.skip(2), next);
        }
    }
}

/// The time that the poller asks a relay to hold a poll open is at least one
/// second and no longer than a relay grants.
pub proof fn poller_timeout_is_granted(arguments: Seq<Seq<char>>, defaults: PollerChoices)
    ensures
        poller_configured(arguments, defaults) matches Ok(s) ==> 1 <= s.timeout <= MAX_TIMEOUT,
{
}

} // verus!
