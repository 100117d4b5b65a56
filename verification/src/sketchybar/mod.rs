//! `SketchyBar` message framing, write cache and endpoint lifecycle.

pub mod cache;
pub mod ipc;
pub mod send;

use vstd::prelude::*;
use vstd::utf8::encode_utf8;

use crate::aerospace::io_error_text;
use crate::text::{concat2, concat3, decimal_text, has_control, has_control_str, i32_text, string_views};

use self::cache::{debug_quoted, debug_str};

verus! {

/// Declares `std::io::Error` for the variants that carry one.
#[verifier::external_type_specification]
#[verifier::external_body]
pub struct ExIoError(std::io::Error);

/// Error returned by the `SketchyBar` extension.
#[derive(Debug)]
pub enum SketchybarError {
    /// `SketchyBar` returned an error response.
    CommandFailed(String),
    /// Low-level Mach IPC failed.
    Mach {
        /// Operation name.
        operation: &'static str,
        /// Native return code.
        code: i32,
    },
    /// This transport is only available on macOS.
    UnsupportedPlatform {
        /// Transport name.
        transport: &'static str,
    },
    /// Cache key validation failed.
    InvalidCacheKey(String),
    /// Filesystem operation failed.
    Io {
        /// Path involved in the failure.
        path: String,
        /// Underlying I/O error.
        source: std::io::Error,
    },
}


impl SketchybarError {
    /// The text this error is reported with (an I/O error's own text is not
    /// modelled).
    pub fn message(&self) -> (r: String)
        ensures
            match self {
                SketchybarError::CommandFailed(text) => r@ == "sketchybar command failed: "@
                    + text@,
                SketchybarError::Mach { operation, code } => r@ == "mach ipc failed: "@
                    + operation@ + " returned "@ + decimal_text(*code as int),
                SketchybarError::UnsupportedPlatform { transport } => r@ == transport@
                    + " transport is only available on macOS"@,
                SketchybarError::InvalidCacheKey(text) => r@ == "invalid cache key: "@ + text@,
                SketchybarError::Io { path, .. } => r@.len() >= ("io error at "@ + path@
                    + ": "@).len() && r@.take(("io error at "@ + path@ + ": "@).len() as int)
                    == "io error at "@ + path@ + ": "@,
            },
    {
        match self {
            SketchybarError::CommandFailed(text) => concat2(
                "sketchybar command failed: ",
                text.as_str(),
            ),
            SketchybarError::Mach { operation, code } => {
                let mut r = concat3("mach ipc failed: ", operation, " returned ");
                let digits = i32_text(*code);
                r.append(digits.as_str());
                r
            },
            SketchybarError::UnsupportedPlatform { transport } => concat2(
                transport,
                " transport is only available on macOS",
            ),
            SketchybarError::InvalidCacheKey(text) => concat2("invalid cache key: ", text.as_str()),
            SketchybarError::Io { path, source } => {
                let mut r = concat3("io error at ", path.as_str(), ": ");
                let ghost prefix = r@;
                let detail = io_error_text(source);
                r.append(detail.as_str());
                proof {
                    assert(r@.take(prefix.len() as int) =~= prefix);
                }
                r
            },
        }
    }
}

pub const DEFAULT_SKETCHYBAR_NAME: &'static str = "sketchybar";

/// The NUL-terminated fields of a message: each argument's UTF-8 bytes
/// followed by a NUL byte.
pub open spec fn message_fields(args: Seq<Seq<char>>) -> Seq<u8>
    decreases args.len(),
{
    if args.len() == 0 {
        Seq::empty()
    } else {
        message_fields(args.drop_last()) + encode_utf8(args.last()) + seq![0u8]
    }
}

/// The wire format the `sketchybar` CLI sends: the NUL-terminated
/// arguments and one more NUL byte.
pub open spec fn message_bytes(args: Seq<Seq<char>>) -> Seq<u8> {
    message_fields(args).push(0u8)
}

/// `SketchyBar` Mach message payload.
#[derive(Debug, Clone)]
pub struct SketchybarMessage {
    bytes: Vec<u8>,
}

impl View for SketchybarMessage {
    type V = Seq<u8>;

    closed spec fn view(&self) -> Seq<u8> {
        self.bytes@
    }
}

impl SketchybarMessage {
    /// Build the same NUL-separated payload that the `sketchybar` CLI sends.
    pub fn from_args(args: &[String]) -> (m: Self)
        ensures
            m@ == message_bytes(string_views(args@)),
    {
        let ghost all = string_views(args@);
        let n = args.len();
        let mut bytes: Vec<u8> = Vec::new();
        let mut i: usize = 0;
        proof {
            assert(all.take(0) =~= Seq::<Seq<char>>::empty());
        }
        while i < n
            invariant
                n == args@.len(),
                all == string_views(args@),
                i <= n,
                bytes@ == message_fields(all.take(i as int)),
            decreases n - i,
        {
            let ghost before = bytes@;
            let arg_bytes = args[i].as_str().as_bytes();
            bytes.extend_from_slice(arg_bytes);
            bytes.push(0);
            proof {
                assert(all.take(i + 1).drop_last() =~= all.take(i as int));
                assert(all.take(i + 1).last() == args@[i as int]@);
                assert(bytes@ =~= before + encode_utf8(args@[i as int]@) + seq![0u8]);
            }
            i = i + 1;
        }
        bytes.push(0);
        proof {
            assert(all.take(n as int) =~= all);
        }
        Self { bytes }
    }

    /// Return the raw wire-format bytes.
    pub fn as_bytes(&self) -> (r: &[u8])
        ensures
            r@ == self@,
    {
        self.bytes.as_slice()
    }
}

/// Low-level `SketchyBar` client.
pub trait SketchybarClient {
    /// Send a preformatted `SketchyBar` message without spawning the CLI.
    fn send_message(&self, message: &SketchybarMessage) -> Result<String, SketchybarError>;

    /// Send command-line style arguments through the `SketchyBar` IPC protocol.
    fn send_args(&self, args: &[String]) -> (r: Result<String, SketchybarError>)
        default_ensures
            exists|message: &SketchybarMessage|
                message@ == message_bytes(string_views(args@)) && #[trigger] call_ensures(
                    Self::send_message,
                    (self, message),
                    r,
                ),
    {
        let message = SketchybarMessage::from_args(args);
        let sent = self.send_message(&message);
        proof {
            assert(call_ensures(Self::send_message, (self, &message), sent));
        }
        sent
    }
}

/// Probe whether the `SketchyBar` Mach endpoint is currently registered.
pub trait EndpointProbe {
    /// Return whether the named bar endpoint is reachable.
    fn availability(&self, bar_name: &str) -> Result<cache::EndpointAvailability, SketchybarError>;
}

/// `SketchyBar` Mach IPC client. It sends through [`ipc::send`], which in
/// this build (without the macOS bootstrap bridge) reports
/// `UnsupportedPlatform`; a macOS host sends through the bridge itself and
/// reads its answers with the functions of [`ipc`].
#[derive(Debug, Clone)]
pub struct SketchybarMachClient {
    bar_name: String,
}

impl View for SketchybarMachClient {
    type V = Seq<char>;

    closed spec fn view(&self) -> Seq<char> {
        self.bar_name@
    }
}

impl SketchybarMachClient {
    /// Create a client for a named `SketchyBar` instance.
    pub fn new(bar_name: String) -> (c: Self)
        ensures
            c@ == bar_name@,
    {
        Self { bar_name }
    }

    /// Create a client for the bar named by the `BAR_NAME` environment
    /// value, or for the default bar `sketchybar` when it is not set.
    pub fn from_env_value(bar_name: Option<String>) -> (c: Self)
        ensures
            c@ == match bar_name {
                Some(name) => name@,
                None => DEFAULT_SKETCHYBAR_NAME@,
            },
    {
        match bar_name {
            Some(name) => Self::new(name),
            None => Self::new(String::from_str(DEFAULT_SKETCHYBAR_NAME)),
        }
    }

    /// Return the configured bar name.
    pub fn bar_name(&self) -> (r: &str)
        ensures
            r@ == self@,
    {
        self.bar_name.as_str()
    }
}

impl SketchybarClient for SketchybarMachClient {
    fn send_message(&self, message: &SketchybarMessage) -> (r: Result<String, SketchybarError>)
        ensures
            r matches Err(SketchybarError::UnsupportedPlatform { transport }) && transport
                == ipc::MACH_TRANSPORT,
    {
        ipc::send(self.bar_name.as_str(), message.as_bytes())
    }
}

/// Mach-backed endpoint probe. It probes through [`ipc::probe`], which in
/// this build reports `UnsupportedPlatform`.
#[derive(Debug, Clone, Default)]
pub struct MachEndpointProbe;

/// The availability a Mach probe's result reports: a registered service is
/// available, a Mach failure means none is registered, any other error is
/// passed on.
pub fn availability_from_probe(probed: Result<(), SketchybarError>) -> (r: Result<
    cache::EndpointAvailability,
    SketchybarError,
>)
    ensures
        match probed {
            Ok(()) => r == Ok::<cache::EndpointAvailability, SketchybarError>(
                cache::EndpointAvailability::Available,
            ),
            Err(SketchybarError::Mach { .. }) => r == Ok::<
                cache::EndpointAvailability,
                SketchybarError,
            >(cache::EndpointAvailability::Unavailable),
            Err(e) => r == Err::<cache::EndpointAvailability, SketchybarError>(e),
        },
{
    match probed {
        Ok(()) => Ok(cache::EndpointAvailability::Available),
        Err(SketchybarError::Mach { .. }) => Ok(cache::EndpointAvailability::Unavailable),
        Err(error) => Err(error),
    }
}

impl EndpointProbe for MachEndpointProbe {
    fn availability(&self, bar_name: &str) -> (r: Result<
        cache::EndpointAvailability,
        SketchybarError,
    >)
        ensures
            r matches Err(SketchybarError::UnsupportedPlatform { transport }) && transport
                == ipc::MACH_TRANSPORT,
    {
        availability_from_probe(ipc::probe(bar_name))
    }
}

/// Inputs for a cached or uncached `SketchyBar` send.
pub struct CachedMessageRequest<'a> {
    /// Optional override for the cache directory.
    pub state_dir: Option<String>,
    /// `SketchyBar` command arguments.
    pub args: &'a [String],
    /// Optional write-cache key and value pair.
    pub cache: Option<&'a (String, String)>,
    /// Target bar name used for endpoint lifecycle tracking.
    pub bar_name: &'a str,
}

/// Why the arguments of a message request are refused.
#[derive(Debug)]
pub enum MessageArgsError {
    /// Neither the command line nor the action supplied an argument.
    NoArguments,
    /// The first argument that holds a control character.
    ControlCharacters(String),
}

impl MessageArgsError {
    /// The text this error is reported with.
    pub fn message(&self) -> (r: String)
        ensures
            r@ == match self {
                MessageArgsError::NoArguments => "no SketchyBar arguments were provided"@,
                MessageArgsError::ControlCharacters(arg) =>
                    "SketchyBar argument contains control characters: "@ + debug_str(arg@),
            },
    {
        match self {
            MessageArgsError::NoArguments => String::from_str(
                "no SketchyBar arguments were provided",
            ),
            MessageArgsError::ControlCharacters(arg) => {
                let quoted = debug_quoted(arg.as_str());
                concat2("SketchyBar argument contains control characters: ", quoted.as_str())
            },
        }
    }
}

/// The first argument, in order, that holds a control character.
pub open spec fn first_control_arg(args: Seq<Seq<char>>) -> Option<Seq<char>>
    decreases args.len(),
{
    if args.len() == 0 {
        None
    } else {
        match first_control_arg(args.drop_last()) {
            Some(arg) => Some(arg),
            None => if has_control(args.last()) {
                Some(args.last())
            } else {
                None
            },
        }
    }
}

/// The arguments a send uses: those of the command line, or those of the
/// action when the command line gave none.
pub open spec fn chosen_args(cli_args: Seq<Seq<char>>, action_args: Seq<Seq<char>>) -> Seq<
    Seq<char>,
> {
    if cli_args.len() == 0 {
        action_args
    } else {
        cli_args
    }
}

/// Pick the arguments of a message and check them: there must be at least
/// one, and none may hold a control character.
pub fn resolve_message_args(cli_args: Vec<String>, action_args: Vec<String>) -> (r: Result<
    Vec<String>,
    MessageArgsError,
>)
    ensures
        ({
            let chosen = chosen_args(string_views(cli_args@), string_views(action_args@));
            match r {
                Ok(args) => string_views(args@) == chosen && chosen.len() > 0
                    && first_control_arg(chosen) is None,
                Err(MessageArgsError::NoArguments) => chosen.len() == 0,
                Err(MessageArgsError::ControlCharacters(arg)) => chosen.len() > 0
                    && first_control_arg(chosen) == Some(arg@),
            }
        }),
{
    let args = if cli_args.len() == 0 {
        action_args
    } else {
        cli_args
    };
    if args.len() == 0 {
        return Err(MessageArgsError::NoArguments);
    }
    let ghost all = string_views(args@);
    assert(all == chosen_args(string_views(cli_args@), string_views(action_args@)));
    let mut i: usize = 0;
    while i < args.len()
        invariant
            i <= args.len(),
            all == string_views(args@),
            all == chosen_args(string_views(cli_args@), string_views(action_args@)),
            first_control_arg(all.take(i as int)) is None,
        decreases args.len() - i,
    {
        proof {
            assert(all.take(i + 1).drop_last() =~= all.take(i as int));
            assert(all.take(i + 1).last() == args@[i as int]@);
        }
        if has_control_str(args[i].as_str()) {
            let arg = args[i].clone();
            proof {
                lemma_first_control_arg_prefix(all, i + 1);
            }
            return Err(MessageArgsError::ControlCharacters(arg));
        }
        i = i + 1;
    }
    proof {
        assert(all.take(args.len() as int) =~= all);
    }
    Ok(args)
}

/// Once a prefix holds a control argument, the whole sequence's first
/// control argument is the prefix's.
proof fn lemma_first_control_arg_prefix(args: Seq<Seq<char>>, k: int)
    requires
        0 <= k <= args.len(),
        first_control_arg(args.take(k)) is Some,
    ensures
        first_control_arg(args) == first_control_arg(args.take(k)),
    decreases args.len() - k,
{
    if k < args.len() {
        assert(args.take(k + 1).drop_last() =~= args.take(k));
        lemma_first_control_arg_prefix(args, k + 1);
    } else {
        assert(args.take(k) =~= args);
    }
}

/// The cache directory of a send action: the one the action names wins
/// over the one given on the command line.
pub fn send_state_dir(action_state_dir: Option<String>, cli_state_dir: Option<String>) -> (r:
    Option<String>)
    ensures
        r == match action_state_dir {
            Some(dir) => Some(dir),
            None => cli_state_dir,
        },
{
    match action_state_dir {
        Some(dir) => Some(dir),
        None => cli_state_dir,
    }
}

/// The write-cache entry of a send action: it applies only when both a key
/// and a value are given.
pub fn send_cache(cache_key: Option<String>, cache_value: Option<String>) -> (r: Option<
    (String, String),
>)
    ensures
        match (cache_key, cache_value) {
            (Some(key), Some(value)) => r == Some((key, value)),
            _ => r is None,
        },
{
    match (cache_key, cache_value) {
        (Some(key), Some(value)) => Some((key, value)),
        _ => None,
    }
}

} // verus!
