//! `AeroSpace` IPC requests, responses and state snapshots.
//!
//! The socket transport lives outside this crate; the logic here builds what
//! is sent, decides what a response means, and turns command output into
//! workspace, mode and layout snapshots.

use vstd::prelude::*;

use crate::text::{
    chars_of as chars_of_str, concat2, concat3, decimal_text, first_non_blank, first_non_empty_line, has_control,
    has_control_str, i32_text, insert_sorted, is_blank, is_blank_str, lines, lines_str,
    str_views, string_views, strictly_sorted, trim, trim_str,
};

verus! {

/// Declares `serde_json::Error` for the variant that carries one.
#[verifier::external_type_specification]
#[verifier::external_body]
pub struct ExJsonError(serde_json::Error);

/// Error returned by the `AeroSpace` extension.
#[derive(Debug)]
pub enum AerospaceError {
    /// A workspace value cannot safely be passed to `AeroSpace`.
    InvalidWorkspace {
        /// Validation failure reason.
        reason: &'static str,
    },
    /// An `AeroSpace` command exited unsuccessfully.
    CommandFailed {
        /// Command and arguments.
        command: String,
        /// `AeroSpace` exit code.
        exit_code: i32,
        /// Standard error text returned by `AeroSpace`.
        stderr: String,
    },
    /// `AeroSpace` socket path could not be resolved.
    MissingSocketUser,
    /// The reusable `AeroSpace` socket connection state is unavailable.
    ClientState,
    /// Filesystem, stream, or socket I/O failed.
    Io(std::io::Error),
    /// JSON parsing or serialization failed.
    Json(serde_json::Error),
}

/// The `Display` text of an I/O error.
#[verifier::external_body]
pub(crate) fn io_error_text(error: &std::io::Error) -> String {
    format!("{error}")
}

/// The `Display` text of a JSON error.
#[verifier::external_body]
fn json_error_text(error: &serde_json::Error) -> String {
    format!("{error}")
}

impl AerospaceError {
    /// The error's message.
    pub fn message(&self) -> (r: String)
        ensures
            match self {
                AerospaceError::InvalidWorkspace { reason } => r@ == "invalid workspace: "@ + reason@,
                AerospaceError::CommandFailed { command, exit_code, stderr } => r@
                    == "aerospace command failed: "@ + command@ + " exited "@ + decimal_text(
                    *exit_code as int,
                ) + ": "@ + stderr@,
                AerospaceError::MissingSocketUser => r@
                    == "AEROSPACESOCK was not set and USER was not available"@,
                AerospaceError::ClientState => r@ == "aerospace ipc client state is unavailable"@,
                _ => true,
            },
    {
        match self {
            AerospaceError::InvalidWorkspace { reason } => concat2("invalid workspace: ", reason),
            AerospaceError::CommandFailed { command, exit_code, stderr } => {
                let mut r = concat3("aerospace command failed: ", command.as_str(), " exited ");
                let code = i32_text(*exit_code);
                r.append(code.as_str());
                r.append(": ");
                r.append(stderr.as_str());
                r
            },
            AerospaceError::MissingSocketUser => String::from_str(
                "AEROSPACESOCK was not set and USER was not available",
            ),
            AerospaceError::ClientState => String::from_str(
                "aerospace ipc client state is unavailable",
            ),
            AerospaceError::Io(error) => io_error_text(error),
            AerospaceError::Json(error) => json_error_text(error),
        }
    }
}

/// Response returned by `AeroSpace` over its Unix socket.
#[derive(Debug, Clone)]
pub struct AerospaceResponse {
    server_version: String,
    stderr: String,
    stdout: String,
    exit_code: i32,
}

/// Mathematical model of an [`AerospaceResponse`].
pub struct ResponseModel {
    pub server_version: Seq<char>,
    pub stderr: Seq<char>,
    pub stdout: Seq<char>,
    pub exit_code: i32,
}

impl View for AerospaceResponse {
    type V = ResponseModel;

    closed spec fn view(&self) -> ResponseModel {
        ResponseModel {
            server_version: self.server_version@,
            stderr: self.stderr@,
            stdout: self.stdout@,
            exit_code: self.exit_code,
        }
    }
}

/// `command` followed by each argument, separated by spaces.
pub open spec fn command_line_spec(command: Seq<char>, args: Seq<Seq<char>>) -> Seq<char>
    decreases args.len(),
{
    if args.len() == 0 {
        command
    } else {
        command_line_spec(command, args.drop_last()) + " "@ + args.last()
    }
}

/// The command line of a command and its arguments, for messages.
pub fn command_line(command: &str, args: &[&str]) -> (r: String)
    ensures
        r@ == command_line_spec(command@, str_views(args@)),
{
    let ghost all = str_views(args@);
    let mut line = String::from_str(command);
    let n = args.len();
    let mut i: usize = 0;
    proof {
        assert(all.take(0) =~= Seq::<Seq<char>>::empty());
    }
    while i < n
        invariant
            n == args@.len(),
            all == str_views(args@),
            i <= n,
            line@ == command_line_spec(command@, all.take(i as int)),
        decreases n - i,
    {
        proof {
            assert(all.take(i + 1).drop_last() =~= all.take(i as int));
            assert(all.take(i + 1).last() == args@[i as int]@);
        }
        line.append(" ");
        line.append(args[i]);
        i = i + 1;
    }
    proof {
        assert(all.take(n as int) =~= all);
    }
    line
}

impl AerospaceResponse {
    /// Create a successful response value.
    pub fn success(stdout: String) -> (r: Self)
        ensures
            r@.server_version == Seq::<char>::empty(),
            r@.stderr == Seq::<char>::empty(),
            r@.stdout == stdout@,
            r@.exit_code == 0,
    {
        Self { server_version: String::new(), stderr: String::new(), stdout, exit_code: 0 }
    }

    /// A response with every field given, as the socket returns it.
    pub fn from_parts(server_version: String, stderr: String, stdout: String, exit_code: i32) -> (r:
        Self)
        ensures
            r@ == (ResponseModel {
                server_version: server_version@,
                stderr: stderr@,
                stdout: stdout@,
                exit_code,
            }),
    {
        Self { server_version, stderr, stdout, exit_code }
    }

    /// Return the `AeroSpace` standard output payload.
    pub fn stdout(&self) -> (r: &str)
        ensures
            r@ == self@.stdout,
    {
        self.stdout.as_str()
    }

    /// Return the `AeroSpace` standard error payload.
    pub fn stderr(&self) -> (r: &str)
        ensures
            r@ == self@.stderr,
    {
        self.stderr.as_str()
    }

    /// Return the `AeroSpace` server version and hash.
    pub fn server_version(&self) -> (r: &str)
        ensures
            r@ == self@.server_version,
    {
        self.server_version.as_str()
    }

    /// Return the `AeroSpace` exit code.
    pub fn exit_code(&self) -> (r: i32)
        ensures
            r == self@.exit_code,
    {
        self.exit_code
    }

    /// The response itself when the command succeeded (exit code 0), else the
    /// failure with the command line, the exit code and the standard error.
    pub fn ensure_success(self, command: &str, args: &[&str]) -> (r: Result<Self, AerospaceError>)
        ensures
            self@.exit_code == 0 ==> (r matches Ok(resp) && resp@ == self@),
            self@.exit_code != 0 ==> (r matches Err(
                AerospaceError::CommandFailed { command: c, exit_code, stderr },
            ) && c@ == command_line_spec(command@, str_views(args@)) && exit_code
                == self@.exit_code && stderr@ == self@.stderr),
    {
        if self.exit_code == 0 {
            return Ok(self);
        }
        let command = command_line(command, args);
        Err(AerospaceError::CommandFailed { command, exit_code: self.exit_code, stderr: self.stderr })
    }
}

/// Low-level `AeroSpace` client.
pub trait AerospaceClient {
    /// Send an `AeroSpace` command without spawning the `aerospace` CLI.
    fn send_command(&self, command: &str, args: &[&str]) -> Result<AerospaceResponse, AerospaceError>;
}

/// Snapshot of `AeroSpace` workspace state.
#[derive(Debug, Clone)]
pub struct WorkspaceSnapshot {
    /// Focused workspace, when available.
    pub active: Option<String>,
    /// Workspaces with at least one window.
    pub occupied: Vec<String>,
}

/// The error a workspace name is refused with, if any.
pub open spec fn workspace_error_spec(workspace: Seq<char>) -> Option<AerospaceError> {
    if is_blank(workspace) {
        Some(AerospaceError::InvalidWorkspace { reason: "must not be empty" })
    } else if has_control(workspace) {
        Some(AerospaceError::InvalidWorkspace { reason: "must not contain control characters" })
    } else {
        None
    }
}

fn validate_workspace(workspace: &str) -> (r: Result<(), AerospaceError>)
    ensures
        match workspace_error_spec(workspace@) {
            Some(e) => r == Err::<(), AerospaceError>(e),
            None => r is Ok,
        },
{
    if is_blank_str(workspace) {
        return Err(AerospaceError::InvalidWorkspace { reason: "must not be empty" });
    }
    if has_control_str(workspace) {
        return Err(AerospaceError::InvalidWorkspace { reason: "must not contain control characters" });
    }
    Ok(())
}

/// Build the `AeroSpace` command used when a workspace item is clicked.
pub fn focus_workspace_args(workspace: &str) -> (r: Result<[String; 2], AerospaceError>)
    ensures
        match workspace_error_spec(workspace@) {
            Some(e) => r == Err::<[String; 2], AerospaceError>(e),
            None => r matches Ok(args) && args@[0]@ == "workspace"@ && args@[1]@ == workspace@,
        },
{
    validate_workspace(workspace)?;
    Ok([String::from_str("workspace"), String::from_str(workspace)])
}

/// Focus an `AeroSpace` workspace through an explicit IPC client: a refused
/// workspace name fails before anything is sent, else `workspace <name>` is
/// sent and its failure is passed on.
pub fn focus_workspace_with_client<A: AerospaceClient>(workspace: &str, aerospace: &A) -> (r: Result<
    (),
    AerospaceError,
>)
    ensures
        match workspace_error_spec(workspace@) {
            Some(e) => r == Err::<(), AerospaceError>(e),
            None => match r {
                Ok(()) => exists|resp: AerospaceResponse|
                    #[trigger] client_reply(aerospace, "workspace"@, seq![workspace@], Ok(resp)),
                Err(e) => client_reply(aerospace, "workspace"@, seq![workspace@], Err(e)),
            },
        },
{
    let args = focus_workspace_args(workspace)?;
    let target: [&str; 1] = [args[1].as_str()];
    let target_args: &[&str] = &target;
    assert(str_views(target_args@) =~= seq![workspace@]);
    let sent = aerospace.send_command("workspace", target_args);
    assert(call_ensures(A::send_command, (aerospace, "workspace", target_args), sent));
    let response = sent?;
    assert(client_reply(aerospace, "workspace"@, seq![workspace@], Ok(response)));
    Ok(())
}

/// Whether `reply` is an answer the client's `send_command` can give when
/// handed `command` and `args`.
pub open spec fn client_reply<A: AerospaceClient>(
    aerospace: &A,
    command: Seq<char>,
    args: Seq<Seq<char>>,
    reply: Result<AerospaceResponse, AerospaceError>,
) -> bool {
    exists|c: &str, a: &[&str]|
        c@ == command && str_views(a@) == args && #[trigger] call_ensures(
            A::send_command,
            (aerospace, c, a),
            reply,
        )
}

/// Whether the client can answer `command` with `args` by a response whose
/// standard output is `stdout`.
pub open spec fn client_output<A: AerospaceClient>(
    aerospace: &A,
    command: Seq<char>,
    args: Seq<Seq<char>>,
    stdout: Seq<char>,
) -> bool {
    exists|resp: AerospaceResponse|
        #[trigger] client_reply(aerospace, command, args, Ok(resp)) && resp@.stdout == stdout
}

/// Return stdout for an `AeroSpace` command: `command` with `args` is sent
/// once; its response's standard output comes back, or its error.
pub fn stdout_optional<A: AerospaceClient>(aerospace: &A, command: &str, args: &[&str]) -> (r: Result<
    Option<String>,
    AerospaceError,
>)
    ensures
        match r {
            Ok(out) => out matches Some(stdout) && client_output(
                aerospace,
                command@,
                str_views(args@),
                stdout@,
            ),
            Err(e) => client_reply(aerospace, command@, str_views(args@), Err(e)),
        },
{
    let sent = aerospace.send_command(command, args);
    assert(call_ensures(A::send_command, (aerospace, command, args), sent));
    let response = sent?;
    assert(client_reply(aerospace, command@, str_views(args@), Ok(response)));
    Ok(Some(response.stdout))
}


/// Whether `w` is a workspace that `list-windows --format %{workspace}`
/// printed: a non-empty trimmed line of the output.
pub open spec fn is_listed_workspace(output: Seq<char>, w: Seq<char>) -> bool {
    w.len() > 0 && exists|k: int| 0 <= k < lines(output).len() && trim(#[trigger] lines(output)[k]) == w
}

/// The workspaces that hold windows, from `list-windows --all --format
/// %{workspace}` output: its trimmed non-empty lines, once each, in
/// ascending order.
pub fn occupied_workspaces(output: &str) -> (r: Vec<String>)
    ensures
        strictly_sorted(string_views(r@)),
        forall|w: Seq<char>|
            #![trigger string_views(r@).contains(w)]
            string_views(r@).contains(w) <==> is_listed_workspace(output@, w),
{
    let ls = lines_str(output);
    let ghost all = lines(output@);
    let n = ls.len();
    let mut occupied: Vec<String> = Vec::new();
    let mut i: usize = 0;
    while i < n
        invariant
            str_views(ls@) == all,
            all == lines(output@),
            n == ls.len(),
            i <= n,
            strictly_sorted(string_views(occupied@)),
            forall|w: Seq<char>|
                #![trigger string_views(occupied@).contains(w)]
                string_views(occupied@).contains(w) <==> (w.len() > 0 && exists|k: int|
                    0 <= k < i && trim(#[trigger] all[k]) == w),
        decreases n - i,
    {
        proof {
            assert(all[i as int] == ls@[i as int]@);
        }
        let workspace = trim_str(ls[i]);
        let ghost before = string_views(occupied@);
        if workspace.unicode_len() > 0 {
            insert_sorted(&mut occupied, workspace);
        }
        proof {
            assert forall|w: Seq<char>| string_views(occupied@).contains(w) <==> (w.len() > 0
                && exists|k: int| 0 <= k < i + 1 && trim(#[trigger] all[k]) == w) by {
                if w.len() > 0 && exists|k: int| 0 <= k < i + 1 && trim(#[trigger] all[k]) == w {
                    let k = choose|k: int| 0 <= k < i + 1 && trim(#[trigger] all[k]) == w;
                    if k < i {
                        assert(before.contains(w));
                    }
                }
                if before.contains(w) {
                    let k = choose|k: int| 0 <= k < i && trim(#[trigger] all[k]) == w;
                    assert(0 <= k < i + 1);
                }
            }
        }
        i = i + 1;
    }
    proof {
        assert(all.len() == n);
    }
    occupied
}

/// Whether `occupied` holds exactly the workspaces listed in `output`.
pub open spec fn lists_occupied(occupied: Seq<Seq<char>>, output: Seq<char>) -> bool {
    forall|w: Seq<char>| #![trigger occupied.contains(w)] occupied.contains(w) <==> is_listed_workspace(output, w)
}

/// The model of an optional string.
pub open spec fn option_view(o: Option<String>) -> Option<Seq<char>> {
    match o {
        Some(s) => Some(s@),
        None => None,
    }
}

/// The focused workspace from `list-workspaces --focused` output: its first
/// non-blank line, trimmed.
pub fn focused_workspace(output: &str) -> (r: Option<String>)
    ensures
        option_view(r) == first_non_blank(lines(output@)),
{
    match first_non_empty_line(output) {
        Some(line) => Some(String::from_str(line)),
        None => None,
    }
}

/// Whether a focused workspace handed in by an event is used as is: it is
/// given and not blank.
pub open spec fn given_workspace(focused_workspace: Option<&str>) -> Option<Seq<char>> {
    match focused_workspace {
        Some(w) => if is_blank(w@) {
            None
        } else {
            Some(w@)
        },
        None => None,
    }
}

/// The arguments that ask `list-windows` for every window's workspace.
pub open spec fn windows_args_spec() -> Seq<Seq<char>> {
    seq!["--all"@, "--format"@, "%{workspace}"@]
}

/// Read the current workspace snapshot with an explicit client.
///
/// A focused workspace handed in (and not blank) is the active one, else
/// `list-workspaces --focused` decides it; `list-windows --all --format
/// %{workspace}` decides the occupied ones. A failing command fails the read.
pub fn read_workspace_snapshot_with_client<A: AerospaceClient>(
    focused_workspace_arg: Option<&str>,
    aerospace: &A,
) -> (r: Result<WorkspaceSnapshot, AerospaceError>)
    ensures
        match r {
            Ok(snapshot) => {
                &&& match given_workspace(focused_workspace_arg) {
                    Some(w) => option_view(snapshot.active) == Some(w),
                    None => exists|output: Seq<char>|
                        #[trigger] client_output(
                            aerospace,
                            "list-workspaces"@,
                            seq!["--focused"@],
                            output,
                        ) && option_view(snapshot.active) == first_non_blank(lines(output)),
                }
                &&& strictly_sorted(string_views(snapshot.occupied@))
                &&& exists|output: Seq<char>|
                    #[trigger] client_output(aerospace, "list-windows"@, windows_args_spec(), output)
                        && lists_occupied(string_views(snapshot.occupied@), output)
            },
            Err(e) => {
                ||| given_workspace(focused_workspace_arg) is None && client_reply(
                    aerospace,
                    "list-workspaces"@,
                    seq!["--focused"@],
                    Err(e),
                )
                ||| client_reply(aerospace, "list-windows"@, windows_args_spec(), Err(e))
            },
        },
{
    let given = match focused_workspace_arg {
        Some(w) => if is_blank_str(w) {
            None
        } else {
            Some(w)
        },
        None => None,
    };
    let ghost mut focused_out: Seq<char> = Seq::empty();
    let ghost mut windows_out: Seq<char> = Seq::empty();
    let active = match given {
        Some(w) => Some(String::from_str(w)),
        None => {
            let focus_args: [&str; 1] = ["--focused"];
            assert(str_views(focus_args@) =~= seq!["--focused"@]);
            match stdout_optional(aerospace, "list-workspaces", &focus_args)? {
                Some(output) => {
                    let focused = focused_workspace(output.as_str());
                    proof {
                        focused_out = output@;
                    }
                    focused
                },
                None => {
                    proof {
                        assert(false);
                    }
                    None
                },
            }
        },
    };
    let window_args: [&str; 3] = ["--all", "--format", "%{workspace}"];
    assert(str_views(window_args@) =~= windows_args_spec());
    let windows = match stdout_optional(aerospace, "list-windows", &window_args)? {
        Some(output) => {
            let occupied = occupied_workspaces(output.as_str());
            proof {
                windows_out = output@;
            }
            occupied
        },
        None => {
            proof {
                assert(false);
            }
            Vec::new()
        },
    };
    let snapshot = WorkspaceSnapshot { active, occupied: windows };
    proof {
        assert(lists_occupied(string_views(snapshot.occupied@), windows_out));
        assert(client_output(aerospace, "list-windows"@, windows_args_spec(), windows_out));
        if given is None {
            assert(option_view(snapshot.active) == first_non_blank(lines(focused_out)));
            assert(client_output(aerospace, "list-workspaces"@, seq!["--focused"@], focused_out));
        }
    }
    Ok(snapshot)
}

/// Read the current `AeroSpace` mode with an explicit client: the first
/// non-blank line of `list-modes --current`, trimmed.
pub fn read_mode_with_client<A: AerospaceClient>(aerospace: &A) -> (r: Result<
    Option<String>,
    AerospaceError,
>)
    ensures
        match r {
            Ok(mode) => exists|output: Seq<char>|
                #[trigger] client_output(aerospace, "list-modes"@, seq!["--current"@], output)
                    && option_view(mode) == first_non_blank(lines(output)),
            Err(e) => client_reply(aerospace, "list-modes"@, seq!["--current"@], Err(e)),
        },
{
    let mode_args: [&str; 1] = ["--current"];
    assert(str_views(mode_args@) =~= seq!["--current"@]);
    match stdout_optional(aerospace, "list-modes", &mode_args)? {
        Some(output) => {
            let line = focused_workspace(output.as_str());
            assert(option_view(line) == first_non_blank(lines(output@)));
            Ok(line)
        },
        None => {
            proof {
                assert(false);
            }
            Ok(None)
        },
    }
}

/// The arguments that ask `list-windows` for the focused window's layout.
pub open spec fn layout_args_spec() -> Seq<Seq<char>> {
    seq!["--focused"@, "--format"@, "%{window-is-fullscreen}|%{window-layout}"@]
}

/// Read focused window layout info with an explicit client: the first
/// non-blank line of `list-windows --focused --format
/// %{window-is-fullscreen}|%{window-layout}`, trimmed.
pub fn read_layout_with_client<A: AerospaceClient>(aerospace: &A) -> (r: Result<
    Option<String>,
    AerospaceError,
>)
    ensures
        match r {
            Ok(layout) => exists|output: Seq<char>|
                #[trigger] client_output(aerospace, "list-windows"@, layout_args_spec(), output)
                    && option_view(layout) == first_non_blank(lines(output)),
            Err(e) => client_reply(aerospace, "list-windows"@, layout_args_spec(), Err(e)),
        },
{
    let layout_args: [&str; 3] = [
        "--focused",
        "--format",
        "%{window-is-fullscreen}|%{window-layout}",
    ];
    assert(str_views(layout_args@) =~= layout_args_spec());
    match stdout_optional(aerospace, "list-windows", &layout_args)? {
        Some(output) => {
            let line = focused_workspace(output.as_str());
            assert(option_view(line) == first_non_blank(lines(output@)));
            Ok(line)
        },
        None => {
            proof {
                assert(false);
            }
            Ok(None)
        },
    }
}


/// The socket `AeroSpace` listens on: `AEROSPACESOCK` when set and not
/// empty, else the per-user default `/tmp/bobko.aerospace-{USER}.sock`.
pub open spec fn socket_path_spec(socket_var: Option<Seq<char>>, user_var: Option<Seq<char>>) -> Option<
    Seq<char>,
> {
    if socket_var is Some && socket_var->0.len() > 0 {
        socket_var
    } else {
        match user_var {
            Some(user) => Some("/tmp/bobko.aerospace-"@ + user + ".sock"@),
            None => None,
        }
    }
}

/// Resolve the `AeroSpace` socket path from the `AEROSPACESOCK` and `USER`
/// environment values.
pub fn socket_path(socket_var: Option<String>, user_var: Option<String>) -> (r: Result<
    String,
    AerospaceError,
>)
    ensures
        match socket_path_spec(option_view(socket_var), option_view(user_var)) {
            Some(p) => r matches Ok(path) && path@ == p,
            None => r matches Err(AerospaceError::MissingSocketUser),
        },
{
    if let Some(path) = socket_var {
        if path.as_str().unicode_len() > 0 {
            return Ok(path);
        }
    }
    match user_var {
        Some(user) => Ok(concat3("/tmp/bobko.aerospace-", user.as_str(), ".sock")),
        None => Err(AerospaceError::MissingSocketUser),
    }
}

/// Whether `c` is an ASCII decimal digit.
pub open spec fn is_ascii_digit(c: char) -> bool {
    '0' <= c <= '9'
}

/// The value of a sequence of decimal digits.
pub open spec fn digits_value(s: Seq<char>) -> int
    decreases s.len(),
{
    if s.len() == 0 {
        0
    } else {
        digits_value(s.drop_last()) * 10 + (s.last() as int - 48)
    }
}

/// `u64::from_str`: an optional `+` followed by at least one decimal digit,
/// with a value that fits in 64 bits.
pub open spec fn parse_u64_spec(s: Seq<char>) -> Option<u64> {
    let digits = if s.len() > 0 && s[0] == '+' {
        s.drop_first()
    } else {
        s
    };
    digits_u64(digits)
}

proof fn lemma_digits_value_grows(s: Seq<char>, k: int)
    requires
        0 <= k <= s.len(),
        forall|i: int| 0 <= i < s.len() ==> is_ascii_digit(#[trigger] s[i]),
    ensures
        digits_value(s.take(k)) <= digits_value(s),
        0 <= digits_value(s.take(k)),
    decreases s.len() - k,
{
    if k < s.len() {
        assert(s.take(k + 1).drop_last() =~= s.take(k));
        lemma_digits_value_nonneg(s.take(k));
        lemma_digits_value_grows(s, k + 1);
    } else {
        assert(s.take(k) =~= s);
        lemma_digits_value_nonneg(s);
    }
}

proof fn lemma_digits_value_nonneg(s: Seq<char>)
    requires
        forall|i: int| 0 <= i < s.len() ==> is_ascii_digit(#[trigger] s[i]),
    ensures
        0 <= digits_value(s),
    decreases s.len(),
{
    if s.len() > 0 {
        lemma_digits_value_nonneg(s.drop_last());
    }
}

/// The value of a non-empty run of decimal digits, when it fits in 64 bits.
pub open spec fn digits_u64(digits: Seq<char>) -> Option<u64> {
    if digits.len() > 0 && (forall|i: int| 0 <= i < digits.len() ==> is_ascii_digit(#[trigger] digits[i]))
        && digits_value(digits) <= u64::MAX {
        Some(digits_value(digits) as u64)
    } else {
        None
    }
}

fn parse_digits(digits: &str) -> (r: Option<u64>)
    ensures
        r == digits_u64(digits@),
{
    let cs = chars_of_str(digits);
    let n = cs.len();
    if n == 0 {
        return None;
    }
    let mut i: usize = 0;
    while i < n
        invariant
            cs@ == digits@,
            n == cs.len(),
            i <= n,
            forall|j: int| 0 <= j < i ==> is_ascii_digit(#[trigger] digits@[j]),
        decreases n - i,
    {
        if !('0' <= cs[i] && cs[i] <= '9') {
            assert(!is_ascii_digit(digits@[i as int]));
            return None;
        }
        i = i + 1;
    }
    let ghost d = digits@;
    let mut value: u64 = 0;
    let mut i: usize = 0;
    proof {
        assert(d.take(0) =~= Seq::<char>::empty());
    }
    while i < n
        invariant
            cs@ == d,
            d == digits@,
            n == cs.len(),
            i <= n,
            forall|j: int| 0 <= j < d.len() ==> is_ascii_digit(#[trigger] d[j]),
            value as int == digits_value(d.take(i as int)),
        decreases n - i,
    {
        proof {
            assert(d.take(i + 1).drop_last() =~= d.take(i as int));
            assert(d.take(i + 1).last() == d[i as int]);
            assert(is_ascii_digit(d[i as int]));
        }
        let c = cs[i];
        let digit = (c as u32 - 48) as u64;
        let next = match value.checked_mul(10) {
            Some(v) => v.checked_add(digit),
            None => None,
        };
        match next {
            Some(v) => {
                value = v;
            },
            None => {
                proof {
                    lemma_digits_value_grows(d, i + 1);
                }
                return None;
            },
        }
        i = i + 1;
    }
    proof {
        assert(d.take(n as int) =~= d);
    }
    Some(value)
}

/// `str::parse::<u64>`.
pub fn parse_u64(s: &str) -> (r: Option<u64>)
    ensures
        r == parse_u64_spec(s@),
{
    let n = s.unicode_len();
    if n > 0 && s.get_char(0) == '+' {
        let digits = s.substring_char(1, n);
        assert(digits@ =~= s@.drop_first());
        parse_digits(digits)
    } else {
        parse_digits(s)
    }
}

/// A request to the `AeroSpace` socket.
#[derive(Debug, Clone)]
pub struct AerospaceRequest {
    command: String,
    args: Vec<String>,
    stdin: String,
    window_id: Option<u64>,
    workspace: Option<String>,
}

/// Mathematical model of an [`AerospaceRequest`].
pub struct RequestModel {
    pub command: Seq<char>,
    pub args: Seq<Seq<char>>,
    pub stdin: Seq<char>,
    pub window_id: Option<u64>,
    pub workspace: Option<Seq<char>>,
}

impl View for AerospaceRequest {
    type V = RequestModel;

    closed spec fn view(&self) -> RequestModel {
        RequestModel {
            command: self.command@,
            args: string_views(self.args@),
            stdin: self.stdin@,
            window_id: self.window_id,
            workspace: option_view(self.workspace),
        }
    }
}

impl AerospaceRequest {
    /// The request that runs `command` with `args`, carrying the window and
    /// workspace of the callback environment: `AEROSPACE_WINDOW_ID`, kept
    /// only when it parses as a number, and `AEROSPACE_WORKSPACE`, or
    /// `AEROSPACE_FOCUSED_WORKSPACE` when that is not set.
    pub fn from_env_values(
        command: &str,
        args: &[&str],
        window_id_var: Option<String>,
        workspace_var: Option<String>,
        focused_workspace_var: Option<String>,
    ) -> (r: Self)
        ensures
            r@.command == Seq::<char>::empty(),
            r@.args == seq![command@] + str_views(args@),
            r@.stdin == Seq::<char>::empty(),
            r@.window_id == match window_id_var {
                Some(v) => parse_u64_spec(v@),
                None => None,
            },
            r@.workspace == match workspace_var {
                Some(w) => Some(w@),
                None => option_view(focused_workspace_var),
            },
    {
        let mut full_args: Vec<String> = Vec::new();
        full_args.push(String::from_str(command));
        let n = args.len();
        let mut i: usize = 0;
        while i < n
            invariant
                n == args@.len(),
                i <= n,
                full_args@.len() == i + 1,
                full_args@[0]@ == command@,
                forall|j: int| 0 <= j < i ==> #[trigger] full_args@[j + 1]@ == args@[j]@,
            decreases n - i,
        {
            full_args.push(String::from_str(args[i]));
            i = i + 1;
        }
        assert forall|k: int| 0 <= k < full_args@.len() implies #[trigger] string_views(full_args@)[k]
            == (seq![command@] + str_views(args@))[k] by {
            if k > 0 {
                assert(full_args@[(k - 1) + 1]@ == args@[k - 1]@);
            }
        }
        assert(string_views(full_args@) =~= seq![command@] + str_views(args@));
        let window_id = match &window_id_var {
            Some(value) => parse_u64(value.as_str()),
            None => None,
        };
        Self {
            command: String::new(),
            args: full_args,
            stdin: String::new(),
            window_id,
            workspace: match workspace_var {
                Some(w) => Some(w),
                None => focused_workspace_var,
            },
        }
    }

    /// The command field (always empty: the command is the first argument).
    pub fn command(&self) -> (r: &str)
        ensures
            r@ == self@.command,
    {
        self.command.as_str()
    }

    /// The command and its arguments.
    pub fn args(&self) -> (r: &[String])
        ensures
            string_views(r@) == self@.args,
    {
        self.args.as_slice()
    }

    /// The standard input handed to the command (always empty).
    pub fn stdin(&self) -> (r: &str)
        ensures
            r@ == self@.stdin,
    {
        self.stdin.as_str()
    }

    /// The window the command applies to, when known.
    pub fn window_id(&self) -> (r: Option<u64>)
        ensures
            r == self@.window_id,
    {
        self.window_id
    }

    /// The workspace the command applies to, when known.
    pub fn workspace(&self) -> (r: Option<&str>)
        ensures
            match r {
                Some(w) => self@.workspace == Some(w@),
                None => self@.workspace is None,
            },
    {
        match &self.workspace {
            Some(w) => Some(w.as_str()),
            None => None,
        }
    }
}

/// The workspace a focus action targets: the explicit one, else the
/// action's `workspace` argument, else its `name` argument.
pub fn resolve_workspace(
    explicit: Option<String>,
    workspace_arg: Option<String>,
    name_arg: Option<String>,
) -> (r: Option<String>)
    ensures
        r == match explicit {
            Some(w) => Some(w),
            None => match workspace_arg {
                Some(w) => Some(w),
                None => name_arg,
            },
        },
{
    match explicit {
        Some(w) => Some(w),
        None => match workspace_arg {
            Some(w) => Some(w),
            None => name_arg,
        },
    }
}

} // verus!
