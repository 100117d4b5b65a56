use std::cell::RefCell;
use std::collections::BTreeMap;

use spindle_extensions::aerospace::{
    command_line, focus_workspace_args, focus_workspace_with_client, focused_workspace,
    occupied_workspaces, parse_u64, read_layout_with_client, read_mode_with_client,
    read_workspace_snapshot_with_client, resolve_workspace, socket_path, AerospaceClient,
    AerospaceError, AerospaceRequest, AerospaceResponse,
};

#[derive(Default)]
struct FakeAerospace {
    responses: BTreeMap<String, String>,
    commands: RefCell<Vec<Vec<String>>>,
}

impl FakeAerospace {
    fn new() -> Self {
        Self::default()
    }

    fn with_response(mut self, command: &str, stdout: &str) -> Self {
        self.responses
            .insert(String::from(command), String::from(stdout));
        self
    }

    fn commands(&self) -> Vec<Vec<String>> {
        self.commands.borrow().clone()
    }
}

impl AerospaceClient for FakeAerospace {
    fn send_command(
        &self,
        command: &str,
        args: &[&str],
    ) -> Result<AerospaceResponse, AerospaceError> {
        let mut recorded = Vec::with_capacity(args.len() + 1);
        recorded.push(String::from(command));
        recorded.extend(args.iter().map(|arg| String::from(*arg)));
        self.commands.borrow_mut().push(recorded);

        Ok(AerospaceResponse::success(String::from(
            self.responses.get(command).map_or("", String::as_str),
        )))
    }
}

struct FailingAerospace {
    command: &'static str,
}

impl AerospaceClient for FailingAerospace {
    fn send_command(
        &self,
        command: &str,
        args: &[&str],
    ) -> Result<AerospaceResponse, AerospaceError> {
        if command == self.command {
            return Err(AerospaceError::CommandFailed {
                command: command.to_owned(),
                exit_code: 1,
                stderr: String::from("AeroSpace failed"),
            });
        }

        Ok(AerospaceResponse::success(args.join("\n")))
    }
}

#[test]
fn focus_workspace_args_builds_aerospace_command() {
    let args = focus_workspace_args("10").expect("valid workspace");

    assert_eq!(args, [String::from("workspace"), String::from("10")]);
}

#[test]
fn workspace_snapshot_reads_aerospace_state() {
    let aerospace = FakeAerospace::new()
        .with_response("list-workspaces", "2\n")
        .with_response("list-windows", "1\n2\n2\n");

    let snapshot =
        read_workspace_snapshot_with_client(None, &aerospace).expect("snapshot is read");

    assert_eq!(snapshot.active, Some(String::from("2")));
    assert_eq!(
        snapshot.occupied,
        vec![String::from("1"), String::from("2")]
    );
    assert_eq!(
        aerospace.commands(),
        vec![
            vec!["list-workspaces", "--focused"],
            vec!["list-windows", "--all", "--format", "%{workspace}"],
        ]
    );
}

#[test]
fn workspace_snapshot_prefers_event_workspace() {
    let aerospace = FakeAerospace::new().with_response("list-windows", "1\n2\n");

    let snapshot =
        read_workspace_snapshot_with_client(Some("3"), &aerospace).expect("snapshot is read");

    assert_eq!(snapshot.active, Some(String::from("3")));
    assert_eq!(
        aerospace.commands(),
        vec![vec!["list-windows", "--all", "--format", "%{workspace}"]]
    );
}

#[test]
fn workspace_snapshot_propagates_required_command_failure() {
    let aerospace = FailingAerospace {
        command: "list-windows",
    };

    let error = read_workspace_snapshot_with_client(Some("3"), &aerospace)
        .err()
        .map_or_else(String::new, |error| error.message());

    assert!(error.contains("aerospace command failed: list-windows exited 1"));
}

#[test]
fn mode_and_layout_snapshot_read_aerospace_state() {
    let aerospace = FakeAerospace::new()
        .with_response("list-modes", "service\n")
        .with_response("list-windows", "false|h_tiles\n");

    assert_eq!(
        read_mode_with_client(&aerospace).expect("mode is read"),
        Some(String::from("service"))
    );
    assert_eq!(
        read_layout_with_client(&aerospace).expect("layout is read"),
        Some(String::from("false|h_tiles"))
    );
}

#[test]
fn blank_event_workspace_falls_back_to_focused_query() {
    let aerospace = FakeAerospace::new()
        .with_response("list-workspaces", "\n  \n dev \n")
        .with_response("list-windows", "");

    let snapshot =
        read_workspace_snapshot_with_client(Some("  "), &aerospace).expect("snapshot is read");

    assert_eq!(snapshot.active, Some(String::from("dev")));
    assert!(snapshot.occupied.is_empty());
    assert_eq!(aerospace.commands().len(), 2);
}

#[test]
fn occupied_workspaces_are_trimmed_sorted_and_unique() {
    assert_eq!(
        occupied_workspaces("3\n 1 \n\n3\r\n2\n1\n"),
        vec![String::from("1"), String::from("2"), String::from("3")]
    );
    assert_eq!(
        occupied_workspaces("10\n9\n"),
        vec![String::from("10"), String::from("9")]
    );
    assert!(occupied_workspaces("\n \n").is_empty());
}

#[test]
fn focused_workspace_is_first_non_blank_line() {
    assert_eq!(focused_workspace("\n  \n 2 \n3\n"), Some(String::from("2")));
    assert_eq!(focused_workspace(" \n\t\n"), None);
    assert_eq!(focused_workspace(""), None);
}

#[test]
fn invalid_workspaces_are_refused_before_sending() {
    let aerospace = FakeAerospace::new();

    let empty = focus_workspace_with_client("  ", &aerospace)
        .err()
        .map(|error| error.message());
    let control = focus_workspace_with_client("1\n2", &aerospace)
        .err()
        .map(|error| error.message());

    assert_eq!(empty.as_deref(), Some("invalid workspace: must not be empty"));
    assert_eq!(
        control.as_deref(),
        Some("invalid workspace: must not contain control characters")
    );
    assert!(aerospace.commands().is_empty());
}

#[test]
fn focus_workspace_sends_workspace_command() {
    let aerospace = FakeAerospace::new();

    focus_workspace_with_client("dev", &aerospace).expect("focus succeeds");

    assert_eq!(aerospace.commands(), vec![vec!["workspace", "dev"]]);
}

#[test]
fn failed_response_reports_command_line_and_stderr() {
    let response = AerospaceResponse::from_parts(
        String::from("0.20.0-Beta abc"),
        String::from("no such workspace"),
        String::new(),
        2,
    );

    let error = response
        .ensure_success("workspace", &["9"])
        .err()
        .map(|error| error.message());

    assert_eq!(
        error.as_deref(),
        Some("aerospace command failed: workspace 9 exited 2: no such workspace")
    );
}

#[test]
fn successful_response_is_kept() {
    let response = AerospaceResponse::success(String::from("main\n"));

    let kept = response.ensure_success("list-modes", &["--current"]).ok();

    assert_eq!(kept.as_ref().map(AerospaceResponse::stdout), Some("main\n"));
    assert_eq!(kept.as_ref().map(AerospaceResponse::exit_code), Some(0));
}

#[test]
fn negative_exit_code_is_reported_with_sign() {
    let error = AerospaceError::CommandFailed {
        command: String::from("list-windows --all"),
        exit_code: -3,
        stderr: String::new(),
    };

    assert_eq!(
        error.message(),
        "aerospace command failed: list-windows --all exited -3: "
    );
}

#[test]
fn command_line_joins_command_and_arguments() {
    assert_eq!(
        command_line("list-windows", &["--all", "--format", "%{workspace}"]),
        "list-windows --all --format %{workspace}"
    );
    assert_eq!(command_line("list-modes", &[]), "list-modes");
}

#[test]
fn socket_path_prefers_explicit_socket() {
    let explicit = socket_path(
        Some(String::from("/tmp/custom.sock")),
        Some(String::from("alice")),
    );
    let from_user = socket_path(None, Some(String::from("alice")));
    let blank_socket = socket_path(Some(String::new()), Some(String::from("bob")));
    let missing = socket_path(None, None)
        .err()
        .map(|error| error.message());

    assert_eq!(explicit.ok().as_deref(), Some("/tmp/custom.sock"));
    assert_eq!(
        from_user.ok().as_deref(),
        Some("/tmp/bobko.aerospace-alice.sock")
    );
    assert_eq!(
        blank_socket.ok().as_deref(),
        Some("/tmp/bobko.aerospace-bob.sock")
    );
    assert_eq!(
        missing.as_deref(),
        Some("AEROSPACESOCK was not set and USER was not available")
    );
}

#[test]
fn parse_u64_accepts_only_decimal_digits_in_range() {
    assert_eq!(parse_u64("0"), Some(0));
    assert_eq!(parse_u64("+17"), Some(17));
    assert_eq!(parse_u64("18446744073709551615"), Some(u64::MAX));
    assert_eq!(parse_u64("18446744073709551616"), None);
    assert_eq!(parse_u64(""), None);
    assert_eq!(parse_u64("+"), None);
    assert_eq!(parse_u64("-1"), None);
    assert_eq!(parse_u64("12a"), None);
    assert_eq!(parse_u64(" 1"), None);
}

#[test]
fn request_carries_callback_environment() {
    let request = AerospaceRequest::from_env_values(
        "list-workspaces",
        &["--focused"],
        Some(String::from("42")),
        Some(String::from("dev")),
        Some(String::from("other")),
    );

    assert_eq!(request.command(), "");
    assert_eq!(
        request.args(),
        &[String::from("list-workspaces"), String::from("--focused")]
    );
    assert_eq!(request.stdin(), "");
    assert_eq!(request.window_id(), Some(42));
    assert_eq!(request.workspace(), Some("dev"));

    let unparsable =
        AerospaceRequest::from_env_values("list-modes", &[], Some(String::from("x")), None, None);
    assert_eq!(unparsable.window_id(), None);
    assert_eq!(unparsable.workspace(), None);
}

#[test]
fn resolve_workspace_prefers_explicit_then_workspace_then_name() {
    assert_eq!(
        resolve_workspace(
            Some(String::from("1")),
            Some(String::from("2")),
            Some(String::from("3"))
        ),
        Some(String::from("1"))
    );
    assert_eq!(
        resolve_workspace(None, Some(String::from("2")), Some(String::from("3"))),
        Some(String::from("2"))
    );
    assert_eq!(
        resolve_workspace(None, None, Some(String::from("3"))),
        Some(String::from("3"))
    );
    assert_eq!(resolve_workspace(None, None, None), None);
}

#[test]
fn request_falls_back_to_focused_workspace() {
    let request = AerospaceRequest::from_env_values(
        "workspace",
        &["2"],
        None,
        None,
        Some(String::from("dev")),
    );

    assert_eq!(request.command(), "");
    assert_eq!(
        request.args(),
        &[String::from("workspace"), String::from("2")]
    );
    assert_eq!(request.stdin(), "");
    assert_eq!(request.window_id(), None);
    assert_eq!(request.workspace(), Some("dev"));
}

#[test]
fn focus_failure_from_client_is_passed_on() {
    let aerospace = FailingAerospace {
        command: "workspace",
    };

    let error = focus_workspace_with_client("2", &aerospace)
        .err()
        .map(|error| error.message());

    assert_eq!(
        error.as_deref(),
        Some("aerospace command failed: workspace exited 1: AeroSpace failed")
    );
}
