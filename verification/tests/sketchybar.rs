use std::collections::BTreeMap;

use spindle_extensions::sketchybar::cache::{
    cache_file_path, default_state_dir, endpoint_marker_path, plan_cache_invalidation,
    plan_endpoint_sync, resolve_state_dir, should_clear_cache_entry, should_invalidate_cache,
    validate_cache_key, CacheInvalidation, EndpointAvailability, EndpointMarker, EndpointSync,
    StateDirEnv,
};
use spindle_extensions::sketchybar::send::{
    CachedSend, CachedSendAction, CachedSendEvent, CachedSendStep,
};
use spindle_extensions::sketchybar::ipc::{
    bar_name_error, message_len, probe, probe_outcome, send, send_outcome,
};
use spindle_extensions::sketchybar::{
    availability_from_probe, resolve_message_args, send_cache, send_state_dir, MachEndpointProbe, SketchybarClient, EndpointProbe, CachedMessageRequest, MessageArgsError, SketchybarError,
    SketchybarMachClient, SketchybarMessage,
};

const STATE_DIR: &str = "/state";

fn no_env() -> StateDirEnv {
    StateDirEnv {
        sketchybar_state_dir: None,
        spindle_state_dir: None,
        tmpdir: None,
    }
}

/// An in-memory cache directory, endpoint and client.
struct World {
    files: BTreeMap<String, String>,
    availability: EndpointAvailability,
    send_fails: bool,
    sends: usize,
}

impl World {
    fn new(availability: EndpointAvailability) -> Self {
        Self {
            files: BTreeMap::new(),
            availability,
            send_fails: false,
            sends: 0,
        }
    }

    fn write_cache(&mut self, key: &str, value: &str) {
        self.files
            .insert(cache_file_path(STATE_DIR, key), String::from(value));
    }

    fn cached(&self, key: &str) -> Option<&str> {
        self.files
            .get(&cache_file_path(STATE_DIR, key))
            .map(String::as_str)
    }

    fn clear_cache_dir(&mut self) {
        let prefix = format!("{STATE_DIR}/");
        self.files.retain(|path, _| {
            let name = path.strip_prefix(&prefix).unwrap_or(path);
            !should_clear_cache_entry(name)
        });
    }

    fn sync_endpoint(&mut self, bar_name: &str, availability: EndpointAvailability) {
        self.availability = availability;
        let marker_path = endpoint_marker_path(STATE_DIR);
        let previous = self
            .files
            .get(&marker_path)
            .and_then(|contents| EndpointMarker::parse(contents));
        let current = EndpointMarker::new(String::from(bar_name), availability);
        match plan_endpoint_sync(previous.as_ref(), &current) {
            EndpointSync::Unchanged => {}
            EndpointSync::Record { clear_cache } => {
                if clear_cache {
                    self.clear_cache_dir();
                }
                self.files.insert(marker_path, current.as_line());
            }
        }
    }

    fn run(&mut self, request: &CachedMessageRequest) -> Result<(), SketchybarError> {
        let mut send = CachedSend::new(request, &no_env());
        let mut action = send.start();
        loop {
            let event = match action {
                CachedSendAction::Send => {
                    self.sends += 1;
                    if self.send_fails {
                        CachedSendEvent::Sent(Err(SketchybarError::Mach {
                            operation: "test",
                            code: -1,
                        }))
                    } else {
                        CachedSendEvent::Sent(Ok(String::new()))
                    }
                }
                CachedSendAction::ProbeEndpoint => CachedSendEvent::Probed(Ok(self.availability)),
                CachedSendAction::ReadMarker => {
                    CachedSendEvent::MarkerRead(Ok(self.files.get(&send.marker_path()).cloned()))
                }
                CachedSendAction::ClearCacheDir => {
                    self.clear_cache_dir();
                    CachedSendEvent::CacheDirCleared(Ok(()))
                }
                CachedSendAction::WriteMarker => {
                    self.files.insert(send.marker_path(), send.marker_line());
                    CachedSendEvent::MarkerWritten(Ok(()))
                }
                CachedSendAction::ReadCache => {
                    CachedSendEvent::CacheRead(Ok(self.files.get(&send.cache_path()).cloned()))
                }
                CachedSendAction::ClearCacheKey => {
                    self.files.remove(&send.cache_path());
                    CachedSendEvent::CacheKeyCleared
                }
                CachedSendAction::WriteCache => {
                    self.files
                        .insert(send.cache_path(), String::from(send.cache_value()));
                    CachedSendEvent::CacheWritten(Ok(()))
                }
                CachedSendAction::Finish => return send.into_outcome(),
            };
            action = send.step(event);
        }
    }
}

fn strings(args: &[&str]) -> Vec<String> {
    args.iter().map(|arg| String::from(*arg)).collect()
}

#[test]
fn sketchybar_message_matches_cli_wire_format() {
    let message = SketchybarMessage::from_args(&strings(&["--set", "status.item", "label=N"]));

    assert_eq!(message.as_bytes(), b"--set\0status.item\0label=N\0\0");
}

#[test]
fn empty_message_is_a_single_nul() {
    assert_eq!(SketchybarMessage::from_args(&[]).as_bytes(), b"\0");
    assert_eq!(
        SketchybarMessage::from_args(&strings(&["", "é"])).as_bytes(),
        "\0é\0\0".as_bytes()
    );
}

#[test]
fn resolve_state_dir_prefers_explicit_path() {
    let env = StateDirEnv {
        sketchybar_state_dir: Some(String::from("/env")),
        spindle_state_dir: None,
        tmpdir: None,
    };

    assert_eq!(resolve_state_dir(Some(String::from("/explicit")), &env), "/explicit");
    assert_eq!(resolve_state_dir(None, &env), "/env");
}

#[test]
fn default_state_dir_follows_environment_order() {
    let all = StateDirEnv {
        sketchybar_state_dir: Some(String::from("/a")),
        spindle_state_dir: Some(String::from("/b")),
        tmpdir: Some(String::from("/c")),
    };
    let spindle = StateDirEnv {
        sketchybar_state_dir: Some(String::new()),
        spindle_state_dir: Some(String::from("/b")),
        tmpdir: Some(String::from("/c")),
    };
    let tmp = StateDirEnv {
        sketchybar_state_dir: None,
        spindle_state_dir: None,
        tmpdir: Some(String::from("/var/tmp/")),
    };

    assert_eq!(default_state_dir(&all), "/a");
    assert_eq!(default_state_dir(&spindle), "/b");
    assert_eq!(default_state_dir(&tmp), "/var/tmp/sketchybar-cache");
    assert_eq!(default_state_dir(&no_env()), "/tmp/sketchybar-cache");
}

#[test]
fn cache_paths_live_under_state_dir() {
    assert_eq!(
        cache_file_path("/state", "test.workspaces"),
        "/state/test.workspaces.state"
    );
    assert_eq!(endpoint_marker_path("/state/"), "/state/sketchybar.endpoint");
}

#[test]
fn cache_keys_are_validated() {
    let empty = validate_cache_key("  ").err().map(|error| error.message());
    let slash = validate_cache_key("a/b").err().map(|error| error.message());
    let control = validate_cache_key("a\nb").err().map(|error| error.message());

    assert!(validate_cache_key("workspace-indicator.workspaces").is_ok());
    assert_eq!(
        empty.as_deref(),
        Some("invalid cache key: cache key must not be empty")
    );
    assert_eq!(
        slash.as_deref(),
        Some("invalid cache key: cache key contains invalid characters: \"a/b\"")
    );
    assert_eq!(
        control.as_deref(),
        Some("invalid cache key: cache key contains invalid characters: \"a\\nb\"")
    );
}

#[test]
fn marker_line_round_trips() {
    let marker = EndpointMarker::new(String::from("sketchybar"), EndpointAvailability::Unavailable);
    let line = marker.as_line();
    let parsed = EndpointMarker::parse(&format!("  {line}\n"));

    assert_eq!(line, "sketchybar|unavailable");
    assert_eq!(parsed.as_ref().map(EndpointMarker::bar_name), Some("sketchybar"));
    assert_eq!(
        parsed.as_ref().map(EndpointMarker::availability),
        Some(EndpointAvailability::Unavailable)
    );
    assert!(EndpointMarker::parse("sketchybar|down").is_none());
    assert!(EndpointMarker::parse("sketchybar").is_none());
}

#[test]
fn cache_invalidation_follows_marker_changes() {
    let up = EndpointMarker::new(String::from("bar"), EndpointAvailability::Available);
    let down = EndpointMarker::new(String::from("bar"), EndpointAvailability::Unavailable);
    let other = EndpointMarker::new(String::from("other"), EndpointAvailability::Available);

    assert!(should_invalidate_cache(Some(&down), &up));
    assert!(should_invalidate_cache(Some(&up), &other));
    assert!(!should_invalidate_cache(Some(&up), &down));
    assert!(!should_invalidate_cache(None, &up));
    assert_eq!(plan_endpoint_sync(Some(&up), &up), EndpointSync::Unchanged);
    assert_eq!(
        plan_endpoint_sync(None, &up),
        EndpointSync::Record { clear_cache: false }
    );
    assert_eq!(
        plan_endpoint_sync(Some(&down), &up),
        EndpointSync::Record { clear_cache: true }
    );
}

#[test]
fn only_state_files_and_marker_are_cleared() {
    assert!(should_clear_cache_entry("test.workspaces.state"));
    assert!(should_clear_cache_entry("sketchybar.endpoint"));
    assert!(!should_clear_cache_entry(".state"));
    assert!(!should_clear_cache_entry("notes.txt"));
    assert!(!should_clear_cache_entry("state"));
    assert!(!should_clear_cache_entry("x.state.tmp"));
}

#[test]
fn invalidation_plans_key_or_directory() {
    let key = plan_cache_invalidation(
        Some(String::from("/state")),
        &no_env(),
        Some("workspace-indicator.workspaces"),
    );
    let dir = plan_cache_invalidation(None, &no_env(), None);
    let bad = plan_cache_invalidation(None, &no_env(), Some(""));

    assert!(matches!(
        key,
        Ok(CacheInvalidation::Entry { ref path }) if path == "/state/workspace-indicator.workspaces.state"
    ));
    assert!(matches!(
        dir,
        Ok(CacheInvalidation::Directory { ref path }) if path == "/tmp/sketchybar-cache"
    ));
    assert!(matches!(bad, Err(SketchybarError::InvalidCacheKey(_))));
}

#[test]
fn endpoint_transition_clears_state_files() {
    let mut world = World::new(EndpointAvailability::Unavailable);
    world.write_cache("test.workspaces", "snapshot");
    world.sync_endpoint("sketchybar", EndpointAvailability::Unavailable);

    world.sync_endpoint("sketchybar", EndpointAvailability::Available);

    assert_eq!(world.cached("test.workspaces"), None);
    let marker = world
        .files
        .get(&endpoint_marker_path(STATE_DIR))
        .and_then(|contents| EndpointMarker::parse(contents));
    assert_eq!(marker.as_ref().map(EndpointMarker::bar_name), Some("sketchybar"));
    assert_eq!(
        marker.as_ref().map(EndpointMarker::availability),
        Some(EndpointAvailability::Available)
    );
}

#[test]
fn bar_name_change_clears_state_files() {
    let mut world = World::new(EndpointAvailability::Available);
    world.write_cache("test.status.layout", "TILE|0xff3fb950");
    world.sync_endpoint("sketchybar", EndpointAvailability::Available);

    world.sync_endpoint("other-bar", EndpointAvailability::Available);

    assert_eq!(world.cached("test.status.layout"), None);
}

#[test]
fn uncached_message_sends_without_writing_cache_files() {
    let mut world = World::new(EndpointAvailability::Available);
    let args = strings(&["--set", "clock.date"]);

    let result = world.run(&CachedMessageRequest {
        state_dir: Some(String::from(STATE_DIR)),
        args: &args,
        cache: None,
        bar_name: "sketchybar",
    });

    assert!(result.is_ok());
    assert_eq!(world.sends, 1);
    assert_eq!(world.files.len(), 0);
}

#[test]
fn cache_hit_skips_send() {
    let mut world = World::new(EndpointAvailability::Available);
    let cache_key = String::from("test.workspaces");
    let cache_value = String::from("2\n 1  2 \n");
    world.write_cache(&cache_key, &cache_value);
    world.sync_endpoint("sketchybar", EndpointAvailability::Available);
    let args = strings(&["--set", "ws.1"]);

    let result = world.run(&CachedMessageRequest {
        state_dir: Some(String::from(STATE_DIR)),
        args: &args,
        cache: Some(&(cache_key, cache_value)),
        bar_name: "sketchybar",
    });

    assert!(result.is_ok());
    assert_eq!(world.sends, 0);
}

#[test]
fn cache_miss_sends_and_writes_cache() {
    let mut world = World::new(EndpointAvailability::Available);
    let cache_key = String::from("test.workspaces");
    let cache_value = String::from("2\n 1  2 \n");
    world.sync_endpoint("sketchybar", EndpointAvailability::Available);
    let args = strings(&["--set", "ws.1"]);

    let result = world.run(&CachedMessageRequest {
        state_dir: Some(String::from(STATE_DIR)),
        args: &args,
        cache: Some(&(cache_key.clone(), cache_value.clone())),
        bar_name: "sketchybar",
    });

    assert!(result.is_ok());
    assert_eq!(world.sends, 1);
    assert_eq!(world.cached(&cache_key), Some(cache_value.as_str()));
}

#[test]
fn endpoint_restart_allows_resend_with_same_cache_value() {
    let mut world = World::new(EndpointAvailability::Unavailable);
    let cache_key = String::from("test.status.layout");
    let cache_value = String::from("TILE|0xff3fb950");
    world.write_cache(&cache_key, &cache_value);
    world.sync_endpoint("sketchybar", EndpointAvailability::Unavailable);
    world.availability = EndpointAvailability::Available;
    let args = strings(&[
        "--set",
        "aerospace.layout",
        "label=TILE",
        "label.color=0xff3fb950",
    ]);

    let result = world.run(&CachedMessageRequest {
        state_dir: Some(String::from(STATE_DIR)),
        args: &args,
        cache: Some(&(cache_key, cache_value)),
        bar_name: "sketchybar",
    });

    assert!(result.is_ok());
    assert_eq!(world.sends, 1);
}

#[test]
fn mach_send_failure_clears_affected_cache_key() {
    let mut world = World::new(EndpointAvailability::Available);
    let cache_key = String::from("test.workspaces");
    world.write_cache(&cache_key, "stale-snapshot");
    world.sync_endpoint("sketchybar", EndpointAvailability::Available);
    world.send_fails = true;
    let args = strings(&["--set", "ws.1"]);

    let result = world.run(&CachedMessageRequest {
        state_dir: Some(String::from(STATE_DIR)),
        args: &args,
        cache: Some(&(cache_key.clone(), String::from("new-snapshot"))),
        bar_name: "sketchybar",
    });

    assert!(result.is_err());
    assert_eq!(world.cached(&cache_key), None);
}

#[test]
fn invalid_cache_key_is_refused_before_sending() {
    let mut world = World::new(EndpointAvailability::Available);
    let args = strings(&["--set", "ws.1"]);

    let result = world.run(&CachedMessageRequest {
        state_dir: Some(String::from(STATE_DIR)),
        args: &args,
        cache: Some(&(String::from("../escape"), String::from("x"))),
        bar_name: "sketchybar",
    });

    assert!(matches!(result, Err(SketchybarError::InvalidCacheKey(_))));
    assert_eq!(world.sends, 0);
}

#[test]
fn cached_send_starts_by_probing() {
    let args = strings(&["--set", "ws.1"]);
    let cache = (String::from("k"), String::from("v"));
    let mut send = CachedSend::new(
        &CachedMessageRequest {
            state_dir: None,
            args: &args,
            cache: Some(&cache),
            bar_name: "sketchybar",
        },
        &no_env(),
    );

    assert_eq!(send.step_kind(), CachedSendStep::Start);
    assert_eq!(send.start(), CachedSendAction::ProbeEndpoint);
    assert_eq!(send.state_dir(), "/tmp/sketchybar-cache");
    assert_eq!(send.cache_path(), "/tmp/sketchybar-cache/k.state");
    assert_eq!(send.args(), &args[..]);
}

#[test]
fn message_args_come_from_cli_first() {
    let cli = strings(&["--set", "a"]);
    let action = strings(&["--set", "b"]);

    assert_eq!(
        resolve_message_args(cli.clone(), action.clone()).ok(),
        Some(cli)
    );
    assert_eq!(
        resolve_message_args(Vec::new(), action.clone()).ok(),
        Some(action)
    );
}

#[test]
fn message_args_errors() {
    let none = resolve_message_args(Vec::new(), Vec::new())
        .err()
        .map(|error| error.message());
    let control = resolve_message_args(strings(&["--set", "a\u{7}b", "c\td"]), Vec::new());

    assert_eq!(none.as_deref(), Some("no SketchyBar arguments were provided"));
    assert!(matches!(
        &control,
        Err(MessageArgsError::ControlCharacters(arg)) if arg == "a\u{7}b"
    ));
    assert_eq!(
        control.err().map(|error| error.message()).as_deref(),
        Some("SketchyBar argument contains control characters: \"a\\u{7}b\"")
    );
}

#[test]
fn error_messages_match_their_variants() {
    assert_eq!(
        SketchybarError::Mach {
            operation: "bootstrap_look_up",
            code: 1102
        }
        .message(),
        "mach ipc failed: bootstrap_look_up returned 1102"
    );
    assert_eq!(
        SketchybarError::UnsupportedPlatform {
            transport: "sketchybar mach"
        }
        .message(),
        "sketchybar mach transport is only available on macOS"
    );
    assert_eq!(
        SketchybarError::CommandFailed(String::from("bad")).message(),
        "sketchybar command failed: bad"
    );
    let io = SketchybarError::Io {
        path: String::from("/state/x.state"),
        source: std::io::Error::new(std::io::ErrorKind::Other, "disk full"),
    };
    assert_eq!(io.message(), "io error at /state/x.state: disk full");
}

#[test]
fn mach_client_defaults_to_sketchybar() {
    assert_eq!(SketchybarMachClient::from_env_value(None).bar_name(), "sketchybar");
    assert_eq!(
        SketchybarMachClient::from_env_value(Some(String::from("bottom"))).bar_name(),
        "bottom"
    );
}

#[test]
fn mach_return_codes_are_read() {
    assert!(probe_outcome(0).is_ok());
    assert!(matches!(
        probe_outcome(1102),
        Err(SketchybarError::Mach { operation: "spindle_sketchybar_probe", code: 1102 })
    ));
    assert_eq!(send_outcome(0).ok().as_deref(), Some(""));
    assert!(matches!(
        send_outcome(-5),
        Err(SketchybarError::Mach { operation: "spindle_sketchybar_send", code: -5 })
    ));
    assert_eq!(message_len(12).ok(), Some(12));
}

#[test]
fn bar_names_with_nul_are_refused() {
    assert!(bar_name_error("sketchybar").is_none());
    assert!(matches!(
        bar_name_error("bar\0name"),
        Some(SketchybarError::CommandFailed(ref text)) if text == "bar name contains NUL"
    ));
}

#[test]
fn probe_results_map_to_availability() {
    assert_eq!(
        availability_from_probe(Ok(())).ok(),
        Some(EndpointAvailability::Available)
    );
    assert_eq!(
        availability_from_probe(Err(SketchybarError::Mach { operation: "x", code: 3 })).ok(),
        Some(EndpointAvailability::Unavailable)
    );
    assert!(matches!(
        availability_from_probe(Err(SketchybarError::CommandFailed(String::from("bad")))),
        Err(SketchybarError::CommandFailed(_))
    ));
}

#[test]
fn mach_transport_is_unavailable_in_this_build() {
    let client = SketchybarMachClient::new(String::from("sketchybar"));
    let message = SketchybarMessage::from_args(&strings(&["--query", "bar"]));

    assert!(matches!(
        probe("sketchybar"),
        Err(SketchybarError::UnsupportedPlatform { transport: "sketchybar mach" })
    ));
    assert!(matches!(
        send("sketchybar", message.as_bytes()),
        Err(SketchybarError::UnsupportedPlatform { .. })
    ));
    assert!(matches!(
        client.send_message(&message),
        Err(SketchybarError::UnsupportedPlatform { .. })
    ));
    assert!(matches!(
        MachEndpointProbe.availability("sketchybar"),
        Err(SketchybarError::UnsupportedPlatform { .. })
    ));
}

#[test]
fn send_options_prefer_action_state_dir_and_need_both_cache_parts() {
    let s = |v: &str| Some(String::from(v));

    assert_eq!(send_state_dir(s("/action"), s("/cli")), s("/action"));
    assert_eq!(send_state_dir(None, s("/cli")), s("/cli"));
    assert_eq!(send_state_dir(None, None), None);
    assert_eq!(
        send_cache(s("k"), s("v")),
        Some((String::from("k"), String::from("v")))
    );
    assert_eq!(send_cache(s("k"), None), None);
    assert_eq!(send_cache(None, s("v")), None);
}
