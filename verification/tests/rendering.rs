use spindle_extensions::workspace_indicator::{
    build_layout_status, build_mode_status, build_status_message, build_workspace_message,
    continuation_succeeded, parse_workspaces, resolve_item, RenderSchedule, WorkspaceSnapshot,
};

#[test]
fn workspace_message_matches_existing_sketchybar_items() {
    let workspaces = ["1", "2", "10"];
    let occupied = vec![String::from("2"), String::from("10")];
    let snapshot = WorkspaceSnapshot::new(Some(String::from("10")), occupied);

    let request = build_workspace_message(&workspaces, &snapshot).expect("valid workspaces");

    assert_eq!(request.cache_key(), "workspace-indicator.workspaces");
    assert_eq!(request.cache_value(), "10\n 2  10 \n");
    assert_eq!(
        request.args(),
        &[
            "--set",
            "aerospace.workspace.1",
            "label=1",
            "label.color=0xff8b949e",
            "label.font=SF Pro Text:Medium:13.0",
            "label.width=24",
            "label.align=center",
            "label.padding_left=0",
            "label.padding_right=0",
            "background.drawing=off",
            "background.color=0xff1f2328",
            "--set",
            "aerospace.workspace.2",
            "label=2",
            "label.color=0xffc9d1d9",
            "label.font=SF Pro Text:Medium:13.0",
            "label.width=24",
            "label.align=center",
            "label.padding_left=0",
            "label.padding_right=0",
            "background.drawing=on",
            "background.color=0xff3a4048",
            "--set",
            "aerospace.workspace.10",
            "label=0",
            "label.color=0xff1f2328",
            "label.font=SF Pro Text:Semibold:13.0",
            "label.width=24",
            "label.align=center",
            "label.padding_left=0",
            "label.padding_right=0",
            "background.drawing=on",
            "background.color=0xffd2a8ff",
        ]
    );
}

#[test]
fn single_active_workspace_request_carries_cache_fields() {
    let workspaces = ["1"];
    let snapshot = WorkspaceSnapshot::new(Some(String::from("1")), Vec::new());

    let request = build_workspace_message(&workspaces, &snapshot).expect("valid workspaces");

    assert_eq!(
        request.args(),
        &[
            "--set",
            "aerospace.workspace.1",
            "label=1",
            "label.color=0xff1f2328",
            "label.font=SF Pro Text:Semibold:13.0",
            "label.width=24",
            "label.align=center",
            "label.padding_left=0",
            "label.padding_right=0",
            "background.drawing=on",
            "background.color=0xffd2a8ff",
        ]
    );
    assert_eq!(request.cache_key(), "workspace-indicator.workspaces");
    assert_eq!(request.cache_value(), "1\n\n");
}

#[test]
fn mode_status_matches_existing_mode_colors() {
    let request = build_mode_status("aerospace.mode", "service");

    assert_eq!(
        request.cache_key(),
        "workspace-indicator.status.aerospace.mode"
    );
    assert_eq!(request.cache_value(), "S|0xff1f2328|0xffff7b72");
    assert_eq!(
        request.args(),
        &[
            "--set",
            "aerospace.mode",
            "label=S",
            "label.color=0xff1f2328",
            "background.color=0xffff7b72",
        ]
    );
}

#[test]
fn layout_status_matches_existing_window_layout_labels() {
    let tiled = build_layout_status("aerospace.layout", Some("false|h_tiles"));
    let fullscreen = build_layout_status("aerospace.layout", Some("true|h_tiles"));
    let none = build_layout_status("aerospace.layout", None);

    assert_eq!(tiled.cache_value(), "TILE|0xff3fb950");
    assert_eq!(
        tiled.args(),
        &[
            "--set",
            "aerospace.layout",
            "label=TILE",
            "label.color=0xff3fb950",
        ]
    );
    assert_eq!(fullscreen.cache_value(), "FULL|0xffd29922");
    assert_eq!(none.cache_value(), "NONE|0xff8b949e");
}

#[test]
fn unknown_status_item_does_not_emit_message() {
    assert!(build_status_message("clock", Some("main"), None).is_none());
}

#[test]
fn other_modes_and_layouts_use_their_labels() {
    let resize = build_mode_status("aerospace.mode", "resize");
    let main = build_mode_status("aerospace.mode", "main");
    let custom = build_mode_status("aerospace.mode", "custom");
    let floating = build_layout_status("aerospace.layout", Some("false|floating"));
    let accordion = build_layout_status("aerospace.layout", Some("false|v_accordion"));

    assert_eq!(resize.cache_value(), "R|0xff1f2328|0xff56d4dd");
    assert_eq!(
        main.args(),
        &[
            "--set",
            "aerospace.mode",
            "label=N",
            "label.color=0xffc9d1d9",
            "background.color=0xff3a4048",
        ]
    );
    assert_eq!(custom.args()[2], "label=C");
    assert_eq!(custom.cache_value(), "C|0xff1f2328|0xffd2a8ff");
    assert_eq!(floating.cache_value(), "FLOAT|0xffa371f7");
    assert_eq!(accordion.cache_value(), "ACCORD|0xff58a6ff");
}

#[test]
fn missing_mode_renders_unknown_mode() {
    let request = build_status_message("aerospace.mode", None, None).expect("managed item");

    assert_eq!(request.cache_key(), "workspace-indicator.status.aerospace.mode");
    assert_eq!(request.args()[2], "label=?");
}

#[test]
fn invalid_workspace_lists_are_refused() {
    let snapshot = WorkspaceSnapshot::new(None, Vec::new());

    let empty = build_workspace_message(&[], &snapshot)
        .err()
        .map(|error| error.message());
    let blank = build_workspace_message(&["1", " "], &snapshot)
        .err()
        .map(|error| error.message());
    let control = build_workspace_message(&["1\t"], &snapshot)
        .err()
        .map(|error| error.message());

    assert_eq!(
        empty.as_deref(),
        Some("invalid workspaces: must contain at least one workspace")
    );
    assert_eq!(blank.as_deref(), Some("invalid workspace: must not be empty"));
    assert_eq!(
        control.as_deref(),
        Some("invalid workspace: must not contain control characters")
    );
}

#[test]
fn parse_workspaces_trims_and_drops_empty_pieces() {
    assert_eq!(
        parse_workspaces(" 1, 2 ,,dev ,").ok(),
        Some(vec![String::from("1"), String::from("2"), String::from("dev")])
    );
    assert_eq!(
        parse_workspaces("1,2,3,4,5,6,7,8,9,10").map(|w| w.len()).ok(),
        Some(10)
    );
    assert_eq!(
        parse_workspaces(" , ,").err().map(|error| error.message()).as_deref(),
        Some("--workspaces must contain at least one workspace")
    );
    assert!(parse_workspaces("").is_err());
}

#[test]
fn resolve_item_prefers_explicit_then_item_then_name_then_env() {
    let s = |v: &str| Some(String::from(v));

    assert_eq!(resolve_item(s("a"), s("b"), s("c"), s("d")), s("a"));
    assert_eq!(resolve_item(None, s("b"), s("c"), s("d")), s("b"));
    assert_eq!(resolve_item(None, None, s("c"), s("d")), s("c"));
    assert_eq!(resolve_item(None, None, None, s("d")), s("d"));
    assert_eq!(resolve_item(None, None, None, None), None);
}

#[test]
fn later_schedule_supersedes_earlier_one() {
    let mut schedule = RenderSchedule::new();

    let first = schedule.schedule();
    let second = schedule.schedule();

    assert_eq!(first, 1);
    assert_eq!(second, 2);
    assert!(!schedule.is_latest(first));
    assert!(schedule.is_latest(second));
}

#[test]
fn continuation_reply_reports_success_only_for_ok_status() {
    assert!(continuation_succeeded("{\"status\":\"ok\",\"data\":{}}\n"));
    assert!(!continuation_succeeded("{\"status\":\"error\",\"message\":\"x\"}"));
    assert!(!continuation_succeeded("{\"status\":1}"));
    assert!(!continuation_succeeded("{}"));
    assert!(!continuation_succeeded("{\"state\":\"ok\"}"));
    assert!(!continuation_succeeded("{\"data\":{\"status\":\"ok\"}}"));
    assert!(!continuation_succeeded("not json"));
    assert!(!continuation_succeeded(""));
}
