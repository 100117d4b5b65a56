use spindle_extensions::surface::{check_surface, SurfaceError, SurfaceKind, SurfaceRequirement};

fn requirement(kind: SurfaceKind, name: &str, available: bool) -> SurfaceRequirement {
    SurfaceRequirement {
        kind,
        name: String::from(name),
        available,
    }
}

#[test]
fn surface_without_host_context_is_accepted() {
    assert!(check_surface(None).is_ok());
}

#[test]
fn granted_surface_is_accepted() {
    let requirements = [
        requirement(SurfaceKind::Event, "clock.sketchybar.message.requested", true),
        requirement(SurfaceKind::Action, "sketchybar.message.send", true),
    ];

    assert!(check_surface(Some(&requirements)).is_ok());
}

#[test]
fn missing_action_is_reported() {
    let requirements = [
        requirement(SurfaceKind::Event, "clock.sketchybar.message.requested", true),
        requirement(SurfaceKind::Action, "sketchybar.message.send", false),
    ];

    let error = check_surface(Some(&requirements)).err().map(|e| e.message());

    assert_eq!(
        error.as_deref(),
        Some("required action is not available: sketchybar.message.send")
    );
}

#[test]
fn first_missing_requirement_wins() {
    let requirements = [
        requirement(SurfaceKind::Event, "clock.sketchybar.message.requested", false),
        requirement(SurfaceKind::Action, "sketchybar.message.send", false),
    ];

    let error = check_surface(Some(&requirements));

    assert!(matches!(
        &error,
        Err(SurfaceError::MissingEvent(name)) if name == "clock.sketchybar.message.requested"
    ));
    assert_eq!(
        error.err().map(|e| e.message()).as_deref(),
        Some("required event is not available: clock.sketchybar.message.requested")
    );
}
