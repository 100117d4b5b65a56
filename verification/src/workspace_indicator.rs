//! Projection of workspace, mode and layout state into `SketchyBar`
//! message requests.
//!
//! This module talks to neither `AeroSpace` nor `SketchyBar`: it turns
//! provider snapshots into generic message requests, each with the cache key
//! and value under which the sketchybar provider may skip a redundant write.

use vstd::prelude::*;

use crate::text::{
    concat2, concat3, contains_seq, contains_str, has_control, has_control_str, is_blank,
    is_blank_str, lemma_first_index_at, rsplit_once, rsplit_once_str, split_on, split_once,
    split_once_str, split_str, str_eq, str_views, string_views, trim, trim_str,
};

verus! {

/// Event emitted when a generic `SketchyBar` message should be sent.
pub const OUTPUT_EVENT: &'static str = "workspace-indicator.sketchybar.message.requested";

pub const EMPTY_LABEL_COLOR: &'static str = "0xff8b949e";
pub const NORMAL_LABEL_COLOR: &'static str = "0xffc9d1d9";
pub const ACTIVE_LABEL_COLOR: &'static str = "0xff1f2328";
pub const EMPTY_BACKGROUND_COLOR: &'static str = "0xff1f2328";
pub const OCCUPIED_BACKGROUND_COLOR: &'static str = "0xff3a4048";
pub const ACTIVE_BACKGROUND_COLOR: &'static str = "0xffd2a8ff";
pub const MEDIUM_FONT: &'static str = "SF Pro Text:Medium:13.0";
pub const SEMIBOLD_FONT: &'static str = "SF Pro Text:Semibold:13.0";

pub const MODE_SERVICE_COLOR: &'static str = "0xffff7b72";
pub const MODE_RESIZE_COLOR: &'static str = "0xff56d4dd";
pub const LAYOUT_FULLSCREEN_COLOR: &'static str = "0xffd29922";
pub const LAYOUT_FLOATING_COLOR: &'static str = "0xffa371f7";
pub const LAYOUT_ACCORDION_COLOR: &'static str = "0xff58a6ff";
pub const LAYOUT_TILED_COLOR: &'static str = "0xff3fb950";

/// Error returned by the workspace indicator extension.
#[derive(Debug)]
pub enum WorkspaceIndicatorError {
    /// A workspace value cannot be rendered safely.
    InvalidWorkspace {
        /// Validation failure reason.
        reason: &'static str,
    },
    /// A configured workspace list does not contain any usable workspace.
    EmptyWorkspaces,
}

impl WorkspaceIndicatorError {
    /// The text this error is reported with.
    pub fn message(&self) -> (r: String)
        ensures
            r@ == match self {
                WorkspaceIndicatorError::InvalidWorkspace { reason } => "invalid workspace: "@
                    + reason@,
                WorkspaceIndicatorError::EmptyWorkspaces =>
                    "invalid workspaces: must contain at least one workspace"@,
            },
    {
        match self {
            WorkspaceIndicatorError::InvalidWorkspace { reason } => concat2(
                "invalid workspace: ",
                reason,
            ),
            WorkspaceIndicatorError::EmptyWorkspaces => String::from_str(
                "invalid workspaces: must contain at least one workspace",
            ),
        }
    }
}

/// Snapshot of workspace state supplied by the `AeroSpace` provider.
#[derive(Debug, Clone)]
pub struct WorkspaceSnapshot {
    active: Option<String>,
    occupied: Vec<String>,
}

/// Mathematical model of a [`WorkspaceSnapshot`].
pub struct SnapshotModel {
    /// The focused workspace, when known.
    pub active: Option<Seq<char>>,
    /// The workspaces that hold at least one window.
    pub occupied: Set<Seq<char>>,
}

/// The model of an optional string.
pub open spec fn option_view(o: Option<String>) -> Option<Seq<char>> {
    match o {
        Some(s) => Some(s@),
        None => None,
    }
}

impl View for WorkspaceSnapshot {
    type V = SnapshotModel;

    closed spec fn view(&self) -> SnapshotModel {
        SnapshotModel {
            active: option_view(self.active),
            occupied: string_views(self.occupied@).to_set(),
        }
    }
}

impl WorkspaceSnapshot {
    /// Create a workspace snapshot.
    pub fn new(active: Option<String>, occupied: Vec<String>) -> (s: Self)
        ensures
            s@.active == option_view(active),
            s@.occupied == string_views(occupied@).to_set(),
    {
        Self { active, occupied }
    }

    fn is_active(&self, workspace: &str) -> (b: bool)
        ensures
            b == (self@.active == Some(workspace@)),
    {
        match &self.active {
            Some(active) => str_eq(active.as_str(), workspace),
            None => false,
        }
    }

    fn is_occupied(&self, workspace: &str) -> (b: bool)
        ensures
            b == self@.occupied.contains(workspace@),
    {
        let n = self.occupied.len();
        let mut i: usize = 0;
        while i < n
            invariant
                n == self.occupied.len(),
                i <= n,
                forall|j: int| 0 <= j < i ==> self.occupied@[j]@ != workspace@,
            decreases n - i,
        {
            if str_eq(self.occupied[i].as_str(), workspace) {
                assert(string_views(self.occupied@)[i as int] == workspace@);
                return true;
            }
            i = i + 1;
        }
        assert(!string_views(self.occupied@).contains(workspace@));
        false
    }
}

/// Generic `SketchyBar` message request produced by this workflow.
#[derive(Debug, Clone)]
pub struct SketchybarMessageRequest {
    args: Vec<String>,
    cache_key: String,
    cache_value: String,
}

/// Mathematical model of a [`SketchybarMessageRequest`].
pub struct RequestModel {
    /// Command-line style `SketchyBar` arguments.
    pub args: Seq<Seq<char>>,
    /// Provider-local cache key.
    pub cache_key: Seq<char>,
    /// Cache value represented by the message.
    pub cache_value: Seq<char>,
}

impl View for SketchybarMessageRequest {
    type V = RequestModel;

    closed spec fn view(&self) -> RequestModel {
        RequestModel {
            args: string_views(self.args@),
            cache_key: self.cache_key@,
            cache_value: self.cache_value@,
        }
    }
}

impl SketchybarMessageRequest {
    /// Return command-line style `SketchyBar` arguments.
    pub fn args(&self) -> (r: &[String])
        ensures
            string_views(r@) == self@.args,
    {
        self.args.as_slice()
    }

    /// Return a provider-local cache key for this message.
    pub fn cache_key(&self) -> (r: &str)
        ensures
            r@ == self@.cache_key,
    {
        self.cache_key.as_str()
    }

    /// Return the cache value represented by this message.
    pub fn cache_value(&self) -> (r: &str)
        ensures
            r@ == self@.cache_value,
    {
        self.cache_value.as_str()
    }
}

/// How a workspace item is drawn.
#[derive(Debug, Clone, Copy, PartialEq, Eq)]
pub enum WorkspaceRole {
    Active,
    Occupied,
    Empty,
}

/// The role of `workspace` in `snapshot`: the focused workspace is active,
/// else one with windows is occupied, else it is empty.
pub open spec fn role_of(workspace: Seq<char>, snapshot: SnapshotModel) -> WorkspaceRole {
    if snapshot.active == Some(workspace) {
        WorkspaceRole::Active
    } else if snapshot.occupied.contains(workspace) {
        WorkspaceRole::Occupied
    } else {
        WorkspaceRole::Empty
    }
}

pub open spec fn role_label_color(role: WorkspaceRole) -> Seq<char> {
    match role {
        WorkspaceRole::Active => ACTIVE_LABEL_COLOR@,
        WorkspaceRole::Occupied => NORMAL_LABEL_COLOR@,
        WorkspaceRole::Empty => EMPTY_LABEL_COLOR@,
    }
}

pub open spec fn role_label_font(role: WorkspaceRole) -> Seq<char> {
    match role {
        WorkspaceRole::Active => SEMIBOLD_FONT@,
        _ => MEDIUM_FONT@,
    }
}

pub open spec fn role_background_drawing(role: WorkspaceRole) -> Seq<char> {
    match role {
        WorkspaceRole::Empty => "off"@,
        _ => "on"@,
    }
}

pub open spec fn role_background_color(role: WorkspaceRole) -> Seq<char> {
    match role {
        WorkspaceRole::Active => ACTIVE_BACKGROUND_COLOR@,
        WorkspaceRole::Occupied => OCCUPIED_BACKGROUND_COLOR@,
        WorkspaceRole::Empty => EMPTY_BACKGROUND_COLOR@,
    }
}

/// `key=value`.
pub open spec fn property_spec(key: Seq<char>, value: Seq<char>) -> Seq<char> {
    key + "="@ + value
}

/// The label drawn for a workspace: workspace `10` sits on the `0` key.
pub open spec fn workspace_label_spec(workspace: Seq<char>) -> Seq<char> {
    if workspace == "10"@ {
        "0"@
    } else {
        workspace
    }
}

/// The arguments that redraw one workspace item.
pub open spec fn workspace_args_spec(workspace: Seq<char>, role: WorkspaceRole) -> Seq<Seq<char>> {
    seq![
        "--set"@,
        "aerospace.workspace."@ + workspace,
        property_spec("label"@, workspace_label_spec(workspace)),
        property_spec("label.color"@, role_label_color(role)),
        property_spec("label.font"@, role_label_font(role)),
        "label.width=24"@,
        "label.align=center"@,
        "label.padding_left=0"@,
        "label.padding_right=0"@,
        property_spec("background.drawing"@, role_background_drawing(role)),
        property_spec("background.color"@, role_background_color(role)),
    ]
}

/// The arguments that redraw every workspace item, in order.
pub open spec fn workspaces_args_spec(workspaces: Seq<Seq<char>>, snapshot: SnapshotModel) -> Seq<
    Seq<char>,
>
    decreases workspaces.len(),
{
    if workspaces.len() == 0 {
        Seq::empty()
    } else {
        workspaces_args_spec(workspaces.drop_last(), snapshot) + workspace_args_spec(
            workspaces.last(),
            role_of(workspaces.last(), snapshot),
        )
    }
}

/// ` w ` for every occupied workspace `w` of `workspaces`, in order.
pub open spec fn occupied_part_spec(workspaces: Seq<Seq<char>>, snapshot: SnapshotModel) -> Seq<
    char,
>
    decreases workspaces.len(),
{
    if workspaces.len() == 0 {
        Seq::empty()
    } else {
        let rest = occupied_part_spec(workspaces.drop_last(), snapshot);
        if snapshot.occupied.contains(workspaces.last()) {
            rest + " "@ + workspaces.last() + " "@
        } else {
            rest
        }
    }
}

/// The cache value of the workspace message: the active workspace, a line
/// feed, the occupied workspaces and a line feed.
pub open spec fn workspace_cache_value_spec(
    workspaces: Seq<Seq<char>>,
    snapshot: SnapshotModel,
) -> Seq<char> {
    let active = match snapshot.active {
        Some(a) => a,
        None => Seq::empty(),
    };
    active + "\n"@ + occupied_part_spec(workspaces, snapshot) + "\n"@
}

/// The error a single workspace name is refused with, if any.
pub open spec fn workspace_error_spec(workspace: Seq<char>) -> Option<WorkspaceIndicatorError> {
    if is_blank(workspace) {
        Some(WorkspaceIndicatorError::InvalidWorkspace { reason: "must not be empty" })
    } else if has_control(workspace) {
        Some(WorkspaceIndicatorError::InvalidWorkspace { reason: "must not contain control characters" })
    } else {
        None
    }
}

/// The first error among the workspace names, in order.
pub open spec fn first_workspace_error(workspaces: Seq<Seq<char>>) -> Option<
    WorkspaceIndicatorError,
>
    decreases workspaces.len(),
{
    if workspaces.len() == 0 {
        None
    } else {
        match first_workspace_error(workspaces.drop_last()) {
            Some(e) => Some(e),
            None => workspace_error_spec(workspaces.last()),
        }
    }
}

/// The error a workspace list is refused with, if any.
pub open spec fn workspaces_error_spec(workspaces: Seq<Seq<char>>) -> Option<
    WorkspaceIndicatorError,
> {
    if workspaces.len() == 0 {
        Some(WorkspaceIndicatorError::EmptyWorkspaces)
    } else {
        first_workspace_error(workspaces)
    }
}

fn validate_workspace(workspace: &str) -> (r: Result<(), WorkspaceIndicatorError>)
    ensures
        match workspace_error_spec(workspace@) {
            Some(e) => r == Err::<(), WorkspaceIndicatorError>(e),
            None => r is Ok,
        },
{
    if is_blank_str(workspace) {
        return Err(WorkspaceIndicatorError::InvalidWorkspace { reason: "must not be empty" });
    }
    if has_control_str(workspace) {
        return Err(
            WorkspaceIndicatorError::InvalidWorkspace {
                reason: "must not contain control characters",
            },
        );
    }
    Ok(())
}

fn validate_workspaces(workspaces: &[&str]) -> (r: Result<(), WorkspaceIndicatorError>)
    ensures
        match workspaces_error_spec(str_views(workspaces@)) {
            Some(e) => r == Err::<(), WorkspaceIndicatorError>(e),
            None => r is Ok,
        },
{
    let ghost ws = str_views(workspaces@);
    if workspaces.len() == 0 {
        return Err(WorkspaceIndicatorError::EmptyWorkspaces);
    }
    let n = workspaces.len();
    let mut i: usize = 0;
    proof {
        assert(ws.take(0) =~= Seq::<Seq<char>>::empty());
    }
    while i < n
        invariant
            n == workspaces@.len(),
            ws == str_views(workspaces@),
            i <= n,
            first_workspace_error(ws.take(i as int)) is None,
        decreases n - i,
    {
        proof {
            assert(ws.take(i + 1).drop_last() =~= ws.take(i as int));
            assert(ws.take(i + 1).last() == workspaces@[i as int]@);
        }
        match validate_workspace(workspaces[i]) {
            Ok(()) => {},
            Err(e) => {
                proof {
                    lemma_first_error_extends(ws, i + 1);
                }
                return Err(e);
            },
        }
        i = i + 1;
    }
    proof {
        assert(ws.take(n as int) =~= ws);
    }
    Ok(())
}

proof fn lemma_first_error_extends(ws: Seq<Seq<char>>, k: int)
    requires
        0 <= k <= ws.len(),
        first_workspace_error(ws.take(k)) is Some,
    ensures
        first_workspace_error(ws) == first_workspace_error(ws.take(k)),
    decreases ws.len() - k,
{
    if k < ws.len() {
        assert(ws.take(k + 1).drop_last() =~= ws.take(k));
        lemma_first_error_extends(ws, k + 1);
    } else {
        assert(ws.take(k) =~= ws);
    }
}


fn property(key: &str, value: &str) -> (r: String)
    ensures
        r@ == property_spec(key@, value@),
{
    concat3(key, "=", value)
}

fn workspace_label<'a>(workspace: &'a str) -> (r: &'a str)
    ensures
        r@ == workspace_label_spec(workspace@),
{
    if str_eq(workspace, "10") {
        "0"
    } else {
        workspace
    }
}

impl WorkspaceRole {
    fn for_workspace(workspace: &str, snapshot: &WorkspaceSnapshot) -> (r: Self)
        ensures
            r == role_of(workspace@, snapshot@),
    {
        if snapshot.is_active(workspace) {
            WorkspaceRole::Active
        } else if snapshot.is_occupied(workspace) {
            WorkspaceRole::Occupied
        } else {
            WorkspaceRole::Empty
        }
    }

    fn label_color(self) -> (r: &'static str)
        ensures
            r@ == role_label_color(self),
    {
        match self {
            WorkspaceRole::Active => ACTIVE_LABEL_COLOR,
            WorkspaceRole::Occupied => NORMAL_LABEL_COLOR,
            WorkspaceRole::Empty => EMPTY_LABEL_COLOR,
        }
    }

    fn label_font(self) -> (r: &'static str)
        ensures
            r@ == role_label_font(self),
    {
        match self {
            WorkspaceRole::Active => SEMIBOLD_FONT,
            WorkspaceRole::Occupied | WorkspaceRole::Empty => MEDIUM_FONT,
        }
    }

    fn background_drawing(self) -> (r: &'static str)
        ensures
            r@ == role_background_drawing(self),
    {
        match self {
            WorkspaceRole::Active | WorkspaceRole::Occupied => "on",
            WorkspaceRole::Empty => "off",
        }
    }

    fn background_color(self) -> (r: &'static str)
        ensures
            r@ == role_background_color(self),
    {
        match self {
            WorkspaceRole::Active => ACTIVE_BACKGROUND_COLOR,
            WorkspaceRole::Occupied => OCCUPIED_BACKGROUND_COLOR,
            WorkspaceRole::Empty => EMPTY_BACKGROUND_COLOR,
        }
    }
}

fn append_workspace_args(args: &mut Vec<String>, workspace: &str, role: WorkspaceRole)
    ensures
        string_views(final(args)@) == string_views(old(args)@) + workspace_args_spec(
            workspace@,
            role,
        ),
{
    let ghost before = string_views(args@);
    args.push(String::from_str("--set"));
    args.push(concat2("aerospace.workspace.", workspace));
    args.push(property("label", workspace_label(workspace)));
    args.push(property("label.color", role.label_color()));
    args.push(property("label.font", role.label_font()));
    args.push(String::from_str("label.width=24"));
    args.push(String::from_str("label.align=center"));
    args.push(String::from_str("label.padding_left=0"));
    args.push(String::from_str("label.padding_right=0"));
    args.push(property("background.drawing", role.background_drawing()));
    args.push(property("background.color", role.background_color()));
    assert(string_views(args@) =~= before + workspace_args_spec(workspace@, role));
}

fn workspace_cache_value(workspaces: &[&str], snapshot: &WorkspaceSnapshot) -> (r: String)
    ensures
        r@ == workspace_cache_value_spec(str_views(workspaces@), snapshot@),
{
    let ghost ws = str_views(workspaces@);
    let mut value = String::new();
    match &snapshot.active {
        Some(active) => value.append(active.as_str()),
        None => {},
    }
    value.append("\n");
    let ghost head = value@;
    let n = workspaces.len();
    let mut i: usize = 0;
    proof {
        assert(ws.take(0) =~= Seq::<Seq<char>>::empty());
        assert(value@ =~= head + occupied_part_spec(ws.take(0), snapshot@));
    }
    while i < n
        invariant
            n == workspaces@.len(),
            ws == str_views(workspaces@),
            i <= n,
            value@ == head + occupied_part_spec(ws.take(i as int), snapshot@),
        decreases n - i,
    {
        proof {
            assert(ws.take(i + 1).drop_last() =~= ws.take(i as int));
            assert(ws.take(i + 1).last() == workspaces@[i as int]@);
        }
        let workspace = workspaces[i];
        if snapshot.is_occupied(workspace) {
            value.append(" ");
            value.append(workspace);
            value.append(" ");
            assert(value@ =~= head + occupied_part_spec(ws.take(i + 1), snapshot@));
        }
        i = i + 1;
    }
    value.append("\n");
    proof {
        assert(ws.take(n as int) =~= ws);
        assert(value@ =~= workspace_cache_value_spec(ws, snapshot@));
    }
    value
}

/// Build a `SketchyBar` message request for all workspace items.
///
/// The workspace list is refused when it is empty or when one of its names
/// is blank or holds a control character; the first bad name decides.
pub fn build_workspace_message(workspaces: &[&str], snapshot: &WorkspaceSnapshot) -> (r: Result<
    SketchybarMessageRequest,
    WorkspaceIndicatorError,
>)
    ensures
        match workspaces_error_spec(str_views(workspaces@)) {
            Some(e) => r == Err::<SketchybarMessageRequest, WorkspaceIndicatorError>(e),
            None => r matches Ok(req) && req@ == (RequestModel {
                args: workspaces_args_spec(str_views(workspaces@), snapshot@),
                cache_key: "workspace-indicator.workspaces"@,
                cache_value: workspace_cache_value_spec(str_views(workspaces@), snapshot@),
            }),
        },
{
    validate_workspaces(workspaces)?;
    let ghost ws = str_views(workspaces@);
    let n = workspaces.len();
    let mut args: Vec<String> = Vec::new();
    let mut i: usize = 0;
    proof {
        assert(ws.take(0) =~= Seq::<Seq<char>>::empty());
        assert(string_views(args@) =~= Seq::<Seq<char>>::empty());
    }
    while i < n
        invariant
            n == workspaces@.len(),
            ws == str_views(workspaces@),
            i <= n,
            string_views(args@) == workspaces_args_spec(ws.take(i as int), snapshot@),
        decreases n - i,
    {
        proof {
            assert(ws.take(i + 1).drop_last() =~= ws.take(i as int));
            assert(ws.take(i + 1).last() == workspaces@[i as int]@);
        }
        let workspace = workspaces[i];
        let role = WorkspaceRole::for_workspace(workspace, snapshot);
        append_workspace_args(&mut args, workspace, role);
        i = i + 1;
    }
    proof {
        assert(ws.take(n as int) =~= ws);
    }
    Ok(
        SketchybarMessageRequest {
            args,
            cache_key: String::from_str("workspace-indicator.workspaces"),
            cache_value: workspace_cache_value(workspaces, snapshot),
        },
    )
}


/// What `char::to_uppercase` yields for a character, collected into a
/// string (one to three characters, by Unicode's case mappings).
pub uninterp spec fn char_uppercase(c: char) -> Seq<char>;

/// Calls `char::to_uppercase` and collects the characters it yields.
#[verifier::external_body]
fn uppercase_char(character: char) -> (r: String)
    ensures
        r@ == char_uppercase(character),
{
    character.to_uppercase().collect()
}

/// Which kind of status item an item name designates.
#[derive(Debug, Clone, Copy, PartialEq, Eq)]
pub enum StatusKind {
    Mode,
    Layout,
}

/// The status kind of an item: the part after its last `.` names it.
pub open spec fn status_kind_spec(item: Seq<char>) -> Option<StatusKind> {
    match rsplit_once(item, '.') {
        Some((_, kind)) => if kind == "mode"@ {
            Some(StatusKind::Mode)
        } else if kind == "layout"@ {
            Some(StatusKind::Layout)
        } else {
            None
        },
        None => None,
    }
}

/// The cache key of a status item.
pub open spec fn status_cache_key_spec(item: Seq<char>) -> Seq<char> {
    "workspace-indicator.status."@ + item
}

/// The request that sets `properties` on `item`, cached under the item's
/// status key with the given cache value.
pub open spec fn status_request_spec(
    item: Seq<char>,
    properties: Seq<Seq<char>>,
    cache_value: Seq<char>,
) -> RequestModel {
    RequestModel {
        args: seq!["--set"@, item] + properties,
        cache_key: status_cache_key_spec(item),
        cache_value,
    }
}

/// Label, label color and background color of a mode item.
pub open spec fn mode_parts_spec(mode: Seq<char>) -> (Seq<char>, Seq<char>, Seq<char>) {
    if mode == "main"@ {
        ("N"@, NORMAL_LABEL_COLOR@, OCCUPIED_BACKGROUND_COLOR@)
    } else if mode == "service"@ {
        ("S"@, ACTIVE_LABEL_COLOR@, MODE_SERVICE_COLOR@)
    } else if mode == "resize"@ {
        ("R"@, ACTIVE_LABEL_COLOR@, MODE_RESIZE_COLOR@)
    } else if mode.len() == 0 {
        ("?"@, ACTIVE_LABEL_COLOR@, ACTIVE_BACKGROUND_COLOR@)
    } else {
        (char_uppercase(mode[0]), ACTIVE_LABEL_COLOR@, ACTIVE_BACKGROUND_COLOR@)
    }
}

/// The request for a mode item.
pub open spec fn mode_status_spec(item: Seq<char>, mode: Seq<char>) -> RequestModel {
    let (label, label_color, background_color) = mode_parts_spec(mode);
    status_request_spec(
        item,
        seq![
            property_spec("label"@, label),
            property_spec("label.color"@, label_color),
            property_spec("background.color"@, background_color),
        ],
        label + "|"@ + label_color + "|"@ + background_color,
    )
}

/// Label and color of a layout item from `fullscreen|layout` window info.
pub open spec fn layout_parts_spec(window_info: Option<Seq<char>>) -> (Seq<char>, Seq<char>) {
    match window_info {
        Some(info) => if is_blank(info) {
            ("NONE"@, EMPTY_LABEL_COLOR@)
        } else {
            let (is_fullscreen, layout) = match split_once(info, '|') {
                Some(parts) => parts,
                None => (info, Seq::empty()),
            };
            if is_fullscreen == "true"@ {
                ("FULL"@, LAYOUT_FULLSCREEN_COLOR@)
            } else if contains_seq(layout, "floating"@) {
                ("FLOAT"@, LAYOUT_FLOATING_COLOR@)
            } else if contains_seq(layout, "accordion"@) {
                ("ACCORD"@, LAYOUT_ACCORDION_COLOR@)
            } else {
                ("TILE"@, LAYOUT_TILED_COLOR@)
            }
        },
        None => ("NONE"@, EMPTY_LABEL_COLOR@),
    }
}

/// The request for a layout item.
pub open spec fn layout_status_spec(item: Seq<char>, window_info: Option<Seq<char>>) -> RequestModel {
    let (label, color) = layout_parts_spec(window_info);
    status_request_spec(
        item,
        seq![property_spec("label"@, label), property_spec("label.color"@, color)],
        label + "|"@ + color,
    )
}

/// The model of an optional string slice.
pub open spec fn option_str_view(o: Option<&str>) -> Option<Seq<char>> {
    match o {
        Some(s) => Some(s@),
        None => None,
    }
}

fn status_kind(item: &str) -> (r: Option<StatusKind>)
    ensures
        r == status_kind_spec(item@),
{
    match rsplit_once_str(item, '.') {
        Some((_prefix, kind)) => {
            if str_eq(kind, "mode") {
                Some(StatusKind::Mode)
            } else if str_eq(kind, "layout") {
                Some(StatusKind::Layout)
            } else {
                None
            }
        },
        None => None,
    }
}

fn status_cache_key(item: &str) -> (r: String)
    ensures
        r@ == status_cache_key_spec(item@),
{
    concat2("workspace-indicator.status.", item)
}

fn status_update(item: &str, properties: Vec<String>, cache_value: String) -> (r:
    SketchybarMessageRequest)
    ensures
        r@ == status_request_spec(item@, string_views(properties@), cache_value@),
{
    let mut args: Vec<String> = Vec::new();
    args.push(String::from_str("--set"));
    args.push(String::from_str(item));
    let mut properties = properties;
    let ghost props = string_views(properties@);
    args.append(&mut properties);
    proof {
        assert(string_views(args@) =~= seq!["--set"@, item@] + props);
    }
    SketchybarMessageRequest { args, cache_key: status_cache_key(item), cache_value }
}

fn unknown_mode_label(mode: &str) -> (r: String)
    ensures
        mode@ != "main"@ && mode@ != "service"@ && mode@ != "resize"@ ==> r@ == mode_parts_spec(
            mode@,
        ).0,
{
    if mode.unicode_len() == 0 {
        String::from_str("?")
    } else {
        uppercase_char(mode.get_char(0))
    }
}

/// Build a `SketchyBar` message request for an `AeroSpace` mode item.
pub fn build_mode_status(item: &str, mode: &str) -> (r: SketchybarMessageRequest)
    ensures
        r@ == mode_status_spec(item@, mode@),
{
    let (label, label_color, background_color): (String, &str, &str) = if str_eq(mode, "main") {
        (String::from_str("N"), NORMAL_LABEL_COLOR, OCCUPIED_BACKGROUND_COLOR)
    } else if str_eq(mode, "service") {
        (String::from_str("S"), ACTIVE_LABEL_COLOR, MODE_SERVICE_COLOR)
    } else if str_eq(mode, "resize") {
        (String::from_str("R"), ACTIVE_LABEL_COLOR, MODE_RESIZE_COLOR)
    } else {
        (unknown_mode_label(mode), ACTIVE_LABEL_COLOR, ACTIVE_BACKGROUND_COLOR)
    };
    let ghost parts = mode_parts_spec(mode@);
    assert(label@ == parts.0 && label_color@ == parts.1 && background_color@ == parts.2);
    let mut properties: Vec<String> = Vec::new();
    properties.push(property("label", label.as_str()));
    properties.push(property("label.color", label_color));
    properties.push(property("background.color", background_color));
    let mut cache_value = concat3(label.as_str(), "|", label_color);
    cache_value.append("|");
    cache_value.append(background_color);
    assert(string_views(properties@) =~= seq![
        property_spec("label"@, parts.0),
        property_spec("label.color"@, parts.1),
        property_spec("background.color"@, parts.2),
    ]);
    status_update(item, properties, cache_value)
}

fn layout_status(window_info: Option<&str>) -> (r: (&'static str, &'static str))
    ensures
        (r.0@, r.1@) == layout_parts_spec(option_str_view(window_info)),
{
    let info = match window_info {
        Some(info) => info,
        None => {
            return (
                "NONE",
                EMPTY_LABEL_COLOR,
            );
        },
    };
    if is_blank_str(info) {
        return ("NONE", EMPTY_LABEL_COLOR);
    }
    let (is_fullscreen, layout) = match split_once_str(info, '|') {
        Some(parts) => parts,
        None => (info, ""),
    };
    proof {
        reveal_strlit("");
    }
    assert(split_once(info@, '|') matches Some(p) ==> p == (is_fullscreen@, layout@));
    assert(split_once(info@, '|') is None ==> layout@ == Seq::<char>::empty());
    if str_eq(is_fullscreen, "true") {
        return ("FULL", LAYOUT_FULLSCREEN_COLOR);
    }
    if contains_str(layout, "floating") {
        ("FLOAT", LAYOUT_FLOATING_COLOR)
    } else if contains_str(layout, "accordion") {
        ("ACCORD", LAYOUT_ACCORDION_COLOR)
    } else {
        ("TILE", LAYOUT_TILED_COLOR)
    }
}

/// Build a `SketchyBar` message request for an `AeroSpace` window layout item.
pub fn build_layout_status(item: &str, window_info: Option<&str>) -> (r: SketchybarMessageRequest)
    ensures
        r@ == layout_status_spec(item@, option_str_view(window_info)),
{
    let (label, color) = layout_status(window_info);
    let mut properties: Vec<String> = Vec::new();
    properties.push(property("label", label));
    properties.push(property("label.color", color));
    let cache_value = concat3(label, "|", color);
    let ghost parts = layout_parts_spec(option_str_view(window_info));
    assert(string_views(properties@) =~= seq![
        property_spec("label"@, parts.0),
        property_spec("label.color"@, parts.1),
    ]);
    status_update(item, properties, cache_value)
}

/// The request for a status item: mode items without a mode render the
/// unknown mode `?`; items that are neither mode nor layout get none.
pub open spec fn status_message_spec(
    item: Seq<char>,
    mode: Option<Seq<char>>,
    window_info: Option<Seq<char>>,
) -> Option<RequestModel> {
    match status_kind_spec(item) {
        Some(StatusKind::Mode) => Some(
            mode_status_spec(
                item,
                match mode {
                    Some(m) => m,
                    None => "?"@,
                },
            ),
        ),
        Some(StatusKind::Layout) => Some(layout_status_spec(item, window_info)),
        None => None,
    }
}

/// Build the status message request for a managed item.
pub fn build_status_message(item: &str, mode: Option<&str>, window_info: Option<&str>) -> (r:
    Option<SketchybarMessageRequest>)
    ensures
        match r {
            Some(req) => status_message_spec(item@, option_str_view(mode), option_str_view(
                window_info,
            )) == Some(req@),
            None => status_message_spec(
                item@,
                option_str_view(mode),
                option_str_view(window_info),
            ) is None,
        },
{
    match status_kind(item) {
        Some(StatusKind::Mode) => {
            let m = match mode {
                Some(m) => m,
                None => "?",
            };
            Some(build_mode_status(item, m))
        },
        Some(StatusKind::Layout) => Some(build_layout_status(item, window_info)),
        None => None,
    }
}


/// The workspaces a comma-separated list names: each piece trimmed, the
/// pieces left empty dropped, in the order given.
pub open spec fn listed_workspaces(pieces: Seq<Seq<char>>) -> Seq<Seq<char>>
    decreases pieces.len(),
{
    if pieces.len() == 0 {
        Seq::<Seq<char>>::empty()
    } else {
        let rest = listed_workspaces(pieces.drop_last());
        let workspace = trim(pieces.last());
        if workspace.len() == 0 {
            rest
        } else {
            rest.push(workspace)
        }
    }
}

/// The workspaces named by a configured list such as `1,2,3`.
pub open spec fn workspace_list_spec(input: Seq<char>) -> Seq<Seq<char>> {
    listed_workspaces(split_on(input, ','))
}

/// A configured workspace list that names no workspace.
#[derive(Debug)]
pub struct EmptyWorkspaceList;

impl EmptyWorkspaceList {
    /// The text this error is reported with.
    pub fn message(&self) -> (r: String)
        ensures
            r@ == "--workspaces must contain at least one workspace"@,
    {
        String::from_str("--workspaces must contain at least one workspace")
    }
}

/// Parse a comma-separated workspace list; a list that names no workspace
/// is refused.
pub fn parse_workspaces(input: &str) -> (r: Result<Vec<String>, EmptyWorkspaceList>)
    ensures
        match r {
            Ok(workspaces) => string_views(workspaces@) == workspace_list_spec(input@)
                && workspaces.len() > 0,
            Err(_) => workspace_list_spec(input@).len() == 0,
        },
{
    let pieces = split_str(input, ',');
    let ghost views = pieces@.map_values(|p: &str| p@);
    let mut workspaces: Vec<String> = Vec::new();
    let mut i: usize = 0;
    while i < pieces.len()
        invariant
            i <= pieces.len(),
            views == pieces@.map_values(|p: &str| p@),
            string_views(workspaces@) == listed_workspaces(views.take(i as int)),
        decreases pieces.len() - i,
    {
        let workspace = trim_str(pieces[i]);
        proof {
            assert(views.take(i + 1).drop_last() =~= views.take(i as int));
            assert(views.take(i + 1).last() == pieces@[i as int]@);
        }
        if !workspace.is_empty() {
            let ghost before = string_views(workspaces@);
            workspaces.push(String::from_str(workspace));
            proof {
                assert(string_views(workspaces@) =~= before.push(workspace@));
            }
        }
        i = i + 1;
    }
    proof {
        assert(views.take(pieces.len() as int) =~= views);
    }
    if workspaces.len() == 0 {
        Err(EmptyWorkspaceList)
    } else {
        Ok(workspaces)
    }
}

/// The item a status render targets: the explicit item, else the item or
/// the name the action was given, else the `NAME` the host set.
pub fn resolve_item(
    explicit: Option<String>,
    item: Option<String>,
    name: Option<String>,
    env_name: Option<String>,
) -> (r: Option<String>)
    ensures
        r == match explicit {
            Some(e) => Some(e),
            None => match item {
                Some(i) => Some(i),
                None => match name {
                    Some(n) => Some(n),
                    None => env_name,
                },
            },
        },
{
    match explicit {
        Some(e) => Some(e),
        None => match item {
            Some(i) => Some(i),
            None => match name {
                Some(n) => Some(n),
                None => env_name,
            },
        },
    }
}

/// The generation that follows `generation`: one more, wrapping at the top
/// of the `u64` range as an atomic counter does.
pub open spec fn next_generation(generation: u64) -> u64 {
    if generation == u64::MAX {
        0
    } else {
        (generation + 1) as u64
    }
}

/// Debounces workspace renders: each scheduled render takes a ticket, and
/// only the holder of the latest ticket goes on to render.
#[derive(Debug, Clone)]
pub struct RenderSchedule {
    generation: u64,
}

impl View for RenderSchedule {
    type V = u64;

    closed spec fn view(&self) -> u64 {
        self.generation
    }
}

impl RenderSchedule {
    /// A schedule at generation zero.
    pub fn new() -> (s: Self)
        ensures
            s@ == 0,
    {
        Self { generation: 0 }
    }

    /// Schedule a render; the ticket is the new generation.
    pub fn schedule(&mut self) -> (ticket: u64)
        ensures
            final(self)@ == next_generation(old(self)@),
            ticket == final(self)@,
    {
        self.generation = self.generation.wrapping_add(1);
        self.generation
    }

    /// Whether no render was scheduled after the one holding `ticket`.
    pub fn is_latest(&self, ticket: u64) -> (b: bool)
        ensures
            b == (self@ == ticket),
    {
        self.generation == ticket
    }
}

/// A render scheduled after another supersedes it: of two tickets taken in
/// turn, only the second is the latest.
pub proof fn law_later_schedule_supersedes(generation: u64)
    ensures
        next_generation(next_generation(generation)) != next_generation(generation),
{
}

/// What the string field `key` of a JSON document holds: `None` when
/// `serde_json` does not parse `line` as a `serde_json::Value`; `Some(None)`
/// when the value has no field `key` holding a string; else
/// `Some(Some(text))`.
pub uninterp spec fn json_string_field_of(line: Seq<char>, key: Seq<char>) -> Option<
    Option<Seq<char>>,
>;

/// Parses `line` with `serde_json::from_str` into a `serde_json::Value` and
/// reads its field `key` as a string (`Value::get`, `Value::as_str`).
#[verifier::external_body]
fn json_string_field(line: &str, key: &str) -> (r: Result<Option<String>, serde_json::Error>)
    ensures
        match r {
            Ok(text) => json_string_field_of(line@, key@) == Some(option_view(text)),
            Err(_) => json_string_field_of(line@, key@) is None,
        },
{
    let value = serde_json::from_str::<serde_json::Value>(line)?;
    Ok(value.get(key).and_then(serde_json::Value::as_str).map(String::from))
}

/// Whether the host's reply line to a continuation call reports success:
/// a JSON document whose `status` field is the string `ok`.
pub fn continuation_succeeded(line: &str) -> (r: bool)
    ensures
        r == (json_string_field_of(line@, "status"@) == Some(Some("ok"@))),
{
    match json_string_field(line, "status") {
        Ok(Some(status)) => str_eq(status.as_str(), "ok"),
        _ => false,
    }
}

/// A fullscreen window is drawn as `FULL` in `0xffd29922`, whatever layout
/// follows the first `|` of its window info.
pub proof fn law_fullscreen_window_is_full(item: Seq<char>, layout: Seq<char>)
    ensures
        layout_status_spec(item, Some("true|"@ + layout)) == (RequestModel {
            args: seq!["--set"@, item, "label=FULL"@, "label.color=0xffd29922"@],
            cache_key: "workspace-indicator.status."@ + item,
            cache_value: "FULL|0xffd29922"@,
        }),
        layout_status_spec(item, Some("true"@)) == (RequestModel {
            args: seq!["--set"@, item, "label=FULL"@, "label.color=0xffd29922"@],
            cache_key: "workspace-indicator.status."@ + item,
            cache_value: "FULL|0xffd29922"@,
        }),
{
    reveal_strlit("true|");
    reveal_strlit("true");
    reveal_strlit("FULL");
    reveal_strlit("|");
    reveal_strlit("0xffd29922");
    reveal_strlit("label");
    reveal_strlit("label.color");
    reveal_strlit("=");
    reveal_strlit("label=FULL");
    reveal_strlit("label.color=0xffd29922");
    reveal_strlit("FULL|0xffd29922");
    let info = "true|"@ + layout;
    assert(info[4] == '|');
    assert(forall|j: int| 0 <= j < 4 ==> info[j] != '|');
    lemma_first_index_at(info, '|', 4);
    assert(info.take(4) =~= "true"@);
    assert(!crate::text::is_white_space(info[0]));
    assert(!is_blank(info));
    assert(!crate::text::is_white_space("true"@[0]));
    assert(!is_blank("true"@));
    assert(forall|j: int| 0 <= j < 4 ==> "true"@[j] != '|');
    crate::text::lemma_first_index("true"@, '|');
    assert(property_spec("label"@, "FULL"@) =~= "label=FULL"@);
    assert(property_spec("label.color"@, "0xffd29922"@) =~= "label.color=0xffd29922"@);
    assert("FULL"@ + "|"@ + "0xffd29922"@ =~= "FULL|0xffd29922"@);
    assert(seq!["--set"@, item] + seq!["label=FULL"@, "label.color=0xffd29922"@] =~= seq![
        "--set"@,
        item,
        "label=FULL"@,
        "label.color=0xffd29922"@,
    ]);
}

/// Every listed workspace that holds windows stands, framed by spaces, in
/// the occupied part of the workspace cache value, whatever its position in
/// the list.
pub proof fn law_occupied_part_lists_occupied(
    workspaces: Seq<Seq<char>>,
    snapshot: SnapshotModel,
    k: int,
)
    requires
        0 <= k < workspaces.len(),
        snapshot.occupied.contains(workspaces[k]),
    ensures
        contains_seq(occupied_part_spec(workspaces, snapshot), " "@ + workspaces[k] + " "@),
    decreases workspaces.len(),
{
    let pat = " "@ + workspaces[k] + " "@;
    let part = occupied_part_spec(workspaces, snapshot);
    let rest = occupied_part_spec(workspaces.drop_last(), snapshot);
    if k == workspaces.len() - 1 {
        assert(part =~= rest + pat);
        assert(part.subrange(rest.len() as int, (rest.len() + pat.len()) as int) =~= pat);
    } else {
        assert(workspaces.drop_last()[k] == workspaces[k]);
        law_occupied_part_lists_occupied(workspaces.drop_last(), snapshot, k);
        let i = choose|i: int|
            0 <= i && i + pat.len() <= rest.len() && #[trigger] rest.subrange(i, i + pat.len())
                == pat;
        assert(rest.is_prefix_of(part));
        assert(part.subrange(i, i + pat.len()) =~= rest.subrange(i, i + pat.len()));
    }
}

/// The workspace cache value records every listed workspace that holds
/// windows, framed by spaces after the active workspace's line.
pub proof fn law_cache_value_lists_occupied(
    workspaces: Seq<Seq<char>>,
    snapshot: SnapshotModel,
    k: int,
)
    requires
        0 <= k < workspaces.len(),
        snapshot.occupied.contains(workspaces[k]),
    ensures
        contains_seq(workspace_cache_value_spec(workspaces, snapshot), " "@ + workspaces[k] + " "@),
{
    let pat = " "@ + workspaces[k] + " "@;
    let part = occupied_part_spec(workspaces, snapshot);
    let active = match snapshot.active {
        Some(a) => a,
        None => Seq::<char>::empty(),
    };
    let head = active + "\n"@;
    let value = workspace_cache_value_spec(workspaces, snapshot);
    law_occupied_part_lists_occupied(workspaces, snapshot, k);
    let i = choose|i: int|
        0 <= i && i + pat.len() <= part.len() && #[trigger] part.subrange(i, i + pat.len()) == pat;
    assert(value =~= head + part + "\n"@);
    let j = head.len() + i;
    assert(value.subrange(j, j + pat.len()) =~= part.subrange(i, i + pat.len()));
}

/// Whether `s` holds no space.
pub open spec fn has_no_space(s: Seq<char>) -> bool {
    forall|i: int| 0 <= i < s.len() ==> s[i] != ' '
}

proof fn lemma_occupied_part_ends_with_space(workspaces: Seq<Seq<char>>, snapshot: SnapshotModel)
    ensures
        occupied_part_spec(workspaces, snapshot).len() > 0 ==> occupied_part_spec(
            workspaces,
            snapshot,
        ).last() == ' ',
    decreases workspaces.len(),
{
    reveal_strlit(" ");
    if workspaces.len() > 0 {
        lemma_occupied_part_ends_with_space(workspaces.drop_last(), snapshot);
    }
}

/// Conversely, a word framed by spaces in the occupied part of the
/// workspace cache value is a listed workspace that holds windows, provided
/// no listed workspace holds a space.
pub proof fn law_occupied_part_lists_only_occupied(
    workspaces: Seq<Seq<char>>,
    snapshot: SnapshotModel,
    w: Seq<char>,
)
    requires
        forall|j: int| 0 <= j < workspaces.len() ==> #[trigger] has_no_space(workspaces[j]),
        w.len() > 0,
        has_no_space(w),
        contains_seq(occupied_part_spec(workspaces, snapshot), " "@ + w + " "@),
    ensures
        snapshot.occupied.contains(w),
        exists|k: int| 0 <= k < workspaces.len() && workspaces[k] == w,
    decreases workspaces.len(),
{
    reveal_strlit(" ");
    let pat = " "@ + w + " "@;
    let part = occupied_part_spec(workspaces, snapshot);
    let i = choose|i: int|
        0 <= i && i + pat.len() <= part.len() && #[trigger] part.subrange(i, i + pat.len()) == pat;
    assert forall|t: int| 0 <= t < pat.len() implies part[i + t] == pat[t] by {
        assert(part.subrange(i, i + pat.len())[t] == part[i + t]);
    }
    assert(pat[0] == ' ' && pat[pat.len() - 1] == ' ');
    assert(forall|t: int| 1 <= t <= w.len() ==> pat[t] == w[t - 1]);
    if workspaces.len() == 0 {
        assert(part.len() == 0);
        assert(false);
    }
    let rest = occupied_part_spec(workspaces.drop_last(), snapshot);
    let x = workspaces.last();
    let before = workspaces.drop_last();
    assert forall|j: int| 0 <= j < before.len() implies #[trigger] has_no_space(before[j]) by {
        assert(before[j] == workspaces[j]);
        assert(has_no_space(workspaces[j]));
    }
    assert(has_no_space(workspaces[workspaces.len() - 1]));
    if !snapshot.occupied.contains(x) {
        assert(part == rest);
        law_occupied_part_lists_only_occupied(before, snapshot, w);
        let k = choose|k: int| 0 <= k < before.len() && before[k] == w;
        assert(workspaces[k] == w);
    } else {
        let piece = " "@ + x + " "@;
        assert(part =~= rest + piece);
        assert(forall|t: int| 0 <= t < rest.len() ==> part[t] == rest[t]);
        assert(forall|t: int| 0 <= t < piece.len() ==> part[rest.len() + t] == piece[t]);
        assert(forall|t: int| 1 <= t <= x.len() ==> piece[t] == x[t - 1]);
        if i + pat.len() <= rest.len() {
            assert(rest.subrange(i, i + pat.len()) =~= pat);
            law_occupied_part_lists_only_occupied(before, snapshot, w);
            let k = choose|k: int| 0 <= k < before.len() && before[k] == w;
            assert(workspaces[k] == w);
        } else if i >= rest.len() {
            let o = i - rest.len();
            if o == 0 {
                if w.len() < x.len() {
                    assert(part[i + w.len() + 1] == ' ');
                    assert(piece[(w.len() + 1) as int] == x[w.len() as int]);
                    assert(false);
                }
                assert(w.len() == x.len());
                assert forall|t: int| 0 <= t < w.len() implies w[t] == x[t] by {
                    assert(part[i + t + 1] == pat[t + 1]);
                    assert(part[i + t + 1] == piece[t + 1]);
                }
                assert(w =~= x);
                assert(workspaces[workspaces.len() - 1] == w);
            } else {
                assert(part[i] == ' ');
                assert(piece[o] == ' ');
                if o <= x.len() {
                    assert(x[o - 1] == ' ');
                    assert(false);
                } else {
                    assert(false);
                }
            }
        } else {
            lemma_occupied_part_ends_with_space(before, snapshot);
            let t = rest.len() - i;
            assert(part[rest.len() as int] == ' ');
            assert(part[i + t] == pat[t]);
            if t <= w.len() {
                assert(w[t - 1] == ' ');
                assert(false);
            } else {
                assert(part[rest.len() - 1] == rest.last());
                assert(part[i + (t - 1)] == pat[t - 1]);
                assert(w[w.len() - 1] == ' ');
                assert(false);
            }
        }
    }
}

} // verus!
