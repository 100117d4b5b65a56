//! Write-cache paths and `SketchyBar` endpoint lifecycle decisions.

use vstd::prelude::*;

use super::SketchybarError;
use crate::workspace_indicator::status_cache_key_spec;
use crate::text::{
    chars_of, concat2, concat3, first_index, is_blank, is_blank_str, is_control, is_control_char,
    is_white_space, lemma_first_index, lemma_first_index_at, lemma_trim_untouched, rsplit_once,
    rsplit_once_str, split_once, split_once_str, str_eq, trim, trim_str,
};

verus! {

pub const ENDPOINT_MARKER: &'static str = "sketchybar.endpoint";
pub const STATE_EXTENSION: &'static str = "state";
pub const STATE_SUFFIX: &'static str = ".state";
pub const STATUS_AVAILABLE: &'static str = "available";
pub const STATUS_UNAVAILABLE: &'static str = "unavailable";

/// Whether the `SketchyBar` Mach endpoint is currently reachable.
#[derive(Debug, Clone, Copy, PartialEq, Eq, Structural)]
pub enum EndpointAvailability {
    /// `bootstrap_look_up` succeeded for the bar service.
    Available,
    /// The bar service is not registered.
    Unavailable,
}

/// `Path::join` of a Unix path and one more component: an absolute
/// component replaces the base, else a separator is put between the two
/// unless the base is empty or already ends with one.
pub open spec fn path_join(base: Seq<char>, component: Seq<char>) -> Seq<char> {
    if component.len() > 0 && component[0] == '/' {
        component
    } else if base.len() == 0 || base.last() == '/' {
        base + component
    } else {
        base + "/"@ + component
    }
}

/// `Path::join`.
pub fn join_path(base: &str, component: &str) -> (r: String)
    ensures
        r@ == path_join(base@, component@),
{
    let n = base.unicode_len();
    if component.unicode_len() > 0 && component.get_char(0) == '/' {
        String::from_str(component)
    } else if n == 0 || base.get_char(n - 1) == '/' {
        concat2(base, component)
    } else {
        concat3(base, "/", component)
    }
}

/// Environment values the default cache directory is chosen from.
pub struct StateDirEnv {
    /// `SPINDLE_SKETCHYBAR_STATE_DIR`, when set.
    pub sketchybar_state_dir: Option<String>,
    /// `SPINDLE_STATE_DIR`, when set.
    pub spindle_state_dir: Option<String>,
    /// `TMPDIR`, when set.
    pub tmpdir: Option<String>,
}

/// An environment value that is set and not empty.
pub open spec fn non_empty(v: Option<String>) -> Option<Seq<char>> {
    match v {
        Some(s) => if s@.len() > 0 {
            Some(s@)
        } else {
            None
        },
        None => None,
    }
}

/// The default cache directory: the sketchybar-specific override, else the
/// generic spindle state directory, else `sketchybar-cache` under the
/// temporary directory (`TMPDIR`, or `/tmp`).
pub open spec fn default_state_dir_spec(env: StateDirEnv) -> Seq<char> {
    match non_empty(env.sketchybar_state_dir) {
        Some(dir) => dir,
        None => match non_empty(env.spindle_state_dir) {
            Some(dir) => dir,
            None => path_join(
                match non_empty(env.tmpdir) {
                    Some(tmp) => tmp,
                    None => "/tmp"@,
                },
                "sketchybar-cache"@,
            ),
        },
    }
}

fn env_path(v: &Option<String>) -> (r: Option<&str>)
    ensures
        match r {
            Some(s) => non_empty(*v) == Some(s@),
            None => non_empty(*v) is None,
        },
{
    match v {
        Some(s) => if s.as_str().unicode_len() > 0 {
            Some(s.as_str())
        } else {
            None
        },
        None => None,
    }
}

/// Default cache directory from environment values.
pub fn default_state_dir(env: &StateDirEnv) -> (r: String)
    ensures
        r@ == default_state_dir_spec(*env),
{
    if let Some(dir) = env_path(&env.sketchybar_state_dir) {
        return String::from_str(dir);
    }
    if let Some(dir) = env_path(&env.spindle_state_dir) {
        return String::from_str(dir);
    }
    let tmp = match env_path(&env.tmpdir) {
        Some(tmp) => tmp,
        None => "/tmp",
    };
    join_path(tmp, "sketchybar-cache")
}

/// Resolve the directory used for write-cache files: an explicit directory
/// wins over the environment.
pub fn resolve_state_dir(explicit: Option<String>, env: &StateDirEnv) -> (r: String)
    ensures
        r@ == match explicit {
            Some(dir) => dir@,
            None => default_state_dir_spec(*env),
        },
{
    match explicit {
        Some(dir) => dir,
        None => default_state_dir(env),
    }
}

/// The cache file of a cache key: `{state_dir}/{cache_key}.state`.
pub open spec fn cache_file_path_spec(state_dir: Seq<char>, cache_key: Seq<char>) -> Seq<char> {
    path_join(state_dir, cache_key + STATE_SUFFIX@)
}

/// Build the cache file path for a cache key.
pub fn cache_file_path(state_dir: &str, cache_key: &str) -> (r: String)
    ensures
        r@ == cache_file_path_spec(state_dir@, cache_key@),
{
    let name = concat2(cache_key, STATE_SUFFIX);
    join_path(state_dir, name.as_str())
}

/// The endpoint marker file under a cache directory.
pub open spec fn endpoint_marker_path_spec(state_dir: Seq<char>) -> Seq<char> {
    path_join(state_dir, ENDPOINT_MARKER@)
}

/// Build the endpoint marker path.
pub fn endpoint_marker_path(state_dir: &str) -> (r: String)
    ensures
        r@ == endpoint_marker_path_spec(state_dir@),
{
    join_path(state_dir, ENDPOINT_MARKER)
}

/// What `format!("{:?}", s)` gives for a string slice: the slice quoted,
/// with its special characters escaped.
pub uninterp spec fn debug_str(s: Seq<char>) -> Seq<char>;

/// Calls `<str as Debug>::fmt` through `format!`.
#[verifier::external_body]
pub(crate) fn debug_quoted(s: &str) -> (r: String)
    ensures
        r@ == debug_str(s@),
{
    format!("{s:?}")
}

/// Whether a character may not stand in a cache key.
pub open spec fn is_invalid_key_char(c: char) -> bool {
    is_control(c) || c == '/'
}

/// The message a cache key is refused with, if any: blank keys and keys
/// with a control character or a `/` are refused.
pub open spec fn cache_key_error(cache_key: Seq<char>) -> Option<Seq<char>> {
    if is_blank(cache_key) {
        Some("cache key must not be empty"@)
    } else if exists|i: int| 0 <= i < cache_key.len() && is_invalid_key_char(#[trigger] cache_key[i]) {
        Some("cache key contains invalid characters: "@ + debug_str(cache_key))
    } else {
        None
    }
}

/// Validate a cache key before using it as a filename stem.
pub fn validate_cache_key(cache_key: &str) -> (r: Result<(), SketchybarError>)
    ensures
        match cache_key_error(cache_key@) {
            Some(message) => r matches Err(SketchybarError::InvalidCacheKey(m)) && m@ == message,
            None => r is Ok,
        },
{
    if is_blank_str(cache_key) {
        return Err(SketchybarError::InvalidCacheKey(String::from_str("cache key must not be empty")));
    }
    let cs = chars_of(cache_key);
    let n = cs.len();
    let mut i: usize = 0;
    while i < n
        invariant
            cs@ == cache_key@,
            n == cs.len(),
            i <= n,
            !is_blank(cache_key@),
            forall|j: int| 0 <= j < i ==> !is_invalid_key_char(#[trigger] cache_key@[j]),
        decreases n - i,
    {
        if is_control_char(cs[i]) || cs[i] == '/' {
            assert(is_invalid_key_char(cache_key@[i as int]));
            let quoted = debug_quoted(cache_key);
            return Err(
                SketchybarError::InvalidCacheKey(
                    concat2("cache key contains invalid characters: ", quoted.as_str()),
                ),
            );
        }
        i = i + 1;
    }
    Ok(())
}


/// Parsed endpoint marker persisted under the cache directory.
#[derive(Debug, Clone)]
pub struct EndpointMarker {
    bar_name: String,
    availability: EndpointAvailability,
}

/// Mathematical model of an [`EndpointMarker`].
pub struct MarkerModel {
    /// The bar the marker speaks of.
    pub bar_name: Seq<char>,
    /// Whether its endpoint was reachable.
    pub availability: EndpointAvailability,
}

impl View for EndpointMarker {
    type V = MarkerModel;

    closed spec fn view(&self) -> MarkerModel {
        MarkerModel { bar_name: self.bar_name@, availability: self.availability }
    }
}

/// The word a marker line records an availability with.
pub open spec fn status_text(availability: EndpointAvailability) -> Seq<char> {
    match availability {
        EndpointAvailability::Available => STATUS_AVAILABLE@,
        EndpointAvailability::Unavailable => STATUS_UNAVAILABLE@,
    }
}

/// The marker line `{bar_name}|{status}`.
pub open spec fn marker_line(bar_name: Seq<char>, availability: EndpointAvailability) -> Seq<char> {
    bar_name + "|"@ + status_text(availability)
}

/// The marker a file's contents record: the trimmed contents split at their
/// first `|` into a bar name and a known status word.
pub open spec fn parse_marker(contents: Seq<char>) -> Option<MarkerModel> {
    match split_once(trim(contents), '|') {
        Some((bar_name, status)) => if status == STATUS_AVAILABLE@ {
            Some(MarkerModel { bar_name, availability: EndpointAvailability::Available })
        } else if status == STATUS_UNAVAILABLE@ {
            Some(MarkerModel { bar_name, availability: EndpointAvailability::Unavailable })
        } else {
            None
        },
        None => None,
    }
}

impl EndpointMarker {
    /// A marker for a bar and its availability.
    pub fn new(bar_name: String, availability: EndpointAvailability) -> (m: Self)
        ensures
            m@ == (MarkerModel { bar_name: bar_name@, availability }),
    {
        Self { bar_name, availability }
    }

    /// The bar the marker speaks of.
    pub fn bar_name(&self) -> (r: &str)
        ensures
            r@ == self@.bar_name,
    {
        self.bar_name.as_str()
    }

    /// Whether the bar's endpoint was reachable.
    pub fn availability(&self) -> (r: EndpointAvailability)
        ensures
            r == self@.availability,
    {
        self.availability
    }

    /// The line the marker is persisted as.
    pub fn as_line(&self) -> (r: String)
        ensures
            r@ == marker_line(self@.bar_name, self@.availability),
    {
        let status = match self.availability {
            EndpointAvailability::Available => STATUS_AVAILABLE,
            EndpointAvailability::Unavailable => STATUS_UNAVAILABLE,
        };
        concat3(self.bar_name.as_str(), "|", status)
    }

    /// Parse a persisted marker.
    pub fn parse(contents: &str) -> (r: Option<Self>)
        ensures
            match r {
                Some(m) => parse_marker(contents@) == Some(m@),
                None => parse_marker(contents@) is None,
            },
    {
        let (bar_name, status) = match split_once_str(trim_str(contents), '|') {
            Some(parts) => parts,
            None => return None,
        };
        let availability = if str_eq(status, STATUS_AVAILABLE) {
            EndpointAvailability::Available
        } else if str_eq(status, STATUS_UNAVAILABLE) {
            EndpointAvailability::Unavailable
        } else {
            return None;
        };
        Some(Self { bar_name: String::from_str(bar_name), availability })
    }

    /// Whether two markers record the same bar and availability.
    pub fn same_as(&self, other: &Self) -> (r: bool)
        ensures
            r == (self@ == other@),
    {
        str_eq(self.bar_name.as_str(), other.bar_name.as_str())
            && self.availability == other.availability
    }
}

/// A marker written for a bar name reads back as the same marker, provided
/// the name holds no `|` and does not begin with white space.
pub proof fn law_marker_round_trip(bar_name: Seq<char>, availability: EndpointAvailability)
    requires
        forall|i: int| 0 <= i < bar_name.len() ==> bar_name[i] != '|',
        bar_name.len() > 0 ==> !is_white_space(bar_name[0]),
    ensures
        parse_marker(marker_line(bar_name, availability)) == Some(
            MarkerModel { bar_name, availability },
        ),
{
    let line = marker_line(bar_name, availability);
    let status = status_text(availability);
    reveal_strlit("|");
    reveal_strlit("available");
    reveal_strlit("unavailable");
    assert(line[bar_name.len() as int] == '|');
    assert(line.last() == 'e');
    assert(!is_white_space(line[0]));
    lemma_trim_untouched(line);
    lemma_first_index_at(line, '|', bar_name.len() as int);
    assert(line.take(bar_name.len() as int) =~= bar_name);
    assert(line.skip(bar_name.len() as int + 1) =~= status);
}

/// A marker read from a file is written back as the file's trimmed
/// contents.
pub proof fn law_marker_parse_then_write(contents: Seq<char>)
    requires
        parse_marker(contents) is Some,
    ensures
        marker_line(parse_marker(contents)->0.bar_name, parse_marker(contents)->0.availability)
            == trim(contents),
{
    let t = trim(contents);
    lemma_first_index(t, '|');
    let i = first_index(t, '|')->0;
    reveal_strlit("|");
    assert(t =~= t.take(i) + "|"@ + t.skip(i + 1));
}

/// Whether going from the recorded marker to the current one invalidates
/// the cache: the bar was renamed, or its endpoint came (back) up.
pub open spec fn should_invalidate_spec(previous: Option<MarkerModel>, current: MarkerModel) -> bool {
    match previous {
        None => false,
        Some(p) => p.bar_name != current.bar_name || (p.availability
            == EndpointAvailability::Unavailable && current.availability
            == EndpointAvailability::Available),
    }
}

/// Whether a marker change means that cached values may no longer be on
/// screen: the bar was renamed, or its endpoint came (back) up.
pub fn should_invalidate_cache(previous: Option<&EndpointMarker>, current: &EndpointMarker) -> (r:
    bool)
    ensures
        r == should_invalidate_spec(
            match previous {
                Some(p) => Some(p@),
                None => None,
            },
            current@,
        ),
{
    let previous = match previous {
        Some(p) => p,
        None => return false,
    };
    if !str_eq(previous.bar_name.as_str(), current.bar_name.as_str()) {
        return true;
    }
    previous.availability == EndpointAvailability::Unavailable && current.availability
        == EndpointAvailability::Available
}

/// `Path::extension` of a file name: what follows its last `.`, unless
/// nothing precedes that dot (or the name is `..`).
pub open spec fn path_extension(file_name: Seq<char>) -> Option<Seq<char>> {
    if file_name == ".."@ {
        None
    } else {
        match rsplit_once(file_name, '.') {
            Some((before, after)) => if before.len() == 0 {
                None
            } else {
                Some(after)
            },
            None => None,
        }
    }
}

/// Whether a directory entry belongs to the write cache: a `*.state` file
/// or the endpoint marker.
pub open spec fn is_cache_entry(file_name: Seq<char>) -> bool {
    path_extension(file_name) == Some(STATE_EXTENSION@) || file_name == ENDPOINT_MARKER@
}

/// Whether the directory entry named `file_name` is cleared with the cache.
pub fn should_clear_cache_entry(file_name: &str) -> (r: bool)
    ensures
        r == is_cache_entry(file_name@),
{
    if str_eq(file_name, ENDPOINT_MARKER) {
        return true;
    }
    if str_eq(file_name, "..") {
        return false;
    }
    match rsplit_once_str(file_name, '.') {
        Some((before, after)) => before.unicode_len() > 0 && str_eq(after, STATE_EXTENSION),
        None => false,
    }
}

/// What the endpoint lifecycle asks of the cache directory.
#[derive(Debug, Clone, Copy, PartialEq, Eq, Structural)]
pub enum EndpointSync {
    /// The recorded marker already says the same: nothing to do.
    Unchanged,
    /// Record the new marker, clearing the cache first when asked.
    Record {
        /// Whether every cache entry is removed before the marker is written.
        clear_cache: bool,
    },
}

/// The endpoint sync for a recorded marker and the current one.
pub open spec fn endpoint_sync_spec(previous: Option<MarkerModel>, current: MarkerModel) -> EndpointSync {
    if previous == Some(current) {
        EndpointSync::Unchanged
    } else {
        EndpointSync::Record { clear_cache: should_invalidate_spec(previous, current) }
    }
}

/// Decide how the endpoint lifecycle updates the cache directory.
pub fn plan_endpoint_sync(previous: Option<&EndpointMarker>, current: &EndpointMarker) -> (r:
    EndpointSync)
    ensures
        r == endpoint_sync_spec(
            match previous {
                Some(p) => Some(p@),
                None => None,
            },
            current@,
        ),
{
    if let Some(p) = previous {
        if p.same_as(current) {
            return EndpointSync::Unchanged;
        }
    }
    EndpointSync::Record { clear_cache: should_invalidate_cache(previous, current) }
}

/// When the endpoint of the same bar comes up after being recorded
/// unavailable, the cache is cleared.
pub proof fn law_endpoint_restart_clears_cache(bar_name: Seq<char>)
    ensures
        endpoint_sync_spec(
            Some(MarkerModel { bar_name, availability: EndpointAvailability::Unavailable }),
            MarkerModel { bar_name, availability: EndpointAvailability::Available },
        ) == (EndpointSync::Record { clear_cache: true }),
{
}

/// When the bar name changes, the cache is cleared.
pub proof fn law_bar_rename_clears_cache(previous: MarkerModel, current: MarkerModel)
    requires
        previous.bar_name != current.bar_name,
    ensures
        endpoint_sync_spec(Some(previous), current) == (EndpointSync::Record { clear_cache: true }),
{
}

/// The cache is cleared only on a rename or on an endpoint coming up; the
/// first observation and an endpoint going down keep it.
pub proof fn law_cache_kept_otherwise(previous: Option<MarkerModel>, current: MarkerModel)
    requires
        previous matches Some(p) ==> p.bar_name == current.bar_name && !(p.availability
            == EndpointAvailability::Unavailable && current.availability
            == EndpointAvailability::Available),
    ensures
        endpoint_sync_spec(previous, current) != (EndpointSync::Record { clear_cache: true }),
{
}

/// An unchanged marker is not written again.
pub proof fn law_same_marker_unchanged(marker: MarkerModel)
    ensures
        endpoint_sync_spec(Some(marker), marker) == EndpointSync::Unchanged,
{
}


/// Which cache files an invalidation removes.
#[derive(Debug)]
pub enum CacheInvalidation {
    /// Remove the one cache file at `path` (a missing file is no error).
    Entry {
        /// The cache file of the key.
        path: String,
    },
    /// Remove every cache entry under the directory `path`.
    Directory {
        /// The cache directory.
        path: String,
    },
}

/// Decide which cache files `invalidate-cache` removes: the file of one
/// validated key, or every entry of the resolved cache directory.
pub fn plan_cache_invalidation(
    state_dir: Option<String>,
    env: &StateDirEnv,
    cache_key: Option<&str>,
) -> (r: Result<CacheInvalidation, SketchybarError>)
    ensures
        ({
            let dir = match state_dir {
                Some(d) => d@,
                None => default_state_dir_spec(*env),
            };
            match cache_key {
                Some(key) => match cache_key_error(key@) {
                    Some(message) => r matches Err(SketchybarError::InvalidCacheKey(m)) && m@
                        == message,
                    None => r matches Ok(CacheInvalidation::Entry { path }) && path@
                        == cache_file_path_spec(dir, key@),
                },
                None => r matches Ok(CacheInvalidation::Directory { path }) && path@ == dir,
            }
        }),
{
    let state_dir = resolve_state_dir(state_dir, env);
    match cache_key {
        Some(key) => {
            validate_cache_key(key)?;
            Ok(CacheInvalidation::Entry { path: cache_file_path(state_dir.as_str(), key) })
        },
        None => Ok(CacheInvalidation::Directory { path: state_dir }),
    }
}

/// The recorded marker is left alone only when it already records the
/// current bar and availability; any other recorded marker (none, another
/// bar, the same bar with the other availability) is rewritten.
pub proof fn law_only_same_marker_unchanged(previous: Option<MarkerModel>, current: MarkerModel)
    ensures
        (endpoint_sync_spec(previous, current) == EndpointSync::Unchanged) <==> previous == Some(
            current,
        ),
{
}

/// A bar going down is recorded without clearing the cache, so that its
/// coming back up afterwards clears it.
pub proof fn law_outage_then_restart_clears_cache(bar_name: Seq<char>)
    ensures
        endpoint_sync_spec(
            Some(MarkerModel { bar_name, availability: EndpointAvailability::Available }),
            MarkerModel { bar_name, availability: EndpointAvailability::Unavailable },
        ) == (EndpointSync::Record { clear_cache: false }),
        endpoint_sync_spec(
            Some(MarkerModel { bar_name, availability: EndpointAvailability::Unavailable }),
            MarkerModel { bar_name, availability: EndpointAvailability::Available },
        ) == (EndpointSync::Record { clear_cache: true }),
{
}

/// A cache key is refused exactly when it is blank or holds a control
/// character or a `/`; any other key, of any length, is accepted.
pub proof fn law_cache_key_refused_exactly_when_unsafe(cache_key: Seq<char>)
    ensures
        (cache_key_error(cache_key) is None) <==> (!is_blank(cache_key) && forall|i: int|
            0 <= i < cache_key.len() ==> !is_control(#[trigger] cache_key[i]) && cache_key[i]
                != '/'),
{
}

/// The cache keys the workspace indicator sends are accepted: the
/// workspace key, and the status key of every item without a control
/// character or a `/`.
pub proof fn law_indicator_cache_keys_accepted(item: Seq<char>)
    requires
        forall|i: int| 0 <= i < item.len() ==> !is_control(#[trigger] item[i]) && item[i] != '/',
    ensures
        cache_key_error(status_cache_key_spec(item)) is None,
        cache_key_error("workspace-indicator.workspaces"@) is None,
{
    reveal_strlit("workspace-indicator.status.");
    reveal_strlit("workspace-indicator.workspaces");
    let prefix = "workspace-indicator.status."@;
    let key = status_cache_key_spec(item);
    assert(key =~= prefix + item);
    assert(!is_white_space(key[0]));
    assert forall|i: int| 0 <= i < key.len() implies !is_invalid_key_char(#[trigger] key[i]) by {
        if i < prefix.len() {
            assert(key[i] == prefix[i]);
        } else {
            assert(key[i] == item[i - prefix.len()]);
        }
    }
    let w = "workspace-indicator.workspaces"@;
    assert(!is_white_space(w[0]));
    assert forall|i: int| 0 <= i < w.len() implies !is_invalid_key_char(#[trigger] w[i]) by {}
}

} // verus!
