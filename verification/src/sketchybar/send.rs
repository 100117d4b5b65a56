//! The cached send of a `SketchyBar` message, as a state machine.
//!
//! A cached send alternates outside work (asking the endpoint probe, reading
//! and writing cache files, sending through the client) with decisions.
//! [`CachedSend`] holds the decisions: the driver performs the action that
//! [`CachedSend::step`] returns and hands back what came of it as an event.
//!
//! With a cache key and value the send goes: probe the endpoint, read the
//! endpoint marker, clear the cache when the endpoint came up or the bar was
//! renamed, record the marker, validate the key, read the key's cache file,
//! and skip the send when that file already holds the value. A failed send
//! removes the key's cache file; a successful one writes it.

use vstd::prelude::*;

use super::cache::{
    cache_file_path, cache_file_path_spec, cache_key_error, endpoint_marker_path,
    endpoint_marker_path_spec, endpoint_sync_spec, marker_line, parse_marker, plan_endpoint_sync,
    resolve_state_dir, validate_cache_key, default_state_dir_spec, EndpointAvailability,
    EndpointMarker, EndpointSync, MarkerModel, StateDirEnv,
};
use super::{CachedMessageRequest, SketchybarError};
use crate::text::string_views;

verus! {

/// Where a cached send stands.
#[derive(Debug, Clone, Copy, PartialEq, Eq, Structural)]
pub enum CachedSendStep {
    /// Nothing has been done yet.
    Start,
    /// The message goes out without the cache.
    SendingUncached,
    /// The endpoint probe was asked.
    Probing,
    /// The endpoint marker is being read.
    ReadingMarker,
    /// The cache directory is being cleared.
    ClearingCacheDir,
    /// The endpoint marker is being written.
    WritingMarker,
    /// The key's cache file is being read.
    ReadingCache,
    /// The message goes out after a cache miss.
    SendingCached,
    /// The key's cache file is being removed after a failed send.
    ClearingCacheKey,
    /// The key's cache file is being written after a successful send.
    WritingCache,
    /// The send is over; its outcome is known.
    Done,
}

/// What the driver does next.
#[derive(Debug, Clone, Copy, PartialEq, Eq, Structural)]
pub enum CachedSendAction {
    /// Send [`CachedSend::args`] through the client.
    Send,
    /// Ask the endpoint probe about [`CachedSend::bar_name`].
    ProbeEndpoint,
    /// Read the file at [`CachedSend::marker_path`] (a missing file reads as none).
    ReadMarker,
    /// Remove every cache entry under [`CachedSend::state_dir`].
    ClearCacheDir,
    /// Write [`CachedSend::marker_line`] to [`CachedSend::marker_path`].
    WriteMarker,
    /// Read the file at [`CachedSend::cache_path`] (a missing file reads as none).
    ReadCache,
    /// Remove the file at [`CachedSend::cache_path`], whatever comes of it.
    ClearCacheKey,
    /// Write [`CachedSend::cache_value`] to [`CachedSend::cache_path`].
    WriteCache,
    /// Stop: [`CachedSend::outcome`] is the result of the send.
    Finish,
}

/// What came of the last action.
#[derive(Debug)]
pub enum CachedSendEvent {
    /// The client's answer to [`CachedSendAction::Send`].
    Sent(Result<String, SketchybarError>),
    /// The probe's answer to [`CachedSendAction::ProbeEndpoint`].
    Probed(Result<EndpointAvailability, SketchybarError>),
    /// The marker file's contents, or none when it does not exist.
    MarkerRead(Result<Option<String>, SketchybarError>),
    /// The cache directory was cleared, or could not be.
    CacheDirCleared(Result<(), SketchybarError>),
    /// The marker was written, or could not be.
    MarkerWritten(Result<(), SketchybarError>),
    /// The cache file's contents, or none when it does not exist.
    CacheRead(Result<Option<String>, SketchybarError>),
    /// The attempt to remove the cache file is over.
    CacheKeyCleared,
    /// The cache file was written, or could not be.
    CacheWritten(Result<(), SketchybarError>),
}

/// The event each step waits for.
pub open spec fn expects(step: CachedSendStep, event: CachedSendEvent) -> bool {
    match step {
        CachedSendStep::SendingUncached | CachedSendStep::SendingCached => event is Sent,
        CachedSendStep::Probing => event is Probed,
        CachedSendStep::ReadingMarker => event is MarkerRead,
        CachedSendStep::ClearingCacheDir => event is CacheDirCleared,
        CachedSendStep::WritingMarker => event is MarkerWritten,
        CachedSendStep::ReadingCache => event is CacheRead,
        CachedSendStep::ClearingCacheKey => event is CacheKeyCleared,
        CachedSendStep::WritingCache => event is CacheWritten,
        CachedSendStep::Start | CachedSendStep::Done => false,
    }
}

/// A cached send of one `SketchyBar` message.
pub struct CachedSend {
    args: Vec<String>,
    cache: Option<(String, String)>,
    bar_name: String,
    state_dir: String,
    availability: EndpointAvailability,
    step: CachedSendStep,
    pending: Option<SketchybarError>,
    outcome: Option<Result<(), SketchybarError>>,
}

/// Mathematical model of a [`CachedSend`].
pub struct CachedSendModel {
    /// The message arguments.
    pub args: Seq<Seq<char>>,
    /// The cache key and value, when the send is cached.
    pub cache: Option<(Seq<char>, Seq<char>)>,
    /// The bar whose endpoint is tracked.
    pub bar_name: Seq<char>,
    /// The cache directory.
    pub state_dir: Seq<char>,
    /// The endpoint availability the probe reported.
    pub availability: EndpointAvailability,
    /// Where the send stands.
    pub step: CachedSendStep,
    /// The send error to finish with once the cache file is removed.
    pub pending: Option<SketchybarError>,
    /// The result of the send, once it is over.
    pub outcome: Option<Result<(), SketchybarError>>,
}

/// The model of an optional key and value.
pub open spec fn cache_view(cache: Option<(String, String)>) -> Option<(Seq<char>, Seq<char>)> {
    match cache {
        Some((k, v)) => Some((k@, v@)),
        None => None,
    }
}

impl View for CachedSend {
    type V = CachedSendModel;

    closed spec fn view(&self) -> CachedSendModel {
        CachedSendModel {
            args: string_views(self.args@),
            cache: cache_view(self.cache),
            bar_name: self.bar_name@,
            state_dir: self.state_dir@,
            availability: self.availability,
            step: self.step,
            pending: self.pending,
            outcome: self.outcome,
        }
    }
}

/// The marker recorded for the tracked bar and its reported availability.
pub open spec fn current_marker(m: CachedSendModel) -> MarkerModel {
    MarkerModel { bar_name: m.bar_name, availability: m.availability }
}

/// The cache key of a cached send.
pub open spec fn cache_key_of(m: CachedSendModel) -> Seq<char> {
    match m.cache {
        Some((key, _)) => key,
        None => Seq::empty(),
    }
}

/// The cache value of a cached send.
pub open spec fn cache_value_of(m: CachedSendModel) -> Seq<char> {
    match m.cache {
        Some((_, value)) => value,
        None => Seq::empty(),
    }
}

/// The key's cache file.
pub open spec fn cache_path_of(m: CachedSendModel) -> Seq<char> {
    cache_file_path_spec(m.state_dir, cache_key_of(m))
}

/// `m2` is `m` with another step, pending error and outcome.
pub open spec fn same_request(m: CachedSendModel, m2: CachedSendModel) -> bool {
    &&& m2.args == m.args
    &&& m2.cache == m.cache
    &&& m2.bar_name == m.bar_name
    &&& m2.state_dir == m.state_dir
}

/// `m2` ends the send with `outcome`.
pub open spec fn finishes(m2: CachedSendModel, a: CachedSendAction, outcome: Result<(), SketchybarError>) -> bool {
    &&& m2.step == CachedSendStep::Done
    &&& m2.outcome == Some(outcome)
    &&& a == CachedSendAction::Finish
}

/// `m2` goes on to `step` by asking for `a`.
pub open spec fn moves(m2: CachedSendModel, step: CachedSendStep, a: CachedSendAction, action: CachedSendAction) -> bool {
    &&& m2.step == step
    &&& m2.outcome is None
    &&& a == action
}

/// What follows a recorded marker: the key is validated, then its cache
/// file is read.
pub open spec fn after_sync(m: CachedSendModel, m2: CachedSendModel, a: CachedSendAction) -> bool {
    match cache_key_error(cache_key_of(m)) {
        Some(message) => {
            &&& m2.step == CachedSendStep::Done
            &&& m2.outcome matches Some(Err(SketchybarError::InvalidCacheKey(msg))) && msg@ == message
            &&& a == CachedSendAction::Finish
        },
        None => moves(m2, CachedSendStep::ReadingCache, a, CachedSendAction::ReadCache),
    }
}

/// The first action of a send: a cached send starts by probing the
/// endpoint, an uncached one sends at once.
pub open spec fn start_rel(m: CachedSendModel, m2: CachedSendModel, a: CachedSendAction) -> bool {
    &&& same_request(m, m2)
    &&& m2.availability == m.availability
    &&& match m.cache {
        None => moves(m2, CachedSendStep::SendingUncached, a, CachedSendAction::Send),
        Some(_) => moves(m2, CachedSendStep::Probing, a, CachedSendAction::ProbeEndpoint),
    }
}

/// The transition of a cached send on an event.
pub open spec fn next_rel(
    m: CachedSendModel,
    e: CachedSendEvent,
    m2: CachedSendModel,
    a: CachedSendAction,
) -> bool {
    &&& same_request(m, m2)
    &&& (m.step != CachedSendStep::Probing ==> m2.availability == m.availability)
    &&& match (m.step, e) {
        (CachedSendStep::SendingUncached, CachedSendEvent::Sent(r)) => finishes(
            m2,
            a,
            match r {
                Ok(_) => Ok(()),
                Err(err) => Err(err),
            },
        ),
        (CachedSendStep::Probing, CachedSendEvent::Probed(r)) => match r {
            Err(err) => finishes(m2, a, Err(err)),
            Ok(availability) => m2.availability == availability && moves(
                m2,
                CachedSendStep::ReadingMarker,
                a,
                CachedSendAction::ReadMarker,
            ),
        },
        (CachedSendStep::ReadingMarker, CachedSendEvent::MarkerRead(r)) => match r {
            Err(err) => finishes(m2, a, Err(err)),
            Ok(contents) => {
                let previous = match contents {
                    Some(c) => parse_marker(c@),
                    None => None,
                };
                match endpoint_sync_spec(previous, current_marker(m)) {
                    EndpointSync::Unchanged => after_sync(m, m2, a),
                    EndpointSync::Record { clear_cache: true } => moves(
                        m2,
                        CachedSendStep::ClearingCacheDir,
                        a,
                        CachedSendAction::ClearCacheDir,
                    ),
                    EndpointSync::Record { clear_cache: false } => moves(
                        m2,
                        CachedSendStep::WritingMarker,
                        a,
                        CachedSendAction::WriteMarker,
                    ),
                }
            },
        },
        (CachedSendStep::ClearingCacheDir, CachedSendEvent::CacheDirCleared(r)) => match r {
            Err(err) => finishes(m2, a, Err(err)),
            Ok(()) => moves(m2, CachedSendStep::WritingMarker, a, CachedSendAction::WriteMarker),
        },
        (CachedSendStep::WritingMarker, CachedSendEvent::MarkerWritten(r)) => match r {
            Err(err) => finishes(m2, a, Err(err)),
            Ok(()) => after_sync(m, m2, a),
        },
        (CachedSendStep::ReadingCache, CachedSendEvent::CacheRead(r)) => match r {
            Err(err) => finishes(m2, a, Err(err)),
            Ok(Some(previous)) => if previous@ == cache_value_of(m) {
                finishes(m2, a, Ok(()))
            } else {
                moves(m2, CachedSendStep::SendingCached, a, CachedSendAction::Send)
            },
            Ok(None) => moves(m2, CachedSendStep::SendingCached, a, CachedSendAction::Send),
        },
        (CachedSendStep::SendingCached, CachedSendEvent::Sent(r)) => match r {
            Ok(_) => moves(m2, CachedSendStep::WritingCache, a, CachedSendAction::WriteCache),
            Err(err) => m2.pending == Some(err) && moves(
                m2,
                CachedSendStep::ClearingCacheKey,
                a,
                CachedSendAction::ClearCacheKey,
            ),
        },
        (CachedSendStep::ClearingCacheKey, CachedSendEvent::CacheKeyCleared) => finishes(
            m2,
            a,
            Err(m.pending->0),
        ),
        (CachedSendStep::WritingCache, CachedSendEvent::CacheWritten(r)) => finishes(m2, a, r),
        _ => false,
    }
}

/// The invariant of a cached send: every step past the start of a cached
/// send has a key and value, and a pending error waits exactly while the
/// cache file is being removed.
pub open spec fn well_formed(m: CachedSendModel) -> bool {
    &&& (m.step != CachedSendStep::Start && m.step != CachedSendStep::SendingUncached
        && m.step != CachedSendStep::Done ==> m.cache is Some)
    &&& (m.step == CachedSendStep::ClearingCacheKey ==> m.pending is Some)
    &&& (m.step == CachedSendStep::Done <==> m.outcome is Some)
}

impl CachedSend {
    /// A send of `request`, its cache directory resolved against `env`.
    pub fn new(request: &CachedMessageRequest, env: &StateDirEnv) -> (s: Self)
        ensures
            s@.args == string_views(request.args@),
            s@.cache == match request.cache {
                Some(kv) => Some((kv.0@, kv.1@)),
                None => None,
            },
            s@.bar_name == request.bar_name@,
            s@.state_dir == match request.state_dir {
                Some(d) => d@,
                None => default_state_dir_spec(*env),
            },
            s@.step == CachedSendStep::Start,
            s@.pending is None,
            s@.outcome is None,
            well_formed(s@),
    {
        let mut args: Vec<String> = Vec::new();
        let n = request.args.len();
        let mut i: usize = 0;
        while i < n
            invariant
                n == request.args@.len(),
                i <= n,
                args@.len() == i,
                forall|j: int| 0 <= j < i ==> #[trigger] args@[j]@ == request.args@[j]@,
            decreases n - i,
        {
            let arg = request.args[i].clone();
            args.push(arg);
            i = i + 1;
        }
        assert(string_views(args@) =~= string_views(request.args@));
        let cache = match request.cache {
            Some(kv) => Some((kv.0.clone(), kv.1.clone())),
            None => None,
        };
        let state_dir = match &request.state_dir {
            Some(d) => resolve_state_dir(Some(d.clone()), env),
            None => resolve_state_dir(None, env),
        };
        CachedSend {
            args,
            cache,
            bar_name: String::from_str(request.bar_name),
            state_dir,
            availability: EndpointAvailability::Unavailable,
            step: CachedSendStep::Start,
            pending: None,
            outcome: None,
        }
    }

    /// The message arguments.
    pub fn args(&self) -> (r: &[String])
        ensures
            string_views(r@) == self@.args,
    {
        self.args.as_slice()
    }

    /// The bar whose endpoint is tracked.
    pub fn bar_name(&self) -> (r: &str)
        ensures
            r@ == self@.bar_name,
    {
        self.bar_name.as_str()
    }

    /// The cache directory.
    pub fn state_dir(&self) -> (r: &str)
        ensures
            r@ == self@.state_dir,
    {
        self.state_dir.as_str()
    }

    /// The endpoint marker file.
    pub fn marker_path(&self) -> (r: String)
        ensures
            r@ == endpoint_marker_path_spec(self@.state_dir),
    {
        endpoint_marker_path(self.state_dir.as_str())
    }

    /// The marker line recording the tracked bar and its availability.
    pub fn marker_line(&self) -> (r: String)
        ensures
            r@ == marker_line(self@.bar_name, self@.availability),
    {
        EndpointMarker::new(self.bar_name.clone(), self.availability).as_line()
    }

    /// The key's cache file.
    pub fn cache_path(&self) -> (r: String)
        requires
            self@.cache is Some,
        ensures
            r@ == cache_path_of(self@),
    {
        match &self.cache {
            Some((key, _)) => cache_file_path(self.state_dir.as_str(), key.as_str()),
            None => String::new(),
        }
    }

    /// The value the key's cache file records.
    pub fn cache_value(&self) -> (r: &str)
        requires
            self@.cache is Some,
        ensures
            r@ == cache_value_of(self@),
    {
        match &self.cache {
            Some((_, value)) => value.as_str(),
            None => "",
        }
    }

    /// Where the send stands.
    pub fn step_kind(&self) -> (r: CachedSendStep)
        ensures
            r == self@.step,
    {
        self.step
    }

    /// The result of the send, once it is over.
    pub fn into_outcome(self) -> (r: Result<(), SketchybarError>)
        requires
            self@.step == CachedSendStep::Done,
            well_formed(self@),
        ensures
            self@.outcome == Some(r),
    {
        match self.outcome {
            Some(r) => r,
            None => Ok(()),
        }
    }

    fn finish(&mut self, outcome: Result<(), SketchybarError>) -> (a: CachedSendAction)
        ensures
            final(self)@.args == old(self)@.args,
            final(self)@.cache == old(self)@.cache,
            final(self)@.bar_name == old(self)@.bar_name,
            final(self)@.state_dir == old(self)@.state_dir,
            final(self)@.availability == old(self)@.availability,
            final(self)@.pending == old(self)@.pending,
            finishes(final(self)@, a, outcome),
    {
        self.step = CachedSendStep::Done;
        self.outcome = Some(outcome);
        CachedSendAction::Finish
    }

    fn go(&mut self, step: CachedSendStep, action: CachedSendAction) -> (a: CachedSendAction)
        requires
            old(self)@.outcome is None,
        ensures
            final(self)@.args == old(self)@.args,
            final(self)@.cache == old(self)@.cache,
            final(self)@.bar_name == old(self)@.bar_name,
            final(self)@.state_dir == old(self)@.state_dir,
            final(self)@.availability == old(self)@.availability,
            final(self)@.pending == old(self)@.pending,
            moves(final(self)@, step, a, action),
    {
        self.step = step;
        action
    }

    /// Validate the key once the marker is recorded, then read its cache
    /// file.
    fn after_sync(&mut self) -> (a: CachedSendAction)
        requires
            old(self)@.cache is Some,
            old(self)@.outcome is None,
        ensures
            same_request(old(self)@, final(self)@),
            final(self)@.availability == old(self)@.availability,
            final(self)@.pending == old(self)@.pending,
            after_sync(old(self)@, final(self)@, a),
    {
        let checked = match &self.cache {
            Some((key, _)) => validate_cache_key(key.as_str()),
            None => Ok(()),
        };
        match checked {
            Err(error) => self.finish(Err(error)),
            Ok(()) => self.go(CachedSendStep::ReadingCache, CachedSendAction::ReadCache),
        }
    }

    /// The first action of the send.
    pub fn start(&mut self) -> (a: CachedSendAction)
        requires
            old(self)@.step == CachedSendStep::Start,
            well_formed(old(self)@),
        ensures
            start_rel(old(self)@, final(self)@, a),
            final(self)@.pending == old(self)@.pending,
            well_formed(final(self)@),
    {
        if self.cache.is_none() {
            self.go(CachedSendStep::SendingUncached, CachedSendAction::Send)
        } else {
            self.go(CachedSendStep::Probing, CachedSendAction::ProbeEndpoint)
        }
    }

    /// Take what came of the last action and decide the next one.
    pub fn step(&mut self, event: CachedSendEvent) -> (a: CachedSendAction)
        requires
            expects(old(self)@.step, event),
            well_formed(old(self)@),
        ensures
            next_rel(old(self)@, event, final(self)@, a),
            well_formed(final(self)@),
    {
        let ghost m = self@;
        match event {
            CachedSendEvent::Sent(r) => {
                if self.step == CachedSendStep::SendingUncached {
                    match r {
                        Ok(_) => self.finish(Ok(())),
                        Err(error) => self.finish(Err(error)),
                    }
                } else {
                    match r {
                        Ok(_) => self.go(CachedSendStep::WritingCache, CachedSendAction::WriteCache),
                        Err(error) => {
                            self.pending = Some(error);
                            self.go(CachedSendStep::ClearingCacheKey, CachedSendAction::ClearCacheKey)
                        },
                    }
                }
            },
            CachedSendEvent::Probed(r) => match r {
                Err(error) => self.finish(Err(error)),
                Ok(availability) => {
                    self.availability = availability;
                    self.go(CachedSendStep::ReadingMarker, CachedSendAction::ReadMarker)
                },
            },
            CachedSendEvent::MarkerRead(r) => match r {
                Err(error) => self.finish(Err(error)),
                Ok(contents) => {
                    let previous = match &contents {
                        Some(c) => EndpointMarker::parse(c.as_str()),
                        None => None,
                    };
                    let current = EndpointMarker::new(self.bar_name.clone(), self.availability);
                    match plan_endpoint_sync(previous.as_ref(), &current) {
                        EndpointSync::Unchanged => self.after_sync(),
                        EndpointSync::Record { clear_cache } => {
                            if clear_cache {
                                self.go(
                                    CachedSendStep::ClearingCacheDir,
                                    CachedSendAction::ClearCacheDir,
                                )
                            } else {
                                self.go(CachedSendStep::WritingMarker, CachedSendAction::WriteMarker)
                            }
                        },
                    }
                },
            },
            CachedSendEvent::CacheDirCleared(r) => match r {
                Err(error) => self.finish(Err(error)),
                Ok(()) => self.go(CachedSendStep::WritingMarker, CachedSendAction::WriteMarker),
            },
            CachedSendEvent::MarkerWritten(r) => match r {
                Err(error) => self.finish(Err(error)),
                Ok(()) => self.after_sync(),
            },
            CachedSendEvent::CacheRead(r) => match r {
                Err(error) => self.finish(Err(error)),
                Ok(previous) => {
                    let hit = match (&previous, &self.cache) {
                        (Some(p), Some((_, value))) => crate::text::str_eq(p.as_str(), value.as_str()),
                        _ => false,
                    };
                    if hit {
                        self.finish(Ok(()))
                    } else {
                        self.go(CachedSendStep::SendingCached, CachedSendAction::Send)
                    }
                },
            },
            CachedSendEvent::CacheKeyCleared => {
                let pending = self.pending.take();
                match pending {
                    Some(error) => self.finish(Err(error)),
                    None => self.finish(Ok(())),
                }
            },
            CachedSendEvent::CacheWritten(r) => self.finish(r),
        }
    }
}


/// How many actions a step is at most away from the end of the send.
pub open spec fn steps_left(step: CachedSendStep) -> nat {
    match step {
        CachedSendStep::Start => 9,
        CachedSendStep::Probing => 8,
        CachedSendStep::ReadingMarker => 7,
        CachedSendStep::ClearingCacheDir => 6,
        CachedSendStep::WritingMarker => 5,
        CachedSendStep::ReadingCache => 4,
        CachedSendStep::SendingCached => 3,
        CachedSendStep::ClearingCacheKey => 2,
        CachedSendStep::WritingCache => 2,
        CachedSendStep::SendingUncached => 1,
        CachedSendStep::Done => 0,
    }
}

/// Every action brings the send closer to its end: a send is over after
/// at most nine actions, and it ends exactly when it finishes.
pub proof fn law_send_progresses(m: CachedSendModel, e: CachedSendEvent, m2: CachedSendModel, a: CachedSendAction)
    requires
        expects(m.step, e),
        next_rel(m, e, m2, a),
    ensures
        steps_left(m2.step) < steps_left(m.step),
        (a == CachedSendAction::Finish) == (m2.step == CachedSendStep::Done),
{
}

/// The first action brings the send closer to its end.
pub proof fn law_start_progresses(m: CachedSendModel, m2: CachedSendModel, a: CachedSendAction)
    requires
        m.step == CachedSendStep::Start,
        start_rel(m, m2, a),
    ensures
        steps_left(m2.step) < steps_left(m.step),
        a != CachedSendAction::Finish,
{
}

/// Without a cache key the message is sent once, no cache file is read or
/// written, and the send's result is the client's.
pub proof fn law_uncached_send(
    m: CachedSendModel,
    m2: CachedSendModel,
    a: CachedSendAction,
    r: Result<String, SketchybarError>,
    m3: CachedSendModel,
    a3: CachedSendAction,
)
    requires
        m.step == CachedSendStep::Start,
        m.cache is None,
        start_rel(m, m2, a),
        next_rel(m2, CachedSendEvent::Sent(r), m3, a3),
    ensures
        a == CachedSendAction::Send,
        a3 == CachedSendAction::Finish,
        m3.outcome == Some(
            match r {
                Ok(_) => Ok::<(), SketchybarError>(()),
                Err(err) => Err(err),
            },
        ),
{
}

/// A cache file that already holds the value skips the send.
pub proof fn law_cache_hit_skips_send(
    m: CachedSendModel,
    previous: String,
    m2: CachedSendModel,
    a: CachedSendAction,
)
    requires
        m.step == CachedSendStep::ReadingCache,
        previous@ == cache_value_of(m),
        next_rel(m, CachedSendEvent::CacheRead(Ok(Some(previous))), m2, a),
    ensures
        a == CachedSendAction::Finish,
        m2.outcome == Some(Ok::<(), SketchybarError>(())),
{
}

/// A missing cache file, or one that holds another value, sends the
/// message.
pub proof fn law_cache_miss_sends(
    m: CachedSendModel,
    previous: Option<String>,
    m2: CachedSendModel,
    a: CachedSendAction,
)
    requires
        m.step == CachedSendStep::ReadingCache,
        previous matches Some(p) ==> p@ != cache_value_of(m),
        next_rel(m, CachedSendEvent::CacheRead(Ok(previous)), m2, a),
    ensures
        a == CachedSendAction::Send,
        m2.step == CachedSendStep::SendingCached,
{
}

/// A successful send records the value in the key's cache file.
pub proof fn law_send_success_writes_cache(
    m: CachedSendModel,
    reply: String,
    m2: CachedSendModel,
    a: CachedSendAction,
)
    requires
        m.step == CachedSendStep::SendingCached,
        next_rel(m, CachedSendEvent::Sent(Ok(reply)), m2, a),
    ensures
        a == CachedSendAction::WriteCache,
        cache_path_of(m2) == cache_path_of(m),
        cache_value_of(m2) == cache_value_of(m),
{
}

/// A failed send removes the key's cache file and then fails with the
/// send's error.
pub proof fn law_send_failure_clears_cache_key(
    m: CachedSendModel,
    error: SketchybarError,
    m2: CachedSendModel,
    a: CachedSendAction,
    m3: CachedSendModel,
    a3: CachedSendAction,
)
    requires
        m.step == CachedSendStep::SendingCached,
        next_rel(m, CachedSendEvent::Sent(Err(error)), m2, a),
        next_rel(m2, CachedSendEvent::CacheKeyCleared, m3, a3),
    ensures
        a == CachedSendAction::ClearCacheKey,
        a3 == CachedSendAction::Finish,
        m3.outcome == Some(Err::<(), SketchybarError>(error)),
{
}

/// When the recorded marker says the same bar was unavailable and the probe
/// finds it available, the whole cache is cleared before anything else.
pub proof fn law_endpoint_restart_clears_cache_dir(
    m: CachedSendModel,
    contents: String,
    m2: CachedSendModel,
    a: CachedSendAction,
)
    requires
        m.step == CachedSendStep::ReadingMarker,
        m.availability == EndpointAvailability::Available,
        parse_marker(contents@) == Some(
            MarkerModel { bar_name: m.bar_name, availability: EndpointAvailability::Unavailable },
        ),
        next_rel(m, CachedSendEvent::MarkerRead(Ok(Some(contents))), m2, a),
    ensures
        a == CachedSendAction::ClearCacheDir,
{
}

/// When the recorded marker names another bar, the whole cache is cleared.
pub proof fn law_bar_rename_clears_cache_dir(
    m: CachedSendModel,
    contents: String,
    m2: CachedSendModel,
    a: CachedSendAction,
)
    requires
        m.step == CachedSendStep::ReadingMarker,
        parse_marker(contents@) matches Some(p) && p.bar_name != m.bar_name,
        next_rel(m, CachedSendEvent::MarkerRead(Ok(Some(contents))), m2, a),
    ensures
        a == CachedSendAction::ClearCacheDir,
{
}

/// A recorded marker that already says the same is not written again, and
/// the cache is kept.
pub proof fn law_unchanged_marker_keeps_cache(
    m: CachedSendModel,
    contents: String,
    m2: CachedSendModel,
    a: CachedSendAction,
)
    requires
        m.step == CachedSendStep::ReadingMarker,
        parse_marker(contents@) == Some(current_marker(m)),
        next_rel(m, CachedSendEvent::MarkerRead(Ok(Some(contents))), m2, a),
    ensures
        a == CachedSendAction::ReadCache || (a == CachedSendAction::Finish && m2.outcome matches Some(Err(SketchybarError::InvalidCacheKey(_)))),
{
}

/// A refused cache key ends the send with the key's error once the marker
/// is recorded; nothing is sent.
pub proof fn law_invalid_key_is_not_sent(
    m: CachedSendModel,
    m2: CachedSendModel,
    a: CachedSendAction,
)
    requires
        m.step == CachedSendStep::WritingMarker,
        cache_key_error(cache_key_of(m)) is Some,
        next_rel(m, CachedSendEvent::MarkerWritten(Ok(())), m2, a),
    ensures
        a == CachedSendAction::Finish,
        m2.outcome matches Some(Err(SketchybarError::InvalidCacheKey(msg))) && msg@
            == cache_key_error(cache_key_of(m))->0,
{
}

} // verus!
