//! The host surface that an action needs before it emits anything: the
//! events it produces and the actions it routes to must have been granted.

use vstd::prelude::*;

use crate::text::concat2;

verus! {

/// The two parts of a host surface.
#[derive(Debug, Clone, Copy, PartialEq, Eq, Structural)]
pub enum SurfaceKind {
    /// An event the extension emits.
    Event,
    /// An action the extension's output is routed to.
    Action,
}

/// A part of the host surface an action needs, with the host's answer on
/// whether it was granted.
#[derive(Debug, Clone)]
pub struct SurfaceRequirement {
    /// Whether an event or an action is needed.
    pub kind: SurfaceKind,
    /// The event kind or the action name.
    pub name: String,
    /// Whether the host context lists it.
    pub available: bool,
}

/// The surface an action needs was not granted.
#[derive(Debug)]
pub enum SurfaceError {
    /// A required event is not available.
    MissingEvent(String),
    /// A required action is not available.
    MissingAction(String),
}

impl SurfaceError {
    /// The text this error is reported with.
    pub fn message(&self) -> (r: String)
        ensures
            r@ == match self {
                SurfaceError::MissingEvent(name) => "required event is not available: "@ + name@,
                SurfaceError::MissingAction(name) => "required action is not available: "@
                    + name@,
            },
    {
        match self {
            SurfaceError::MissingEvent(name) => concat2(
                "required event is not available: ",
                name.as_str(),
            ),
            SurfaceError::MissingAction(name) => concat2(
                "required action is not available: ",
                name.as_str(),
            ),
        }
    }
}

/// The first requirement, in order, that the host did not grant.
pub open spec fn first_missing(requirements: Seq<SurfaceRequirement>) -> Option<
    SurfaceRequirement,
>
    decreases requirements.len(),
{
    if requirements.len() == 0 {
        None
    } else {
        match first_missing(requirements.drop_last()) {
            Some(r) => Some(r),
            None => if requirements.last().available {
                None
            } else {
                Some(requirements.last())
            },
        }
    }
}

/// The error a missing requirement is reported with.
pub open spec fn missing_error_matches(e: SurfaceError, missing: SurfaceRequirement) -> bool {
    match missing.kind {
        SurfaceKind::Event => e matches SurfaceError::MissingEvent(name) && name@ == missing.name@,
        SurfaceKind::Action => e matches SurfaceError::MissingAction(name) && name@
            == missing.name@,
    }
}

/// Check the requirements against the host's answers. Without a host
/// context (a direct command-line run) nothing is required.
pub fn check_surface(requirements: Option<&[SurfaceRequirement]>) -> (r: Result<(), SurfaceError>)
    ensures
        match requirements {
            None => r is Ok,
            Some(reqs) => match first_missing(reqs@) {
                None => r is Ok,
                Some(missing) => r matches Err(e) && missing_error_matches(e, missing),
            },
        },
{
    let reqs = match requirements {
        None => return Ok(()),
        Some(reqs) => reqs,
    };
    let mut i: usize = 0;
    while i < reqs.len()
        invariant
            requirements == Some(reqs),
            i <= reqs.len(),
            first_missing(reqs@.take(i as int)) is None,
        decreases reqs.len() - i,
    {
        proof {
            assert(reqs@.take(i + 1).drop_last() =~= reqs@.take(i as int));
        }
        let requirement = &reqs[i];
        if !requirement.available {
            proof {
                assert(reqs@.take(i + 1).last() == reqs@[i as int]);
                lemma_first_missing_prefix(reqs@, i + 1);
            }
            let name = requirement.name.clone();
            return match requirement.kind {
                SurfaceKind::Event => Err(SurfaceError::MissingEvent(name)),
                SurfaceKind::Action => Err(SurfaceError::MissingAction(name)),
            };
        }
        i = i + 1;
    }
    proof {
        assert(reqs@.take(reqs.len() as int) =~= reqs@);
    }
    Ok(())
}

/// Once a prefix misses a requirement, the first missing requirement of the
/// whole list is the prefix's.
proof fn lemma_first_missing_prefix(requirements: Seq<SurfaceRequirement>, k: int)
    requires
        0 <= k <= requirements.len(),
        first_missing(requirements.take(k)) is Some,
    ensures
        first_missing(requirements) == first_missing(requirements.take(k)),
    decreases requirements.len() - k,
{
    if k < requirements.len() {
        assert(requirements.take(k + 1).drop_last() =~= requirements.take(k));
        lemma_first_missing_prefix(requirements, k + 1);
    } else {
        assert(requirements.take(k) =~= requirements);
    }
}

} // verus!
