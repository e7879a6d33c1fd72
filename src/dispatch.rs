use vstd::prelude::*;

verus! {

/// How the offloaded holder runs the broadcast of one invocation.
#[derive(PartialEq, Eq, Structural, Clone, Copy, Debug)]
pub enum Dispatch {
    /// On the scheduler that the caller already runs on.
    Ambient,
    /// On the fallback scheduler that an earlier invocation built.
    Cached,
    /// On a fallback scheduler built now and kept for later invocations.
    Construct,
}

/// Where an invocation goes, given whether the caller runs on a scheduler and
/// whether a fallback scheduler is already kept.
pub open spec fn dispatch_of(ambient: bool, cached: bool) -> Dispatch {
    if ambient {
        Dispatch::Ambient
    } else if cached {
        Dispatch::Cached
    } else {
        Dispatch::Construct
    }
}

/// Whether an invocation built a fallback scheduler; `ok` is whether building
/// one, where it was tried, succeeded.
pub open spec fn fallback_built(ambient: bool, cached: bool, ok: bool) -> bool {
    dispatch_of(ambient, cached) == Dispatch::Construct && ok
}

/// Whether a fallback scheduler is kept after an invocation.
pub open spec fn cached_after(ambient: bool, cached: bool, ok: bool) -> bool {
    cached || fallback_built(ambient, cached, ok)
}

/// The number of fallback schedulers built over a run of invocations. Each
/// event says whether the caller ran on a scheduler, and whether building a
/// fallback one, where it was tried, succeeded. A call of `fallback_step`
/// decides by `dispatch_of` and changes the slot only to build, so the slot
/// holds a scheduler afterwards exactly when `cached_after` says.
pub open spec fn fallbacks_built(events: Seq<(bool, bool)>, cached: bool) -> nat
    decreases events.len(),
{
    if events.len() == 0 {
        0
    } else {
        let (ambient, ok) = events[0];
        let now: nat = if fallback_built(ambient, cached, ok) { 1 } else { 0 };
        now + fallbacks_built(events.drop_first(), cached_after(ambient, cached, ok))
    }
}

/// Picks where an invocation goes.
pub fn plan_dispatch(ambient: bool, cached: bool) -> (d: Dispatch)
    ensures
        d == dispatch_of(ambient, cached),
{
    if ambient {
        Dispatch::Ambient
    } else if cached {
        Dispatch::Cached
    } else {
        Dispatch::Construct
    }
}

/// Once a fallback scheduler is kept, no invocation builds another.
pub proof fn lemma_cached_builds_none(events: Seq<(bool, bool)>)
    ensures
        fallbacks_built(events, true) == 0,
    decreases events.len(),
{
    if events.len() > 0 {
        lemma_cached_builds_none(events.drop_first());
    }
}

/// Over any run of invocations, whatever the callers' schedulers and however
/// building turns out, at most one fallback scheduler is built, and none once
/// one is kept.
pub proof fn lemma_fallback_built_at_most_once(events: Seq<(bool, bool)>, cached: bool)
    ensures
        fallbacks_built(events, cached) <= 1,
        cached ==> fallbacks_built(events, cached) == 0,
    decreases events.len(),
{
    if events.len() > 0 {
        let (ambient, ok) = events[0];
        if fallback_built(ambient, cached, ok) {
            lemma_cached_builds_none(events.drop_first());
        } else {
            lemma_fallback_built_at_most_once(events.drop_first(), cached_after(ambient, cached, ok));
        }
    }
    if cached {
        lemma_cached_builds_none(events);
    }
}

} // verus!
