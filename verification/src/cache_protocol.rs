//! The protocol by which a dictionary is opened with its cache.
//!
//! The cache beside a dictionary is served only where it records the
//! version of this library. Where it is missing, stale or incomplete, what
//! is there is removed, the index is built from the files and written to a
//! fresh cache, and the cache is looked at once more. A cache that is not
//! fit to serve after it was built is given up: nothing is built twice.
//!
//! The protocol is a machine: the caller carries out the command it is
//! given, reports what came of it as an event, and is given the next
//! command.

use vstd::prelude::*;
use crate::cache::action_for;
use crate::cache::cache_action;
use crate::cache::CacheAction;

verus! {

/// Where the opening of a dictionary stands.
#[derive(Clone, Copy, Debug, PartialEq, Eq, Structural)]
pub enum CacheState {
    /// The cache is being looked at; `rebuilt` tells whether it was built
    /// in this opening.
    Probing { rebuilt: bool },
    /// The index is being built and written to a fresh cache.
    Building,
    /// The cache is served.
    Ready,
    /// The opening has failed.
    Failed,
}

/// What the caller is to do next.
#[derive(Clone, Copy, Debug, PartialEq, Eq, Structural)]
pub enum CacheCommand {
    /// Look for the cache and read the version that it records.
    Probe,
    /// Remove what is there, build the index from the files and write a
    /// fresh cache.
    Build,
    /// Open the cache read-only and serve lookups from it.
    Serve,
    /// Report that the dictionary cannot be opened.
    GiveUp,
}

/// What came of a command.
#[derive(Clone, Debug)]
pub enum CacheEvent {
    /// There is no cache.
    Missing,
    /// There is a cache, and it records this version, or none.
    Found(Option<String>),
    /// The cache was built.
    Built,
    /// The cache could not be built.
    BuildFailed,
}

/// An event as contracts see it.
pub enum CacheEventView {
    Missing,
    Found(Option<Seq<char>>),
    Built,
    BuildFailed,
}

impl View for CacheEvent {
    type V = CacheEventView;

    open spec fn view(&self) -> CacheEventView {
        match self {
            CacheEvent::Missing => CacheEventView::Missing,
            CacheEvent::Found(version) => CacheEventView::Found(
                match version {
                    Some(v) => Some(v@),
                    None => None,
                },
            ),
            CacheEvent::Built => CacheEventView::Built,
            CacheEvent::BuildFailed => CacheEventView::BuildFailed,
        }
    }
}

/// Whether an event reports a cache that is fit to serve.
pub open spec fn fit_to_serve(event: CacheEventView) -> bool {
    match event {
        CacheEventView::Found(version) => action_for(version) == CacheAction::Open,
        _ => false,
    }
}

/// The state and the command that follow an event in a state. A cache that
/// is fit is served. One that is missing or unfit is built, unless it was
/// built in this opening already. After the build the cache is looked at
/// again. An event that answers no command of the state fails the
/// opening.
pub open spec fn next_step(state: CacheState, event: CacheEventView) -> (CacheState, CacheCommand) {
    match state {
        CacheState::Probing { rebuilt } => match event {
            CacheEventView::Missing | CacheEventView::Found(_) => if fit_to_serve(event) {
                (CacheState::Ready, CacheCommand::Serve)
            } else if rebuilt {
                (CacheState::Failed, CacheCommand::GiveUp)
            } else {
                (CacheState::Building, CacheCommand::Build)
            },
            _ => (CacheState::Failed, CacheCommand::GiveUp),
        },
        CacheState::Building => match event {
            CacheEventView::Built => (CacheState::Probing { rebuilt: true }, CacheCommand::Probe),
            _ => (CacheState::Failed, CacheCommand::GiveUp),
        },
        CacheState::Ready => (CacheState::Failed, CacheCommand::GiveUp),
        CacheState::Failed => (CacheState::Failed, CacheCommand::GiveUp),
    }
}

/// The state in which an opening begins.
pub open spec fn first_state() -> CacheState {
    CacheState::Probing { rebuilt: false }
}

/// Begins the opening of a dictionary: the cache is to be looked at.
pub fn begin() -> (res: (CacheState, CacheCommand))
    ensures
        res == (first_state(), CacheCommand::Probe),
{
    (CacheState::Probing { rebuilt: false }, CacheCommand::Probe)
}

/// Takes the step that follows an event in a state.
pub fn step(state: CacheState, event: &CacheEvent) -> (res: (CacheState, CacheCommand))
    ensures
        res == next_step(state, event@),
{
    match state {
        CacheState::Probing { rebuilt } => {
            let fit = match event {
                CacheEvent::Found(Some(version)) => match cache_action(Some(version.as_str())) {
                    CacheAction::Open => true,
                    CacheAction::Rebuild => false,
                },
                _ => false,
            };
            match event {
                CacheEvent::Missing | CacheEvent::Found(_) => if fit {
                    (CacheState::Ready, CacheCommand::Serve)
                } else if rebuilt {
                    (CacheState::Failed, CacheCommand::GiveUp)
                } else {
                    (CacheState::Building, CacheCommand::Build)
                },
                _ => (CacheState::Failed, CacheCommand::GiveUp),
            }
        },
        CacheState::Building => match event {
            CacheEvent::Built => (CacheState::Probing { rebuilt: true }, CacheCommand::Probe),
            _ => (CacheState::Failed, CacheCommand::GiveUp),
        },
        CacheState::Ready => (CacheState::Failed, CacheCommand::GiveUp),
        CacheState::Failed => (CacheState::Failed, CacheCommand::GiveUp),
    }
}

/// The state after a run of events, and the number of times that a build
/// was commanded in the run.
pub open spec fn after_run(state: CacheState, events: Seq<CacheEventView>) -> (CacheState, nat)
    decreases events.len(),
{
    if events.len() == 0 {
        (state, 0)
    } else {
        let (before, builds) = after_run(state, events.drop_last());
        let (next, command) = next_step(before, events.last());
        (
            next,
            if command == CacheCommand::Build {
                builds + 1
            } else {
                builds
            },
        )
    }
}

/// Whether a build was commanded before a state was reached, as far as the
/// state tells.
pub open spec fn built_before(state: CacheState) -> bool {
    state == CacheState::Building || state == (CacheState::Probing { rebuilt: true })
}

/// In an opening a build is commanded at most once, whatever the events:
/// a cache is never built twice.
pub proof fn lemma_built_at_most_once(events: Seq<CacheEventView>)
    ensures
        after_run(first_state(), events).1 <= 1,
        after_run(first_state(), events).1 == 0 ==> !built_before(
            after_run(first_state(), events).0,
        ),
        after_run(first_state(), events).0 == first_state() ==> after_run(
            first_state(),
            events,
        ).1 == 0,
    decreases events.len(),
{
    if events.len() > 0 {
        lemma_built_at_most_once(events.drop_last());
    }
}

/// A cache is served only after it was found to record the version of
/// this library, and a step serves exactly where the cache that was
/// looked at is fit.
pub proof fn lemma_served_only_when_current(state: CacheState, event: CacheEventView)
    ensures
        next_step(state, event).1 == CacheCommand::Serve <==> state is Probing && fit_to_serve(
            event,
        ),
        next_step(state, event).1 == CacheCommand::Serve ==> event is Found && event->Found_0
            == Some(crate::cache::CACHE_VERSION@),
        next_step(state, event).0 == CacheState::Ready <==> next_step(state, event).1
            == CacheCommand::Serve,
{
}

} // verus!
