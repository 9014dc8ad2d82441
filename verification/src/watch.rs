//! The policy watcher's decisions. The caller reads the file, arms the file
//! watch and waits; after each of these it reports what happened and does
//! what it is told next. Changes that follow a reload too closely do not
//! start another one at once, but none of them is lost: the watcher
//! remembers that a change is pending and has it loaded once the debounce
//! time is over.
use vstd::prelude::*;

verus! {

/// Where the watcher stands.
#[derive(Clone, Copy, Debug, PartialEq, Eq, Structural)]
pub enum Phase {
    /// Nothing was done yet.
    Created,
    /// The first load of the policy is under way.
    Starting,
    /// The file watch is being set up.
    Arming,
    /// Waiting for a change of the file.
    Watching,
    /// A reload after a change is under way.
    Reloading,
    /// The watcher has given up.
    Stopped,
}

/// The watcher's state.
#[derive(Clone, Copy, Debug, PartialEq, Eq, Structural)]
pub struct Watch {
    pub phase: Phase,
    /// When the last reload was started, if one was.
    pub last_reload: Option<u64>,
    /// For how long after the start of a reload further changes are held
    /// back, in milliseconds.
    pub debounce: u64,
    /// A change of the file's content was reported that no load has picked
    /// up yet.
    pub pending: bool,
}

/// What the caller reports.
#[derive(Clone, Copy, Debug, PartialEq, Eq, Structural)]
pub enum Event {
    /// The service was started.
    Started,
    /// A load of the policy ended, well or not.
    Loaded { ok: bool },
    /// Setting up the file watch ended, well or not.
    Armed { ok: bool },
    /// The file watch reported something at time `at`; `modify` says
    /// whether it was a change of the file's content.
    Changed { modify: bool, at: u64 },
    /// The caller waited until time `at` without a report.
    Elapsed { at: u64 },
    /// The file watch has ended.
    Closed,
}

/// What the caller is to do next.
#[derive(Clone, Copy, Debug, PartialEq, Eq, Structural)]
pub enum Action {
    /// Read the policy file and put it in force.
    Load,
    /// Set up the file watch.
    Arm,
    /// Wait for the next report of the file watch, but no longer than until
    /// the watcher's deadline, where it has one.
    Wait,
    /// Log the failed reload, keep the policy in force, and wait.
    Report,
    /// Log the failure and end the service.
    Stop,
}

/// Whether a change at `at` comes too soon after the last reload.
pub open spec fn debounced(watch: Watch, at: u64) -> bool {
    watch.last_reload matches Some(last) && last <= at && at - last < watch.debounce
}

/// The time until which a waiting caller may wait at most, where a change
/// is pending: the end of the debounce time, or the largest time where that
/// end cannot be written.
pub open spec fn deadline_of(watch: Watch) -> Option<u64> {
    if watch.phase == Phase::Watching && watch.pending {
        match watch.last_reload {
            Some(last) => if last + watch.debounce <= u64::MAX {
                Some((last + watch.debounce) as u64)
            } else {
                Some(u64::MAX)
            },
            None => Some(0u64),
        }
    } else {
        None
    }
}

/// The state in which a reload that was started at `at` is under way: it
/// picks up whatever change was pending.
pub open spec fn reloading(watch: Watch, at: u64) -> Watch {
    Watch { phase: Phase::Reloading, last_reload: Some(at), pending: false, ..watch }
}

/// The watcher's next state and the caller's next action.
///
/// The first load has to succeed, and so has the setting up of the watch:
/// otherwise the watcher stops. Later a change of the file's content starts
/// a reload, at once or, where it comes too soon after the last one, as soon
/// as the caller reports that the debounce time is over. A change that is
/// reported while a reload is under way is remembered in the same way. A
/// reload that fails is reported and changes nothing. Whatever does not fit
/// the phase is passed over.
pub open spec fn next(watch: Watch, event: Event) -> (Watch, Action) {
    match (watch.phase, event) {
        (Phase::Created, Event::Started) => (
            Watch { phase: Phase::Starting, ..watch },
            Action::Load,
        ),
        (Phase::Starting, Event::Loaded { ok }) => if ok {
            (Watch { phase: Phase::Arming, ..watch }, Action::Arm)
        } else {
            (Watch { phase: Phase::Stopped, ..watch }, Action::Stop)
        },
        (Phase::Arming, Event::Armed { ok }) => if ok {
            (Watch { phase: Phase::Watching, ..watch }, Action::Wait)
        } else {
            (Watch { phase: Phase::Stopped, ..watch }, Action::Stop)
        },
        (Phase::Watching, Event::Changed { modify, at }) => if !modify {
            (watch, Action::Wait)
        } else if debounced(watch, at) {
            (Watch { pending: true, ..watch }, Action::Wait)
        } else {
            (reloading(watch, at), Action::Load)
        },
        (Phase::Watching, Event::Elapsed { at }) => if watch.pending && !debounced(watch, at) {
            (reloading(watch, at), Action::Load)
        } else {
            (watch, Action::Wait)
        },
        (Phase::Reloading, Event::Changed { modify, at }) => (
            Watch { pending: watch.pending || modify, ..watch },
            Action::Wait,
        ),
        (Phase::Reloading, Event::Loaded { ok }) => (
            Watch { phase: Phase::Watching, ..watch },
            if ok {
                Action::Wait
            } else {
                Action::Report
            },
        ),
        (Phase::Watching, Event::Closed) => (
            Watch { phase: Phase::Stopped, ..watch },
            Action::Stop,
        ),
        (Phase::Reloading, Event::Closed) => (
            Watch { phase: Phase::Stopped, ..watch },
            Action::Stop,
        ),
        (Phase::Stopped, _) => (watch, Action::Stop),
        _ => (watch, Action::Wait),
    }
}

impl Watch {
    /// A watcher that has done nothing yet.
    pub fn new(debounce: u64) -> (watch: Self)
        ensures
            watch == (Watch {
                phase: Phase::Created,
                last_reload: None,
                debounce,
                pending: false,
            }),
    {
        Watch { phase: Phase::Created, last_reload: None, debounce, pending: false }
    }

    /// Whether a change at `at` comes too soon after the last reload.
    pub fn is_debounced(&self, at: u64) -> (too_soon: bool)
        ensures
            too_soon == debounced(*self, at),
    {
        match self.last_reload {
            Some(last) => last <= at && at - last < self.debounce,
            None => false,
        }
    }

    /// The time until which the caller may wait at most before it reports
    /// that the time has elapsed; none where no change is pending.
    pub fn deadline(&self) -> (until: Option<u64>)
        ensures
            until == deadline_of(*self),
    {
        match self.phase {
            Phase::Watching => {
                if !self.pending {
                    return None;
                }
                match self.last_reload {
                    Some(last) => {
                        if last <= u64::MAX - self.debounce {
                            Some(last + self.debounce)
                        } else {
                            Some(u64::MAX)
                        }
                    },
                    None => Some(0),
                }
            },
            _ => None,
        }
    }

    /// Takes a report and says what to do next.
    pub fn on_event(self, event: Event) -> (step: (Watch, Action))
        ensures
            step == next(self, event),
    {
        match self.phase {
            Phase::Created => match event {
                Event::Started => (
                    Watch { phase: Phase::Starting, ..self },
                    Action::Load,
                ),
                _ => (self, Action::Wait),
            },
            Phase::Starting => match event {
                Event::Loaded { ok: true } => (Watch { phase: Phase::Arming, ..self }, Action::Arm),
                Event::Loaded { ok: false } => (
                    Watch { phase: Phase::Stopped, ..self },
                    Action::Stop,
                ),
                _ => (self, Action::Wait),
            },
            Phase::Arming => match event {
                Event::Armed { ok: true } => (
                    Watch { phase: Phase::Watching, ..self },
                    Action::Wait,
                ),
                Event::Armed { ok: false } => (
                    Watch { phase: Phase::Stopped, ..self },
                    Action::Stop,
                ),
                _ => (self, Action::Wait),
            },
            Phase::Watching => match event {
                Event::Changed { modify, at } => {
                    if !modify {
                        (self, Action::Wait)
                    } else if self.is_debounced(at) {
                        (Watch { pending: true, ..self }, Action::Wait)
                    } else {
                        (
                            Watch {
                                phase: Phase::Reloading,
                                last_reload: Some(at),
                                pending: false,
                                ..self
                            },
                            Action::Load,
                        )
                    }
                },
                Event::Elapsed { at } => {
                    if self.pending && !self.is_debounced(at) {
                        (
                            Watch {
                                phase: Phase::Reloading,
                                last_reload: Some(at),
                                pending: false,
                                ..self
                            },
                            Action::Load,
                        )
                    } else {
                        (self, Action::Wait)
                    }
                },
                Event::Closed => (Watch { phase: Phase::Stopped, ..self }, Action::Stop),
                _ => (self, Action::Wait),
            },
            Phase::Reloading => match event {
                Event::Changed { modify, at: _ } => (
                    Watch { pending: self.pending || modify, ..self },
                    Action::Wait,
                ),
                Event::Loaded { ok } => (
                    Watch { phase: Phase::Watching, ..self },
                    if ok {
                        Action::Wait
                    } else {
                        Action::Report
                    },
                ),
                Event::Closed => (Watch { phase: Phase::Stopped, ..self }, Action::Stop),
                _ => (self, Action::Wait),
            },
            Phase::Stopped => (self, Action::Stop),
        }
    }
}

/// The watcher's state after a run of reports.
pub open spec fn after_events(watch: Watch, events: Seq<Event>) -> Watch
    decreases events.len(),
{
    if events.len() == 0 {
        watch
    } else {
        next(after_events(watch, events.drop_last()), events.last()).0
    }
}

/// A watcher that has stopped stays stopped.
pub proof fn law_stopped_stays_stopped(watch: Watch, events: Seq<Event>)
    requires
        watch.phase == Phase::Stopped,
    ensures
        after_events(watch, events) == watch,
    decreases events.len(),
{
    if events.len() > 0 {
        law_stopped_stays_stopped(watch, events.drop_last());
    }
}

/// Once the first load has succeeded, no failed load stops the watcher: it
/// is reported, and the watcher goes on watching.
pub proof fn law_failed_reload_is_survived(watch: Watch)
    requires
        watch.phase == Phase::Reloading,
    ensures
        next(watch, Event::Loaded { ok: false }) == (
            Watch { phase: Phase::Watching, ..watch },
            Action::Report,
        ),
{
}

/// A first load that fails ends the service.
pub proof fn law_failed_first_load_stops(watch: Watch)
    requires
        watch.phase == Phase::Starting,
    ensures
        next(watch, Event::Loaded { ok: false }).1 == Action::Stop,
        next(watch, Event::Loaded { ok: false }).0.phase == Phase::Stopped,
{
}

/// Between two reloads that the watcher starts lies at least the debounce
/// time, unless the clock went backwards.
pub proof fn law_reloads_are_spaced(watch: Watch, at: u64)
    requires
        watch.phase == Phase::Watching,
        watch.last_reload matches Some(last) && last <= at,
        next(watch, Event::Changed { modify: true, at }).1 == Action::Load,
    ensures
        at - watch.last_reload.unwrap() >= watch.debounce,
{
}

/// No change of the file's content is lost while the watcher watches: it
/// starts a reload at once, or it is remembered as pending and the watcher
/// has a deadline for it.
pub proof fn law_change_is_loaded_or_pending(watch: Watch, at: u64)
    requires
        watch.phase == Phase::Watching,
    ensures
        ({
            let step = next(watch, Event::Changed { modify: true, at });
            ||| step == (reloading(watch, at), Action::Load)
            ||| step.0.phase == Phase::Watching && step.0.pending && deadline_of(step.0) is Some
                && step.1 == Action::Wait
        }),
{
}

/// A change that is reported while a reload is under way is pending when
/// the reload has ended, whether it ended well or not.
pub proof fn law_change_during_reload_is_pending(watch: Watch, at: u64, ok: bool)
    requires
        watch.phase == Phase::Reloading,
    ensures
        ({
            let changed = next(watch, Event::Changed { modify: true, at }).0;
            let ended = next(changed, Event::Loaded { ok }).0;
            ended.phase == Phase::Watching && ended.pending && deadline_of(ended) is Some
        }),
{
}

/// A pending change is loaded as soon as the caller reports that the
/// deadline has come, and then it is pending no longer.
pub proof fn law_pending_change_is_loaded(watch: Watch, at: u64)
    requires
        watch.phase == Phase::Watching,
        watch.pending,
        watch.last_reload matches Some(last) ==> last + watch.debounce <= u64::MAX,
        deadline_of(watch) matches Some(until) && until <= at,
    ensures
        next(watch, Event::Elapsed { at }) == (reloading(watch, at), Action::Load),
        !reloading(watch, at).pending,
{
}

/// Only a load picks a pending change up: while the watcher watches, no
/// other report clears it.
pub proof fn law_pending_stays_until_loaded(watch: Watch, event: Event)
    requires
        watch.phase == Phase::Watching,
        watch.pending,
    ensures
        next(watch, event).1 == Action::Load || next(watch, event).0.pending || next(
            watch,
            event,
        ).0.phase == Phase::Stopped,
{
}

} // verus!
