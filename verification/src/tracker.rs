//! The dwell state machine: one observation per tick of which hotspot
//! the pointer sits in, turned into at-most-once enter and leave actions.
//!
//! The machine has three states, read off the fields: Idle
//! (`current` absent), Entered (`current` present, not yet `triggered`)
//! and Fired (`triggered`). A change of detected identity always fires
//! the old location's leave command (if configured) and restarts the
//! dwell timer; an unchanged identity fires the enter command once, at
//! the first tick whose elapsed dwell reaches the configured delay.

use vstd::prelude::*;

use crate::config::{delay_of, spec_resolve, Config};
use crate::detector::{opt_loc_key, Detector, Location};

verus! {

/// The dwell tracker's state: where the pointer was last seen, when it
/// arrived there (milliseconds), and whether the enter action has fired
/// for this occupancy.
#[derive(Debug)]
pub struct Tracker {
    pub current: Option<Location>,
    pub entered: Option<u64>,
    pub triggered: bool,
}

/// Milliseconds elapsed from `entered` to `now`; a clock that runs
/// backwards counts as no elapsed time.
pub open spec fn elapsed(now: u64, entered: u64) -> int {
    if now >= entered {
        now - entered
    } else {
        0
    }
}

/// The leave command owed when departing `cur`: the effective hotspot's
/// `on_leave`, if the location and the command exist.
pub open spec fn leave_cmd(cfg: Config, cur: Option<Location>) -> Option<String> {
    match cur {
        Some(l) => match spec_resolve(cfg, l.screen@, l.position) {
            Some(h) => h.on_leave,
            None => None,
        },
        None => None,
    }
}

/// Whether the dwell of an occupancy that began at `entered` has
/// reached its hotspot's delay by `now`, so the enter action is due.
pub open spec fn dwell_due(cfg: Config, t: Tracker, now: u64) -> bool {
    &&& t.current is Some
    &&& t.entered is Some
    &&& !t.triggered
    &&& match spec_resolve(cfg, t.current->0.screen@, t.current->0.position) {
        Some(h) => elapsed(now, t.entered->0) >= delay_of(h),
        None => false,
    }
}

/// The tracker state after one observation: a changed identity restarts
/// the occupancy (timer at `now`, nothing fired yet); an unchanged one
/// only marks the enter action fired once its dwell is due.
pub open spec fn tracker_step(t: Tracker, detected: Option<Location>, cfg: Config, now: u64) -> Tracker {
    if opt_loc_key(t.current) != opt_loc_key(detected) {
        Tracker {
            current: detected,
            entered: if detected is Some {
                Some(now)
            } else {
                None
            },
            triggered: false,
        }
    } else if dwell_due(cfg, t, now) {
        Tracker { current: t.current, entered: t.entered, triggered: true }
    } else {
        t
    }
}

/// The command dispatched at one observation: the old location's leave
/// command on a change of identity, the enter command when the dwell
/// becomes due, nothing otherwise.
pub open spec fn tracker_emit(t: Tracker, detected: Option<Location>, cfg: Config, now: u64) -> Option<
    String,
> {
    if opt_loc_key(t.current) != opt_loc_key(detected) {
        leave_cmd(cfg, t.current)
    } else if dwell_due(cfg, t, now) {
        match spec_resolve(cfg, t.current->0.screen@, t.current->0.position) {
            Some(h) => h.on_enter,
            None => None,
        }
    } else {
        None
    }
}

impl Tracker {
    /// The state invariant: Idle holds no timer and nothing fired; a
    /// tracked location always has its arrival time; Fired implies a
    /// tracked location.
    pub open spec fn wf(self) -> bool {
        &&& (self.current is None ==> self.entered is None && !self.triggered)
        &&& (self.current is Some ==> self.entered is Some)
        &&& (self.triggered ==> self.current is Some && self.entered is Some)
    }

    pub fn new() -> (r: Self)
        ensures
            r.current is None,
            r.entered is None,
            !r.triggered,
            r.wf(),
    {
        Tracker { current: None, entered: None, triggered: false }
    }

    /// Feed one tick's observation, taken at `now` milliseconds on a
    /// monotonic clock; returns the command to dispatch this tick, if
    /// any.
    pub fn update(&mut self, location: Option<Location>, detector: &Detector, now: u64) -> (action:
        Option<String>)
        ensures
            *final(self) == tracker_step(*old(self), location, detector.config, now),
            action == tracker_emit(*old(self), location, detector.config, now),
            old(self).wf() ==> final(self).wf(),
    {
        if self.current != location {
            let action = match &self.current {
                Some(old_loc) => match detector.get_hotspot(&old_loc.screen, old_loc.position) {
                    Some(h) => crate::config::clone_opt_string(&h.on_leave),
                    None => None,
                },
                None => None,
            };
            self.entered = match &location {
                Some(_) => Some(now),
                None => None,
            };
            self.current = location;
            self.triggered = false;
            return action;
        }
        if self.triggered {
            return None;
        }
        let (loc, entered) = match (&self.current, &self.entered) {
            (Some(l), Some(e)) => (l, *e),
            _ => {
                return None;
            },
        };
        match detector.get_hotspot(&loc.screen, loc.position) {
            Some(h) => {
                let delay = match h.delay {
                    Some(d) => d,
                    None => 0,
                };
                let since: u64 = if now >= entered {
                    now - entered
                } else {
                    0
                };
                if since >= delay {
                    self.triggered = true;
                    crate::config::clone_opt_string(&h.on_enter)
                } else {
                    None
                }
            },
            None => None,
        }
    }
}

} // verus!
