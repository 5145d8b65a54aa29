//! What the daemon does between two requests: whether it goes on, saves its
//! registry, or ends its run.

use crate::app::App;
use crate::registry::Registry;
use crate::time::{clock, elapsed, longer_than, secs_to_nanos, Timestamp};
use vstd::prelude::*;

verus! {

/// What has happened to the daemon while it waited.
#[derive(Clone, Copy, Debug, PartialEq, Eq, Structural)]
pub enum Event {
    /// A request was taken and answered; `reload` tells whether it asked the
    /// daemon to start again.
    Served { reload: bool },
    /// A request could not be read or answered.
    Failed,
    /// The daemon was told to stop.
    Stopped,
}

/// What the daemon does next.
#[derive(Clone, Copy, Debug, PartialEq, Eq, Structural)]
pub enum Step {
    /// It waits for the next event, after saving its registry where `save`
    /// is set.
    GoOn { save: bool },
    /// It saves its registry and ends its run; `reload` tells whether it is
    /// to start again.
    Leave { reload: bool },
}

/// Whether the registry `reg` is due to be saved at `now`: when more than
/// its update interval has passed since it was last saved.
pub open spec fn save_due(reg: Registry, now: nat) -> bool {
    elapsed(now, reg.stats.lastsave) > secs_to_nanos(reg.update)
}

/// What follows the event `event` at `now`. The run ends when the daemon was
/// told to stop or a request asked it to start again; else it goes on, and
/// the registry is saved where that is due.
pub open spec fn step_after(reg: Registry, event: Event, now: nat) -> Step {
    match event {
        Event::Stopped => Step::Leave { reload: false },
        Event::Served { reload: true } => Step::Leave { reload: true },
        _ => Step::GoOn { save: save_due(reg, now) },
    }
}

impl App {
    /// What the daemon does after `event`, at `now`.
    pub fn next_step_at(&self, event: Event, now: Timestamp) -> (step: Step)
        ensures
            step == step_after(self@, event, now@),
    {
        match event {
            Event::Stopped => Step::Leave { reload: false },
            Event::Served { reload: true } => Step::Leave { reload: true },
            _ => Step::GoOn {
                save: longer_than(&now, &self.statistics().lastsave, self.config().data.update),
            },
        }
    }

    /// What the daemon does after `event`, at the time of the call.
    pub fn next_step(&self, event: Event) -> (step: Step)
        ensures
            exists|now: nat| step == step_after(self@, event, now),
    {
        let now = clock();
        let step = self.next_step_at(event, now);
        assert(step == step_after(self@, event, now@));
        step
    }
}

} // verus!
