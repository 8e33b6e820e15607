//! The presence-cycle state machine: which kind each tick works on, how the
//! commanded channel state changes with the tick's outcome, and when a run
//! ends. The outside work of a tick — fetching a summary and publishing or
//! clearing statuses — is done by the caller, which reports what happened;
//! every decision in between is made here.

use vstd::prelude::*;
use crate::rotation::{
    advance, count_true, first_enabled, initial_active, lemma_advance_none, lemma_advance_some,
    lemma_count_zero, spec_advance,
};

verus! {

/// Seconds between ticks when exactly one kind is in rotation: a
/// deliberately quicker cadence for a single metric.
pub const SINGLE_KIND_TICK_SECS: u64 = 30;

/// Seconds between ticks when two or more kinds are in rotation.
pub const MULTI_KIND_TICK_SECS: u64 = 60;

/// Seconds an idle run (no kind enabled) sleeps between rotation checks.
pub const IDLE_WAIT_SECS: u64 = 60;

/// Seconds the supervisor cools down before rebuilding every session and
/// starting a fresh run.
pub const RESTART_COOLDOWN_SECS: u64 = 5;

/// Seconds granted to freshly constructed sessions to finish their
/// handshakes before the first tick.
pub const CONNECT_GRACE_SECS: u64 = 2;

/// The tick period for a run with `enabled_kinds` kinds in rotation.
pub fn tick_period_secs(enabled_kinds: usize) -> (r: u64)
    ensures
        r == (if enabled_kinds == 1 {
            SINGLE_KIND_TICK_SECS
        } else {
            MULTI_KIND_TICK_SECS
        }),
{
    if enabled_kinds == 1 {
        SINGLE_KIND_TICK_SECS
    } else {
        MULTI_KIND_TICK_SECS
    }
}

/// How a publish attempt on the active channel ended: delivered, refused by
/// the channel, or cut short by a fault inside the channel library (caught
/// at the call boundary, never allowed to end the process).
#[derive(Clone, Copy, Debug, PartialEq, Eq, Structural)]
pub enum PublishOutcome {
    Delivered,
    ChannelError,
    Fault,
}

/// What one tick's outside work came to: the fetch failed (recording
/// whether the best-effort degraded status settled on the channel), or the
/// fetch succeeded and the publish ended as recorded.
#[derive(Clone, Copy, Debug, PartialEq, Eq, Structural)]
pub enum TickEvent {
    FetchFailed { degraded_shown: bool },
    Published { outcome: PublishOutcome },
}

/// Whether the run goes on after a tick, or ends and is rebuilt whole by
/// the supervisor.
#[derive(Clone, Copy, Debug, PartialEq, Eq, Structural)]
pub enum TickOutcome {
    Continue,
    Terminate,
}

/// The kind a tick works on under the given enabled flags: the active kind
/// while it stays enabled, else the next enabled kind after it; `None` when
/// no kind is enabled at all, in which case the tick only idles.
pub open spec fn spec_plan(enabled: Seq<bool>, active: int) -> Option<int> {
    if enabled[active] {
        Some(active)
    } else {
        spec_advance(enabled, active)
    }
}

/// The mutable state of one scheduler run: the position of the active kind
/// and, for every kind, whether the scheduler has a status standing on that
/// kind's channel — the commanded channel state, as settled publishes and
/// clears leave it.
pub struct Scheduler {
    pub active: usize,
    pub visible: Vec<bool>,
}

impl Scheduler {
    /// The active position indexes a kind.
    pub open spec fn wf(self) -> bool {
        self.active < self.visible@.len()
    }

    /// A fresh run: the first enabled kind is active (position zero when
    /// none is enabled) and no status stands anywhere.
    pub fn new(enabled: &Vec<bool>) -> (s: Self)
        requires
            enabled@.len() > 0,
        ensures
            s.wf(),
            s.visible@.len() == enabled@.len(),
            forall|i: int| 0 <= i < enabled@.len() ==> !s.visible@[i],
            (match first_enabled(enabled@) {
                Some(j) => s.active as int == j,
                None => s.active == 0,
            }),
    {
        proof {
            crate::rotation::lemma_first_enabled(enabled@);
        }
        let active = match initial_active(enabled) {
            Some(j) => j,
            None => 0,
        };
        let n = enabled.len();
        let mut visible: Vec<bool> = Vec::new();
        let mut i: usize = 0;
        while i < n
            invariant
                i <= n,
                visible@.len() == i,
                forall|t: int| 0 <= t < i ==> !visible@[t],
            decreases n - i,
        {
            visible.push(false);
            i = i + 1;
        }
        Scheduler { active, visible }
    }

    /// Picks the kind this tick works on, or `None` to idle this tick:
    /// exactly the all-kinds-disabled case.
    pub fn plan(&self, enabled: &Vec<bool>) -> (r: Option<usize>)
        requires
            self.wf(),
            enabled@.len() == self.visible@.len(),
        ensures
            (match r {
                Some(j) => spec_plan(enabled@, self.active as int) == Some(j as int) && j
                    < enabled@.len() && enabled@[j as int] && count_true(enabled@) > 0,
                None => spec_plan(enabled@, self.active as int) is None && count_true(enabled@)
                    == 0,
            }),
    {
        proof {
            lemma_count_zero(enabled@);
            lemma_advance_none(enabled@, self.active as int);
            if spec_advance(enabled@, self.active as int) is Some {
                lemma_advance_some(enabled@, self.active as int);
            }
        }
        if enabled[self.active] {
            Some(self.active)
        } else {
            advance(enabled, self.active)
        }
    }

    /// Moves the rotation on to the next enabled kind after `kind`.
    fn advance_active(&mut self, enabled: &Vec<bool>, kind: usize)
        requires
            enabled@.len() == old(self).visible@.len(),
            (kind as int) < enabled@.len(),
            enabled@[kind as int],
        ensures
            final(self).visible == old(self).visible,
            final(self).wf(),
            Some(final(self).active as int) == spec_advance(enabled@, kind as int),
    {
        proof {
            lemma_count_zero(enabled@);
            lemma_advance_none(enabled@, kind as int);
            if spec_advance(enabled@, kind as int) is Some {
                lemma_advance_some(enabled@, kind as int);
            }
        }
        match advance(enabled, kind) {
            Some(j) => {
                self.active = j;
            },
            None => {
                proof {
                    assert(false);
                }
            },
        }
    }

    /// Applies what one tick's outside work came to, for the kind that
    /// `plan` picked. A fetch failure leaves at most the degraded status
    /// standing on the active kind and the rotation continues; a delivered
    /// publish leaves the active kind's status standing, clears every other
    /// enabled kind's, and the rotation continues; a failed publish — a
    /// channel error or a fault caught at the call boundary — ends the run,
    /// whichever kind was active, with nothing else changed.
    pub fn apply(&mut self, enabled: &Vec<bool>, kind: usize, event: TickEvent) -> (r: TickOutcome)
        requires
            old(self).wf(),
            enabled@.len() == old(self).visible@.len(),
            spec_plan(enabled@, old(self).active as int) == Some(kind as int),
        ensures
            final(self).wf(),
            final(self).visible@.len() == old(self).visible@.len(),
            (kind as int) < enabled@.len() && enabled@[kind as int],
            (r == TickOutcome::Terminate) <==> (event matches TickEvent::Published { outcome }
                && outcome != PublishOutcome::Delivered),
            (event matches TickEvent::Published { outcome: PublishOutcome::Delivered }
                ==> forall|i: int|
                    0 <= i < enabled@.len() && enabled@[i] && final(self).visible@[i] ==> i
                        == kind as int),
            (match event {
                TickEvent::FetchFailed { degraded_shown } => {
                    &&& r == TickOutcome::Continue
                    &&& final(self).visible@ == (if degraded_shown {
                        old(self).visible@.update(kind as int, true)
                    } else {
                        old(self).visible@
                    })
                    &&& Some(final(self).active as int) == spec_advance(enabled@, kind as int)
                },
                TickEvent::Published { outcome } => match outcome {
                    PublishOutcome::Delivered => {
                        &&& r == TickOutcome::Continue
                        &&& forall|i: int|
                            0 <= i < enabled@.len() ==> final(self).visible@[i] == (if i
                                == kind as int {
                                true
                            } else if enabled@[i] {
                                false
                            } else {
                                old(self).visible@[i]
                            })
                        &&& Some(final(self).active as int) == spec_advance(enabled@, kind as int)
                    },
                    PublishOutcome::ChannelError | PublishOutcome::Fault => {
                        &&& r == TickOutcome::Terminate
                        &&& final(self).active == old(self).active
                        &&& final(self).visible@ == old(self).visible@
                    },
                },
            }),
    {
        proof {
            if !enabled@[old(self).active as int] {
                lemma_advance_some(enabled@, old(self).active as int);
            }
        }
        match event {
            TickEvent::FetchFailed { degraded_shown } => {
                if degraded_shown {
                    self.visible[kind] = true;
                }
                self.advance_active(enabled, kind);
                TickOutcome::Continue
            },
            TickEvent::Published { outcome } => match outcome {
                PublishOutcome::Delivered => {
                    let n = self.visible.len();
                    let mut i: usize = 0;
                    while i < n
                        invariant
                            n == self.visible@.len(),
                            n == enabled@.len(),
                            (kind as int) < n,
                            i <= n,
                            self.active == old(self).active,
                            forall|t: int|
                                0 <= t < i ==> self.visible@[t] == (if t == kind as int {
                                    true
                                } else if enabled@[t] {
                                    false
                                } else {
                                    old(self).visible@[t]
                                }),
                            forall|t: int|
                                i <= t < n ==> self.visible@[t] == old(self).visible@[t],
                        decreases n - i,
                    {
                        if i == kind {
                            self.visible[i] = true;
                        } else if enabled[i] {
                            self.visible[i] = false;
                        }
                        i = i + 1;
                    }
                    self.advance_active(enabled, kind);
                    TickOutcome::Continue
                },
                PublishOutcome::ChannelError => TickOutcome::Terminate,
                PublishOutcome::Fault => TickOutcome::Terminate,
            },
        }
    }
}

/// Disabling every kind idles the scheduler within one rotation check: a
/// tick planned against flags with no kind enabled fetches and publishes
/// nothing, whatever kind was active before.
pub proof fn lemma_all_disabled_idles(enabled: Seq<bool>, active: int)
    requires
        0 <= active < enabled.len(),
        count_true(enabled) == 0,
    ensures
        spec_plan(enabled, active) is None,
{
    lemma_count_zero(enabled);
    lemma_advance_none(enabled, active);
}

/// At most one enabled kind's status is visible immediately after a tick
/// whose publish was delivered: the commanded channel state such a tick
/// leaves has the published kind as its only enabled visible member.
pub proof fn lemma_single_visible(
    old_visible: Seq<bool>,
    new_visible: Seq<bool>,
    enabled: Seq<bool>,
    kind: int,
)
    requires
        new_visible.len() == enabled.len(),
        0 <= kind < enabled.len(),
        forall|i: int|
            0 <= i < enabled.len() ==> new_visible[i] == (if i == kind {
                true
            } else if enabled[i] {
                false
            } else {
                old_visible[i]
            }),
    ensures
        forall|i: int| 0 <= i < enabled.len() && enabled[i] && new_visible[i] ==> i == kind,
{
}

} // verus!
