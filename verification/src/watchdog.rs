//! The input stall watchdog: latch swallow evidence, judge over time
//! windows, and decide when to heal a wedged input parser by injecting a
//! DA1 query (`ESC [ c`).
//!
//! The machine is pure: time arrives with every observation as a point on
//! a monotonic clock, counted in nanoseconds from an arbitrary origin, and
//! nothing here reads a clock.
use vstd::prelude::*;

verus! {

/// A point on the monotonic clock, in nanoseconds since an arbitrary origin.
pub type Moment = u64;

/// How long without any delivered event before the input side counts as
/// stalled rather than merely idle: three seconds.
pub const T_STALL: u64 = 3_000_000_000;

/// How long without any tty input activity before latched swallow evidence
/// is trusted: two seconds.
pub const T_QUIET: u64 = 2_000_000_000;

/// Round-trip window for a DA1 query: one second.
pub const T_CONFIRM: u64 = 1_000_000_000;

/// DA1 injections without a delivered event in between after which the
/// watchdog disables itself for good.
pub const MAX_FAILED_INJECTIONS: u32 = 3;

/// Lifecycle of the watchdog.
#[derive(Clone, Copy, Debug, Eq, PartialEq, Structural)]
pub enum State {
    /// Injecting is allowed.
    Armed,
    /// Reached after [`MAX_FAILED_INJECTIONS`] failed injections; nothing
    /// revives it.
    Disabled,
}

/// What the input loop reports to [`Watchdog::observe`].
#[derive(Clone, Copy, Debug)]
pub enum Observation {
    /// Any input event (key/mouse/paste/resize) was delivered.
    EventDelivered { now: Moment },
    /// The tty was readable while the parser produced no event: bytes were
    /// consumed and swallowed.
    InputConsumedNoEvent { now: Moment },
    /// Periodic decision point.
    Tick { now: Moment },
}

/// What the watchdog asks of the input loop for one observation.
#[derive(Clone, Copy, Debug, Eq, PartialEq, Structural)]
pub enum Decision {
    /// Write the DA1 query `ESC [ c` to the tty; the attempt is already booked.
    ShouldInject,
    /// Do nothing.
    NoAction,
}

/// `later - earlier`, or zero when `earlier` is the later one: the time
/// elapsed between two points of the monotonic clock.
pub open spec fn elapsed(later: Moment, earlier: Moment) -> nat {
    if later >= earlier {
        (later - earlier) as nat
    } else {
        0
    }
}

/// The mathematical content of a [`Watchdog`].
pub struct WatchdogView {
    pub state: State,
    pub last_event: Moment,
    pub last_input_activity: Moment,
    pub last_injection: Option<Moment>,
    pub swallow_pending: bool,
    pub failed_injections: nat,
}

impl WatchdogView {
    /// A freshly armed watchdog whose baselines are `now`.
    pub open spec fn armed(now: Moment) -> WatchdogView {
        WatchdogView {
            state: State::Armed,
            last_event: now,
            last_input_activity: now,
            last_injection: None,
            swallow_pending: false,
            failed_injections: 0,
        }
    }

    /// Time since the last injection; unbounded (`u64::MAX`) when there was
    /// none.
    pub open spec fn since_injection(self, now: Moment) -> nat {
        match self.last_injection {
            Some(then) => elapsed(now, then),
            None => u64::MAX as nat,
        }
    }

    /// Whether a tick at `now` must inject: the watchdog is armed, swallow
    /// evidence is latched, no event came for [`T_STALL`], no input activity
    /// for [`T_QUIET`], and the last injection is [`T_CONFIRM`] old.
    pub open spec fn should_inject(self, now: Moment) -> bool {
        &&& self.state == State::Armed
        &&& self.swallow_pending
        &&& elapsed(now, self.last_event) >= T_STALL
        &&& elapsed(now, self.last_input_activity) >= T_QUIET
        &&& self.since_injection(now) >= T_CONFIRM
    }

    /// The machine after one observation.
    pub open spec fn next(self, observation: Observation) -> WatchdogView {
        match observation {
            Observation::EventDelivered { now } => WatchdogView {
                swallow_pending: false,
                last_event: now,
                failed_injections: 0,
                ..self
            },
            Observation::InputConsumedNoEvent { now } => WatchdogView {
                last_input_activity: now,
                swallow_pending: self.swallow_pending || self.since_injection(now) >= T_CONFIRM,
                ..self
            },
            Observation::Tick { now } => if self.should_inject(now) {
                WatchdogView {
                    swallow_pending: false,
                    failed_injections: self.failed_injections + 1,
                    last_injection: Some(now),
                    state: if self.failed_injections + 1 >= MAX_FAILED_INJECTIONS {
                        State::Disabled
                    } else {
                        self.state
                    },
                    ..self
                }
            } else {
                self
            },
        }
    }

    /// The answer to one observation.
    pub open spec fn decision(self, observation: Observation) -> Decision {
        match observation {
            Observation::Tick { now } => if self.should_inject(now) {
                Decision::ShouldInject
            } else {
                Decision::NoAction
            },
            _ => Decision::NoAction,
        }
    }

    /// The machine after a whole sequence of observations, in order.
    pub open spec fn run(self, observations: Seq<Observation>) -> WatchdogView
        decreases observations.len(),
    {
        if observations.len() == 0 {
            self
        } else {
            self.next(observations[0]).run(observations.drop_first())
        }
    }

    /// The answers to a whole sequence of observations, in order.
    pub open spec fn decisions(self, observations: Seq<Observation>) -> Seq<Decision>
        decreases observations.len(),
    {
        if observations.len() == 0 {
            Seq::empty()
        } else {
            seq![self.decision(observations[0])] + self.next(observations[0]).decisions(
                observations.drop_first(),
            )
        }
    }
}

/// The watchdog state machine.
#[derive(Clone, Copy, Debug)]
pub struct Watchdog {
    state: State,
    last_event: Moment,
    last_input_activity: Moment,
    last_injection: Option<Moment>,
    swallow_pending: bool,
    failed_injections: u32,
}

impl View for Watchdog {
    type V = WatchdogView;

    closed spec fn view(&self) -> WatchdogView {
        WatchdogView {
            state: self.state,
            last_event: self.last_event,
            last_input_activity: self.last_input_activity,
            last_injection: self.last_injection,
            swallow_pending: self.swallow_pending,
            failed_injections: self.failed_injections as nat,
        }
    }
}

impl Watchdog {
    /// An armed watchdog has booked fewer than [`MAX_FAILED_INJECTIONS`]
    /// attempts since the last delivered event, and the count never goes
    /// past that bound.
    #[verifier::type_invariant]
    closed spec fn inv(self) -> bool {
        &&& self.failed_injections <= MAX_FAILED_INJECTIONS
        &&& self.state == State::Armed ==> self.failed_injections < MAX_FAILED_INJECTIONS
    }

    /// A freshly armed watchdog whose baselines are `now`: a quiet process is
    /// idle, never stalled.
    pub fn armed(now: Moment) -> (r: Self)
        ensures
            r@ == WatchdogView::armed(now),
    {
        Self {
            state: State::Armed,
            last_event: now,
            last_input_activity: now,
            last_injection: None,
            swallow_pending: false,
            failed_injections: 0,
        }
    }

    /// The current [`State`].
    pub fn state(&self) -> (r: State)
        ensures
            r == self@.state,
            bounded(self@),
    {
        proof {
            use_type_invariant(self);
        }
        self.state
    }

    /// Folds one observation into the machine and answers it. A
    /// [`Decision::ShouldInject`] answer means the attempt has already been
    /// booked: evidence consumed, failure count bumped, injection time
    /// recorded.
    pub fn observe(&mut self, observation: Observation) -> (r: Decision)
        ensures
            final(self)@ == old(self)@.next(observation),
            r == old(self)@.decision(observation),
            bounded(old(self)@),
            bounded(final(self)@),
    {
        proof {
            use_type_invariant(&*self);
        }
        match observation {
            Observation::EventDelivered { now } => {
                self.swallow_pending = false;
                self.last_event = now;
                self.failed_injections = 0;
                Decision::NoAction
            },
            Observation::InputConsumedNoEvent { now } => {
                self.last_input_activity = now;
                if self.elapsed_since_last_injection(now) >= T_CONFIRM {
                    self.swallow_pending = true;
                }
                Decision::NoAction
            },
            Observation::Tick { now } => {
                if self.state == State::Armed && self.swallow_pending && now.saturating_sub(
                    self.last_event,
                ) >= T_STALL && now.saturating_sub(self.last_input_activity) >= T_QUIET
                    && self.elapsed_since_last_injection(now) >= T_CONFIRM {
                    self.attempt_injection(now);
                    Decision::ShouldInject
                } else {
                    Decision::NoAction
                }
            },
        }
    }

    /// Whether the watchdog has given up for good.
    pub fn is_disabled(&self) -> (r: bool)
        ensures
            r == (self@.state == State::Disabled),
    {
        self.state == State::Disabled
    }

    /// An observation for a watchdog that may have been halted for the
    /// rest of the process: a halted one is left as it is and asks for
    /// nothing; otherwise as [`Watchdog::observe`].
    pub fn observe_unless_halted(&mut self, halted: bool, observation: Observation) -> (r: Decision)
        ensures
            halted ==> r == Decision::NoAction && final(self)@ == old(self)@,
            !halted ==> final(self)@ == old(self)@.next(observation) && r == old(self)@.decision(
                observation,
            ),
    {
        if halted {
            return Decision::NoAction;
        }
        self.observe(observation)
    }

    /// Books one DA1 injection attempt; after [`MAX_FAILED_INJECTIONS`]
    /// attempts without a delivered event in between, the watchdog disables
    /// itself.
    fn attempt_injection(&mut self, now: Moment)
        requires
            old(self)@.state == State::Armed,
        ensures
            final(self)@ == (WatchdogView {
                swallow_pending: false,
                failed_injections: old(self)@.failed_injections + 1,
                last_injection: Some(now),
                state: if old(self)@.failed_injections + 1 >= MAX_FAILED_INJECTIONS {
                    State::Disabled
                } else {
                    State::Armed
                },
                ..old(self)@
            }),
    {
        proof {
            use_type_invariant(&*self);
        }
        let failed_injections = self.failed_injections + 1;
        let state = if failed_injections >= MAX_FAILED_INJECTIONS {
            State::Disabled
        } else {
            self.state
        };
        *self = Self {
            swallow_pending: false,
            failed_injections,
            last_injection: Some(now),
            state,
            ..*self
        };
    }

    /// Time since the last injection; with none yet, `u64::MAX`, so the
    /// window is always satisfied.
    fn elapsed_since_last_injection(&self, now: Moment) -> (r: u64)
        ensures
            r == self@.since_injection(now),
    {
        match self.last_injection {
            Some(then) => now.saturating_sub(then),
            None => u64::MAX,
        }
    }
}

/// The internal bound every [`Watchdog`] keeps: at most
/// [`MAX_FAILED_INJECTIONS`] booked attempts, fewer while armed.
pub open spec fn bounded(w: WatchdogView) -> bool {
    &&& w.failed_injections <= MAX_FAILED_INJECTIONS
    &&& w.state == State::Armed ==> w.failed_injections < MAX_FAILED_INJECTIONS
}

/// How many of `decisions` are injections.
pub open spec fn count_injections(decisions: Seq<Decision>) -> nat
    decreases decisions.len(),
{
    if decisions.len() == 0 {
        0
    } else {
        (if decisions[0] == Decision::ShouldInject {
            1nat
        } else {
            0nat
        }) + count_injections(decisions.drop_first())
    }
}

/// Counting the injections of one decision followed by others.
pub proof fn lemma_count_injections_cons(d: Decision, rest: Seq<Decision>)
    ensures
        count_injections(seq![d] + rest) == (if d == Decision::ShouldInject {
            1nat
        } else {
            0nat
        }) + count_injections(rest),
{
    assert((seq![d] + rest).drop_first() =~= rest);
}

/// Whether `o` reports a delivered event.
pub open spec fn is_event(o: Observation) -> bool {
    o matches Observation::EventDelivered { .. }
}

/// Whether `o` reports swallowed input.
pub open spec fn is_swallow(o: Observation) -> bool {
    o matches Observation::InputConsumedNoEvent { .. }
}

/// A disabled watchdog stays disabled and never asks for anything, whatever
/// it observes and however far time advances.
pub proof fn law_disabled_is_terminal(w: WatchdogView, observations: Seq<Observation>)
    requires
        w.state == State::Disabled,
    ensures
        w.run(observations).state == State::Disabled,
        count_injections(w.decisions(observations)) == 0,
    decreases observations.len(),
{
    if observations.len() > 0 {
        law_disabled_is_terminal(w.next(observations[0]), observations.drop_first());
        lemma_count_injections_cons(w.decision(observations[0]), w.next(observations[0]).decisions(observations.drop_first()));
    }
}

/// A delivered event never injects: it clears the latched evidence,
/// refreshes the event baseline and zeroes the failure count, and it
/// leaves the lifecycle state as it was.
pub proof fn law_event_resets(w: WatchdogView, now: Moment)
    ensures
        w.decision(Observation::EventDelivered { now }) == Decision::NoAction,
        !w.next(Observation::EventDelivered { now }).swallow_pending,
        w.next(Observation::EventDelivered { now }).failed_injections == 0,
        w.next(Observation::EventDelivered { now }).last_event == now,
        w.next(Observation::EventDelivered { now }).state == w.state,
{
}

/// An injection consumes its evidence: without fresh swallow evidence the
/// very next tick, whenever it comes, does not inject again.
pub proof fn law_injection_consumes_evidence(w: WatchdogView, now: Moment, later: Moment)
    requires
        w.decision(Observation::Tick { now }) == Decision::ShouldInject,
    ensures
        !w.next(Observation::Tick { now }).swallow_pending,
        w.next(Observation::Tick { now }).decision(Observation::Tick { now: later })
            == Decision::NoAction,
{
}

/// Swallowed input within [`T_CONFIRM`] of the last injection is the DA1
/// reply draining: it refreshes the activity baseline but latches no
/// evidence.
pub proof fn law_reply_is_not_evidence(w: WatchdogView, now: Moment)
    requires
        !w.swallow_pending,
        w.since_injection(now) < T_CONFIRM,
    ensures
        !w.next(Observation::InputConsumedNoEvent { now }).swallow_pending,
        w.next(Observation::InputConsumedNoEvent { now }).last_input_activity == now,
{
}

/// A tick injects exactly when the watchdog is armed, evidence is latched,
/// no event came for [`T_STALL`], the tty was quiet for [`T_QUIET`] and the
/// last injection is at least [`T_CONFIRM`] old.
pub proof fn law_injection_conditions(w: WatchdogView, now: Moment)
    ensures
        (w.decision(Observation::Tick { now }) == Decision::ShouldInject) <==> (w.state
            == State::Armed && w.swallow_pending && elapsed(now, w.last_event) >= T_STALL
            && elapsed(now, w.last_input_activity) >= T_QUIET && w.since_injection(now)
            >= T_CONFIRM),
{
}

/// Without delivered events, every injection is one more strike: the count
/// of failed injections grows by the number of injections answered, and the
/// watchdog is disabled exactly when it was already, or when that count
/// reaches [`MAX_FAILED_INJECTIONS`].
pub proof fn law_strikes(w: WatchdogView, observations: Seq<Observation>)
    requires
        bounded(w),
        forall|i: int| 0 <= i < observations.len() ==> !is_event(#[trigger] observations[i]),
    ensures
        bounded(w.run(observations)),
        w.run(observations).failed_injections == w.failed_injections + count_injections(
            w.decisions(observations),
        ),
        (w.run(observations).state == State::Disabled) <==> (w.state == State::Disabled
            || w.run(observations).failed_injections >= MAX_FAILED_INJECTIONS),
    decreases observations.len(),
{
    if observations.len() > 0 {
        let rest = observations.drop_first();
        assert forall|i: int| 0 <= i < rest.len() implies !is_event(#[trigger] rest[i]) by {
            assert(rest[i] == observations[i + 1]);
        }
        assert(!is_event(observations[0]));
        law_strikes(w.next(observations[0]), rest);
        lemma_count_injections_cons(w.decision(observations[0]), w.next(observations[0]).decisions(observations.drop_first()));
    }
}

/// A process that never swallows input never injects: a healthy input
/// stream, however it is timed, leaves the watchdog armed and silent.
pub proof fn law_healthy_stream_never_injects(w: WatchdogView, observations: Seq<Observation>)
    requires
        !w.swallow_pending,
        forall|i: int| 0 <= i < observations.len() ==> !is_swallow(#[trigger] observations[i]),
    ensures
        count_injections(w.decisions(observations)) == 0,
        !w.run(observations).swallow_pending,
        w.run(observations).state == w.state,
    decreases observations.len(),
{
    if observations.len() > 0 {
        let rest = observations.drop_first();
        assert forall|i: int| 0 <= i < rest.len() implies !is_swallow(#[trigger] rest[i]) by {
            assert(rest[i] == observations[i + 1]);
        }
        assert(!is_swallow(observations[0]));
        law_healthy_stream_never_injects(w.next(observations[0]), rest);
        lemma_count_injections_cons(w.decision(observations[0]), w.next(observations[0]).decisions(observations.drop_first()));
    }
}

} // verus!
