//! Tests of the input watchdog's decisions.
use meli::watchdog::{Decision, Moment, Observation, State, Watchdog, T_CONFIRM, T_QUIET, T_STALL};

/// Seconds, for readable scenario offsets, in nanoseconds.
fn secs(n: u64) -> Moment {
    n * 1_000_000_000
}

/// Milliseconds, for sub-second scenario offsets, in nanoseconds.
fn msecs(n: u64) -> Moment {
    n * 1_000_000
}

/// An [`Observation`] kind; the runner timestamps it.
#[derive(Clone, Copy, Debug)]
enum Kind {
    /// [`Observation::EventDelivered`].
    Event,
    /// [`Observation::InputConsumedNoEvent`].
    Swallow,
    /// [`Observation::Tick`].
    Tick,
}

impl Kind {
    fn at(self, now: Moment) -> Observation {
        match self {
            Self::Event => Observation::EventDelivered { now },
            Self::Swallow => Observation::InputConsumedNoEvent { now },
            Self::Tick => Observation::Tick { now },
        }
    }
}

/// One scenario step: feed `kind` at `base + at`, expecting `injects`.
struct Step {
    at: Moment,
    kind: Kind,
    injects: bool,
}

/// A scenario: ordered steps plus the state expected at the end.
struct Case {
    name: &'static str,
    steps: Vec<Step>,
    end: State,
}

fn step(at: Moment, kind: Kind, injects: bool) -> Step {
    Step { at, kind, injects }
}

/// Runs `case` against a fresh watchdog anchored at a fixed moment; time
/// is driven only by the step offsets.
fn run(case: &Case) {
    let base: Moment = 1_000_000_000_000;
    let mut watchdog = Watchdog::armed(base);
    for (i, step) in case.steps.iter().enumerate() {
        assert_eq!(
            watchdog.observe(step.kind.at(base + step.at)),
            if step.injects {
                Decision::ShouldInject
            } else {
                Decision::NoAction
            },
            "{}: step #{} ({:?} at {:?})",
            case.name,
            i + 1,
            step.kind,
            step.at,
        );
    }
    assert_eq!(watchdog.state(), case.end, "{}: end state", case.name);
}

/// U1: an event every second with ticks in between. There is never
/// any swallow evidence, so a healthy stream cannot inject.
fn healthy_stream_steps() -> Vec<Step> {
    let mut steps = Vec::new();
    for i in 0..30u64 {
        steps.push(step(secs(i), Kind::Event, false));
        steps.push(step(secs(i) + msecs(500), Kind::Tick, false));
    }
    steps
}

#[test]
fn scenario_table() {
    let cases = vec![
        Case {
            name: "U1: healthy input stream never injects",
            steps: healthy_stream_steps(),
            end: State::Armed,
        },
        Case {
            name: "U2: idle stall with one swallow injects exactly once",
            steps: vec![
                step(0, Kind::Swallow, false),
                // Exactly T_STALL + T_QUIET after the baselines.
                step(T_STALL + T_QUIET, Kind::Tick, true),
                // The attempt consumed the latch: no new evidence,
                // no second injection, however far time advances.
                step(secs(6), Kind::Tick, false),
                step(secs(600), Kind::Tick, false),
            ],
            end: State::Armed,
        },
        Case {
            name: "U3: swallow inside the confirmation window is not evidence",
            steps: vec![
                step(0, Kind::Swallow, false),
                step(T_STALL + T_QUIET, Kind::Tick, true),
                // 0.5s after the injection: the DA1 reply draining.
                step(T_STALL + T_QUIET + T_CONFIRM / 2, Kind::Swallow, false),
                // Every other condition holds by now (quiet for
                // 4.5s, last injection 5s ago); only the unlatched
                // evidence keeps this from injecting.
                step(secs(10), Kind::Tick, false),
            ],
            end: State::Armed,
        },
        Case {
            name: "U4: event after injection resets the failure count",
            steps: vec![
                step(0, Kind::Swallow, false),
                step(secs(5), Kind::Tick, true),
                // Exactly T_CONFIRM after the 5s injection: the
                // swallow must still count as evidence.
                step(secs(6), Kind::Swallow, false),
                step(secs(9) + msecs(500), Kind::Tick, true),
                // Delivered event: latch cleared, baselines
                // refreshed, failure count zeroed.
                step(secs(10), Kind::Event, false),
                step(secs(13) + msecs(500), Kind::Swallow, false),
                step(secs(16) + msecs(500), Kind::Tick, true),
                step(secs(17) + msecs(600), Kind::Swallow, false),
                // Had the count survived the event, the previous
                // injection would have been the disabling third and
                // this could not fire; it is only the second.
                step(secs(21), Kind::Tick, true),
            ],
            end: State::Armed,
        },
        Case {
            name: "U4a: event clears latched swallow evidence",
            steps: vec![
                step(0, Kind::Swallow, false),
                step(msecs(500), Kind::Event, false),
                // Stall (3.5s) and quiet (4s) would both be met
                // here; only the cleared latch keeps this from
                // injecting.
                step(secs(4), Kind::Tick, false),
            ],
            end: State::Armed,
        },
        Case {
            name: "U4b: event refreshes the stall baseline",
            steps: vec![
                step(0, Kind::Swallow, false),
                step(msecs(500), Kind::Event, false),
                step(secs(1), Kind::Swallow, false),
                // Only 2.9s since the event, under T_STALL;
                // measured against the construction baseline it
                // would be 3.4s and mis-inject.
                step(secs(3) + msecs(400), Kind::Tick, false),
            ],
            end: State::Armed,
        },
        Case {
            name: "U5: three failed injections disable the watchdog for good",
            steps: vec![
                step(0, Kind::Swallow, false),
                step(secs(5), Kind::Tick, true),
                step(secs(6) + msecs(500), Kind::Swallow, false),
                step(secs(10), Kind::Tick, true),
                step(secs(11) + msecs(500), Kind::Swallow, false),
                // Third failure -> Disabled.
                step(secs(15), Kind::Tick, true),
                // Fresh evidence and arbitrarily advanced time must
                // not revive it.
                step(secs(16) + msecs(500), Kind::Swallow, false),
                step(secs(600), Kind::Tick, false),
            ],
            end: State::Disabled,
        },
        Case {
            name: "U6: slow paste (swallows under T_QUIET apart) never injects",
            steps: vec![
                step(0, Kind::Swallow, false),
                step(secs(1) + msecs(500), Kind::Swallow, false),
                step(secs(3), Kind::Swallow, false),
                step(secs(3) + msecs(250), Kind::Tick, false),
                step(secs(4) + msecs(500), Kind::Swallow, false),
                step(secs(6), Kind::Swallow, false),
                step(secs(6) + msecs(250), Kind::Tick, false),
                step(secs(7) + msecs(500), Kind::Swallow, false),
                step(secs(9), Kind::Swallow, false),
                step(secs(9) + msecs(250), Kind::Tick, false),
            ],
            end: State::Armed,
        },
        Case {
            name: "U7: swallowed typing burst, then T_QUIET of quiet, injects",
            steps: {
                let mut steps = Vec::new();
                // Frantic typing, every key swallowed: activity
                // stays fresh, so ticks interleaved with the burst
                // never fire.
                for i in 0..=20u64 {
                    let at = msecs(i * 300);
                    steps.push(step(at, Kind::Swallow, false));
                    if i % 7 == 3 {
                        steps.push(step(at + msecs(100), Kind::Tick, false));
                    }
                }
                // Hands off at t = 6s; exactly T_QUIET later the
                // stall is confirmed.
                steps.push(step(secs(8), Kind::Tick, true));
                steps
            },
            end: State::Armed,
        },
        Case {
            name: "U11: healed stall stays quiet forever, still Armed",
            steps: vec![
                step(0, Kind::Swallow, false),
                step(secs(5), Kind::Tick, true),
                // The DA1 reply swallowed inside the window: not new
                // evidence.
                step(secs(5) + msecs(500), Kind::Swallow, false),
                step(secs(10), Kind::Tick, false),
                step(secs(20), Kind::Tick, false),
                step(secs(100), Kind::Tick, false),
                step(secs(3_600), Kind::Tick, false),
            ],
            end: State::Armed,
        },
    ];
    for case in &cases {
        run(case);
    }
}


#[test]
fn halted_watchdog_asks_for_nothing() {
    let mut watchdog = Watchdog::armed(0);
    assert_eq!(
        watchdog.observe_unless_halted(true, Observation::InputConsumedNoEvent { now: 0 }),
        Decision::NoAction
    );
    assert_eq!(watchdog.observe_unless_halted(true, Observation::Tick { now: secs(5) }), Decision::NoAction);
    assert_eq!(
        watchdog.observe_unless_halted(false, Observation::InputConsumedNoEvent { now: 0 }),
        Decision::NoAction
    );
    assert_eq!(
        watchdog.observe_unless_halted(false, Observation::Tick { now: secs(5) }),
        Decision::ShouldInject
    );
    assert!(!watchdog.is_disabled());
}
