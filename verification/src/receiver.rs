//! The receive loop as a state machine: each poll of the transport yields
//! a message or an error, the error is classified as retryable, ignorable
//! or fatal, and a successful poll drives the frequency tracker and the
//! display formatter. A scripted runner executes the whole loop over a
//! predetermined sequence of poll outcomes.
use crate::RoutingHeader;
use crate::display::show;
use crate::display::show_line;
use crate::filter::MessageFilter;
use crate::message::Message;
use crate::message::extract_message_type;
use crate::message::type_name_of;
use crate::tracker::FrequencyTracker;
use crate::tracker::observed_rate;
use vstd::prelude::*;

verus! {

/// The ways one poll of the transport can fail: no data available right
/// now, the connection itself broke, or a malformed frame arrived.
#[derive(PartialEq, Eq, Structural, Clone, Copy, Debug)]
pub enum TransportError {
    WouldBlock,
    IoFailure,
    DecodeFailure,
}

/// What one poll of the transport produced.
pub enum RecvEvent {
    Received(RoutingHeader, Message),
    Failed(TransportError),
}

/// The state the loop moves to after one poll. The loop returns to
/// polling from every state but `Terminating`.
#[derive(PartialEq, Eq, Structural, Clone, Copy, Debug)]
pub enum LoopState {
    Displaying,
    Retrying,
    Skipping,
    Terminating,
}

/// The classification of a transport error: no data yet means sleep and
/// retry, a broken connection ends the loop, and a malformed frame is
/// silently skipped.
pub open spec fn spec_classify(e: TransportError) -> LoopState {
    match e {
        TransportError::WouldBlock => LoopState::Retrying,
        TransportError::IoFailure => LoopState::Terminating,
        TransportError::DecodeFailure => LoopState::Skipping,
    }
}

/// The state the loop moves to for one poll outcome: a message is
/// displayed, an error goes by its classification.
pub open spec fn spec_step(ev: RecvEvent) -> LoopState {
    match ev {
        RecvEvent::Received(_, _) => LoopState::Displaying,
        RecvEvent::Failed(e) => spec_classify(e),
    }
}

/// Classifies one transport error.
pub fn classify(e: &TransportError) -> (r: LoopState)
    ensures
        r == spec_classify(*e),
{
    match e {
        TransportError::WouldBlock => LoopState::Retrying,
        TransportError::IoFailure => LoopState::Terminating,
        TransportError::DecodeFailure => LoopState::Skipping,
    }
}

/// Whether an error is the transient no-data kind, to be retried after a
/// fixed sleep.
pub fn should_retry(e: &TransportError) -> (r: bool)
    ensures
        r == (*e is WouldBlock),
{
    matches!(e, TransportError::WouldBlock)
}

/// Whether an error means the connection is gone and the loop must end.
pub fn is_connection_lost(e: &TransportError) -> (r: bool)
    ensures
        r == (*e is IoFailure),
{
    matches!(e, TransportError::IoFailure)
}

/// Decides the next state for one poll outcome.
pub fn step(ev: &RecvEvent) -> (r: LoopState)
    ensures
        r == spec_step(*ev),
{
    match ev {
        RecvEvent::Received(_, _) => LoopState::Displaying,
        RecvEvent::Failed(e) => classify(e),
    }
}

/// One scripted poll outcome, paired with the instant the clock read when
/// it arrived.
pub struct ScriptEvent {
    pub event: RecvEvent,
    pub now_micros: u64,
}

/// What a whole scripted run produces: the displayed lines in order, how
/// often the loop slept, how many polls it made before stopping, whether
/// it ended in the terminal state, and the tracker map it left behind.
pub struct RunOutcome {
    pub lines: Seq<Seq<char>>,
    pub sleeps: nat,
    pub polls: nat,
    pub terminated: bool,
    pub tracker: Map<Seq<char>, u64>,
}

/// The receive loop over a script, starting from tracker map `m`: polls
/// are consumed in order until the script ends or a fatal error arrives;
/// a received message updates the tracker and is displayed subject to the
/// filter; a would-block sleeps; a decode failure is skipped without any
/// output; a fatal error terminates with no further poll.
pub open spec fn spec_run(
    events: Seq<ScriptEvent>,
    m: Map<Seq<char>, u64>,
    filter: Option<MessageFilter>,
) -> RunOutcome
    decreases events.len(),
{
    if events.len() == 0 {
        RunOutcome { lines: Seq::empty(), sleeps: 0, polls: 0, terminated: false, tracker: m }
    } else {
        let ev = events[0];
        match ev.event {
            RecvEvent::Received(h, msg) => {
                let name = type_name_of(msg);
                let rate = observed_rate(m, name, ev.now_micros);
                let rest = spec_run(events.drop_first(), m.insert(name, ev.now_micros), filter);
                let lines = match show_line(h, msg, filter, rate) {
                    Some(l) => seq![l] + rest.lines,
                    None => rest.lines,
                };
                RunOutcome {
                    lines,
                    sleeps: rest.sleeps,
                    polls: rest.polls + 1,
                    terminated: rest.terminated,
                    tracker: rest.tracker,
                }
            },
            RecvEvent::Failed(TransportError::WouldBlock) => {
                let rest = spec_run(events.drop_first(), m, filter);
                RunOutcome {
                    lines: rest.lines,
                    sleeps: rest.sleeps + 1,
                    polls: rest.polls + 1,
                    terminated: rest.terminated,
                    tracker: rest.tracker,
                }
            },
            RecvEvent::Failed(TransportError::DecodeFailure) => {
                let rest = spec_run(events.drop_first(), m, filter);
                RunOutcome {
                    lines: rest.lines,
                    sleeps: rest.sleeps,
                    polls: rest.polls + 1,
                    terminated: rest.terminated,
                    tracker: rest.tracker,
                }
            },
            RecvEvent::Failed(TransportError::IoFailure) => {
                RunOutcome {
                    lines: Seq::empty(),
                    sleeps: 0,
                    polls: 1,
                    terminated: true,
                    tracker: m,
                }
            },
        }
    }
}

proof fn lemma_run_counts(
    events: Seq<ScriptEvent>,
    m: Map<Seq<char>, u64>,
    filter: Option<MessageFilter>,
)
    ensures
        spec_run(events, m, filter).polls <= events.len(),
        spec_run(events, m, filter).sleeps <= events.len(),
    decreases events.len(),
{
    if events.len() > 0 {
        match events[0].event {
            RecvEvent::Received(h, msg) => {
                lemma_run_counts(
                    events.drop_first(),
                    m.insert(type_name_of(msg), events[0].now_micros),
                    filter,
                );
            },
            RecvEvent::Failed(e) => {
                if !(e is IoFailure) {
                    lemma_run_counts(events.drop_first(), m, filter);
                }
            },
        }
    }
}

/// What a scripted run reports back.
pub struct RunReport {
    pub lines: Vec<String>,
    pub sleeps: usize,
    pub polls: usize,
    pub terminated: bool,
}

impl RunReport {
    /// Whether this report matches a run's mathematical outcome.
    pub open spec fn matches(self, o: RunOutcome) -> bool {
        &&& self.lines@.map_values(|s: String| s@) == o.lines
        &&& self.sleeps == o.sleeps
        &&& self.polls == o.polls
        &&& self.terminated == o.terminated
    }
}

/// Runs the receive loop over a scripted sequence of poll outcomes with a
/// fresh tracker, and reports the displayed lines, the sleep count, the
/// number of polls made, and whether the loop ended in the terminal state.
/// Polls after a fatal error are never consumed.
pub fn run_script(events: &Vec<ScriptEvent>, filter: &Option<MessageFilter>) -> (r: RunReport)
    ensures
        r.matches(spec_run(events@, Map::empty(), *filter)),
{
    let mut tracker = FrequencyTracker::new();
    proof {
        assert(events@.skip(0) =~= events@);
    }
    run_script_from(events, 0, &mut tracker, filter)
}

fn run_script_from(
    events: &Vec<ScriptEvent>,
    i: usize,
    tracker: &mut FrequencyTracker,
    filter: &Option<MessageFilter>,
) -> (r: RunReport)
    requires
        old(tracker).wf(),
        i <= events@.len(),
    ensures
        final(tracker).wf(),
        r.matches(spec_run(events@.skip(i as int), old(tracker)@, *filter)),
        final(tracker)@ == spec_run(events@.skip(i as int), old(tracker)@, *filter).tracker,
    decreases events@.len() - i,
{
    let ghost script = events@.skip(i as int);
    if i == events.len() {
        proof {
            assert(script.len() == 0);
            assert(Seq::<String>::empty().map_values(|s: String| s@) =~= Seq::<Seq<char>>::empty());
        }
        return RunReport { lines: Vec::new(), sleeps: 0, polls: 0, terminated: false };
    }
    proof {
        assert(script[0] == events@[i as int]);
        assert(script.drop_first() =~= events@.skip(i as int + 1));
    }
    match &events[i].event {
        RecvEvent::Received(h, msg) => {
            let name = extract_message_type(msg);
            let rate = tracker.calculate(name.as_str(), events[i].now_micros);
            proof {
                lemma_run_counts(script.drop_first(), tracker@, *filter);
            }
            let line = show(h, msg, filter, rate);
            let mut rest = run_script_from(events, i + 1, tracker, filter);
            match line {
                Some(l) => {
                    let ghost lines0 = rest.lines@;
                    let ghost lv = l@;
                    rest.lines.insert(0, l);
                    proof {
                        assert(rest.lines@.map_values(|s: String| s@) =~= seq![lv] + lines0.map_values(
                            |s: String| s@,
                        ));
                    }
                    RunReport {
                        lines: rest.lines,
                        sleeps: rest.sleeps,
                        polls: rest.polls + 1,
                        terminated: rest.terminated,
                    }
                },
                None => {
                    RunReport {
                        lines: rest.lines,
                        sleeps: rest.sleeps,
                        polls: rest.polls + 1,
                        terminated: rest.terminated,
                    }
                },
            }
        },
        RecvEvent::Failed(TransportError::WouldBlock) => {
            proof {
                lemma_run_counts(script.drop_first(), tracker@, *filter);
            }
            let rest = run_script_from(events, i + 1, tracker, filter);
            RunReport {
                lines: rest.lines,
                sleeps: rest.sleeps + 1,
                polls: rest.polls + 1,
                terminated: rest.terminated,
            }
        },
        RecvEvent::Failed(TransportError::DecodeFailure) => {
            proof {
                lemma_run_counts(script.drop_first(), tracker@, *filter);
            }
            let rest = run_script_from(events, i + 1, tracker, filter);
            RunReport {
                lines: rest.lines,
                sleeps: rest.sleeps,
                polls: rest.polls + 1,
                terminated: rest.terminated,
            }
        },
        RecvEvent::Failed(TransportError::IoFailure) => {
            proof {
                assert(Seq::<String>::empty().map_values(|s: String| s@) =~= Seq::<
                    Seq<char>,
                >::empty());
            }
            RunReport { lines: Vec::new(), sleeps: 0, polls: 1, terminated: true }
        },
    }
}

} // verus!
