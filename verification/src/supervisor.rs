//! The per-connection supervisor: a state machine driving the
//! connect → monitor → (retry | terminate) cycle.
//!
//! The caller owns the process, the diagnostic stream, the cancellation
//! signal and the backoff timer; it reports what happened as an
//! [`Event`] and performs the [`Action`] the machine asks for next.
//! Every transition, together with the status events it publishes, is
//! fixed by [`spec_step`].
//!
//! One attempt runs: announce `connecting`, spawn (a spawn failure is
//! reported as `error` and goes straight to backoff), announce the
//! target is being reached, then race process exit, diagnostic lines
//! and cancellation.  Lines are classified (see [`crate::classifier`]);
//! a fatal classification suppresses the generic exit-code error of the
//! same attempt.  The diagnostic stream closing is not terminal: the
//! machine keeps awaiting the exit and classifies it the same way.
//! Any non-cancelled end of an attempt leads to a fixed
//! backoff and a fresh attempt; cancellation anywhere ends the loop
//! with a final `disconnected` event, killing the process if one runs.

use vstd::prelude::*;
use crate::classifier::{is_fatal, spec_classify, classify_line, LineClass};
use crate::text::{dec_i32, int_dec_seq};
use crate::types::{events_view, Status, StatusEvent, StatusEventV};

verus! {

/// Where the supervisor stands in its cycle.
#[derive(Clone, Copy, Debug, PartialEq, Eq, Structural)]
pub enum Phase {
    /// An attempt is announced; the process is about to be spawned.
    Idle,
    /// The process runs and its diagnostic stream is open.
    Monitoring,
    /// The diagnostic stream ended; the process may still run.
    Draining,
    /// Waiting out the fixed delay before the next attempt.
    BackingOff,
    /// Terminal: the loop is over, no process is left.
    Done,
}

/// What the caller must do next.
#[derive(Clone, Copy, Debug, PartialEq, Eq, Structural)]
pub enum Action {
    /// Spawn the tunnel process.
    Spawn,
    /// Race process exit, the next diagnostic line, and cancellation.
    Monitor,
    /// Race process exit and cancellation (the stream is closed).
    AwaitExit,
    /// Kill the process, then stop: the loop is over.
    Kill,
    /// Start the backoff delay, racing it against cancellation.
    Sleep,
    /// Stop: the loop is over and no process runs.
    Stop,
}

/// How waiting for the process ended.
pub enum ExitOutcome {
    /// The process exited with a success status.
    Clean,
    /// The process exited with a failure status and this code.
    Failed(Option<i32>),
    /// Waiting for the process itself failed with this message.
    WaitFailed(String),
}

/// Mathematical value of an [`ExitOutcome`].
pub enum ExitOutcomeV {
    Clean,
    Failed(Option<int>),
    WaitFailed(Seq<char>),
}

impl View for ExitOutcome {
    type V = ExitOutcomeV;

    open spec fn view(&self) -> ExitOutcomeV {
        match self {
            ExitOutcome::Clean => ExitOutcomeV::Clean,
            ExitOutcome::Failed(code) => ExitOutcomeV::Failed(
                match code {
                    Some(c) => Some(*c as int),
                    None => None,
                },
            ),
            ExitOutcome::WaitFailed(e) => ExitOutcomeV::WaitFailed(e@),
        }
    }
}

/// What the caller observed at one of its suspension points.
pub enum Event {
    /// The process was spawned.
    SpawnOk,
    /// Spawning failed with this message.
    SpawnFailed(String),
    /// The diagnostic stream produced this line.
    Line(String),
    /// Waiting for the process ended.
    Exited(ExitOutcome),
    /// The diagnostic stream closed while the process kept running.
    StreamEnded,
    /// The cancellation signal fired.
    Cancelled,
    /// The backoff delay ran out uncancelled.
    BackoffElapsed,
}

/// Mathematical value of an [`Event`].
pub enum EventV {
    SpawnOk,
    SpawnFailed(Seq<char>),
    Line(Seq<char>),
    Exited(ExitOutcomeV),
    StreamEnded,
    Cancelled,
    BackoffElapsed,
}

impl View for Event {
    type V = EventV;

    open spec fn view(&self) -> EventV {
        match self {
            Event::SpawnOk => EventV::SpawnOk,
            Event::SpawnFailed(e) => EventV::SpawnFailed(e@),
            Event::Line(l) => EventV::Line(l@),
            Event::Exited(o) => EventV::Exited(o@),
            Event::StreamEnded => EventV::StreamEnded,
            Event::Cancelled => EventV::Cancelled,
            Event::BackoffElapsed => EventV::BackoffElapsed,
        }
    }
}

/// The supervisor of one connection.
pub struct Supervisor {
    /// The connection's identifier, stamped on every event.
    pub id: String,
    /// The `connecting` message that names the target being reached.
    pub reach_msg: String,
    pub phase: Phase,
    /// Set once a line of this attempt was classified as fatal.
    pub fatal: bool,
}

/// Mathematical value of a [`Supervisor`].
pub struct SupervisorV {
    pub id: Seq<char>,
    pub reach_msg: Seq<char>,
    pub phase: Phase,
    pub fatal: bool,
}

impl View for Supervisor {
    type V = SupervisorV;

    open spec fn view(&self) -> SupervisorV {
        SupervisorV { id: self.id@, reach_msg: self.reach_msg@, phase: self.phase, fatal: self.fatal }
    }
}

/// One status event for connection `id`.
pub open spec fn ev(id: Seq<char>, status: Status, message: Seq<char>) -> StatusEventV {
    StatusEventV { id, status, message }
}

/// The message of the `error` event for a failure exit.
pub open spec fn exit_code_message(code: Option<int>) -> Seq<char> {
    "Exited code: "@ + (match code {
        Some(v) => "Some("@ + int_dec_seq(v) + ")"@,
        None => "None"@,
    })
}

/// What an ongoing phase keeps asking of the caller.
pub open spec fn phase_action(p: Phase) -> Action {
    match p {
        Phase::Idle => Action::Spawn,
        Phase::Monitoring => Action::Monitor,
        Phase::Draining => Action::AwaitExit,
        Phase::BackingOff => Action::Sleep,
        Phase::Done => Action::Stop,
    }
}

/// Events published for one classified diagnostic line.
pub open spec fn line_output(id: Seq<char>, l: Seq<char>) -> Seq<StatusEventV> {
    match spec_classify(l) {
        LineClass::Established => seq![ev(id, Status::Connected, "Tunnel established"@)],
        LineClass::FatalPortForward => seq![ev(id, Status::Error, "Remote port unavailable"@)],
        LineClass::FatalAuth => seq![ev(id, Status::Error, "Auth failed"@)],
        LineClass::Informational => seq![],
    }
}

/// Events published when the wait for the process ends: a clean exit
/// reports `disconnected`; a failure exit reports its code unless a
/// fatal line already reported a more specific error; a failed wait
/// reports its own error.
pub open spec fn exit_output(id: Seq<char>, fatal: bool, o: ExitOutcomeV) -> Seq<StatusEventV> {
    match o {
        ExitOutcomeV::Clean => seq![ev(id, Status::Disconnected, "Closed normally"@)],
        ExitOutcomeV::Failed(code) => if fatal {
            seq![]
        } else {
            seq![ev(id, Status::Error, exit_code_message(code))]
        },
        ExitOutcomeV::WaitFailed(e) => seq![ev(id, Status::Error, "Wait error: "@ + e)],
    }
}

/// The `reconnecting` notice that precedes every backoff.
pub open spec fn retry_event(id: Seq<char>) -> StatusEventV {
    ev(id, Status::Reconnecting, "Retrying in 5s..."@)
}

/// The final event of a cancelled supervisor.
pub open spec fn cancel_event(id: Seq<char>) -> StatusEventV {
    ev(id, Status::Disconnected, "User disconnected"@)
}

/// The transition relation: from a state and an observed event to the
/// next state, the status events published (in order), and the next
/// action asked of the caller.  An event that cannot occur in the
/// current phase changes nothing.
pub open spec fn spec_step(s: SupervisorV, e: EventV) -> (SupervisorV, Seq<StatusEventV>, Action) {
    match e {
        EventV::Cancelled => if s.phase == Phase::Done {
            (s, seq![], Action::Stop)
        } else {
            (
                SupervisorV { phase: Phase::Done, ..s },
                seq![cancel_event(s.id)],
                if s.phase == Phase::Monitoring || s.phase == Phase::Draining {
                    Action::Kill
                } else {
                    Action::Stop
                },
            )
        },
        EventV::SpawnOk => if s.phase == Phase::Idle {
            (
                SupervisorV { phase: Phase::Monitoring, fatal: false, ..s },
                seq![ev(s.id, Status::Connecting, s.reach_msg)],
                Action::Monitor,
            )
        } else {
            (s, seq![], phase_action(s.phase))
        },
        EventV::SpawnFailed(err) => if s.phase == Phase::Idle {
            (
                SupervisorV { phase: Phase::BackingOff, ..s },
                seq![ev(s.id, Status::Error, "Failed to start cmd: "@ + err), retry_event(s.id)],
                Action::Sleep,
            )
        } else {
            (s, seq![], phase_action(s.phase))
        },
        EventV::Line(l) => if s.phase == Phase::Monitoring {
            (
                SupervisorV { fatal: s.fatal || is_fatal(spec_classify(l)), ..s },
                line_output(s.id, l),
                Action::Monitor,
            )
        } else {
            (s, seq![], phase_action(s.phase))
        },
        EventV::StreamEnded => if s.phase == Phase::Monitoring {
            (SupervisorV { phase: Phase::Draining, ..s }, seq![], Action::AwaitExit)
        } else {
            (s, seq![], phase_action(s.phase))
        },
        EventV::Exited(o) => if s.phase == Phase::Monitoring || s.phase == Phase::Draining {
            (
                SupervisorV { phase: Phase::BackingOff, ..s },
                exit_output(s.id, s.fatal, o) + seq![retry_event(s.id)],
                Action::Sleep,
            )
        } else {
            (s, seq![], phase_action(s.phase))
        },
        EventV::BackoffElapsed => if s.phase == Phase::BackingOff {
            (
                SupervisorV { phase: Phase::Idle, ..s },
                seq![ev(s.id, Status::Connecting, "Initializing..."@)],
                Action::Spawn,
            )
        } else {
            (s, seq![], phase_action(s.phase))
        },
    }
}

/// The state and first event of a fresh supervisor for connection `id`
/// reaching `target`.
pub open spec fn spec_start(id: Seq<char>, target: Seq<char>) -> (SupervisorV, Seq<StatusEventV>) {
    (
        SupervisorV {
            id,
            reach_msg: "Connecting to "@ + target + "..."@,
            phase: Phase::Idle,
            fatal: false,
        },
        seq![ev(id, Status::Connecting, "Initializing..."@)],
    )
}

/// `prefix` followed by `tail`, as one string.
fn concat_str(prefix: &str, tail: &str) -> (s: String)
    ensures
        s@ == prefix@ + tail@,
{
    let mut s = prefix.to_owned();
    s.push_str(tail);
    s
}

/// The message of the `error` event for a failure exit.
fn exit_code_msg(code: Option<i32>) -> (s: String)
    ensures
        s@ == exit_code_message(match code {
            Some(v) => Some(v as int),
            None => None,
        }),
{
    match code {
        None => concat_str("Exited code: ", "None"),
        Some(v) => {
            let mut s = "Exited code: Some(".to_owned();
            let digits = dec_i32(v);
            s.push_str(digits.as_str());
            s.push_str(")");
            proof {
                reveal_strlit("Exited code: ");
                reveal_strlit("Exited code: Some(");
                reveal_strlit("Some(");
                assert(("Exited code: Some(")@ =~= ("Exited code: ")@ + ("Some(")@);
                assert(s@ =~= exit_code_message(Some(v as int)));
            }
            s
        },
    }
}

impl Supervisor {
    /// A fresh supervisor for connection `id` reaching `target`,
    /// together with its opening `connecting` event.  The caller's
    /// next action is [`Action::Spawn`].
    pub fn start(id: String, target: &String) -> (r: (Supervisor, Vec<StatusEvent>))
        ensures
            r.0@ == spec_start(id@, target@).0,
            events_view(r.1@) == spec_start(id@, target@).1,
    {
        let reach_head = concat_str("Connecting to ", target.as_str());
        let reach_msg = concat_str(reach_head.as_str(), "...");
        let sup = Supervisor { id: id.clone(), reach_msg, phase: Phase::Idle, fatal: false };
        let mut evs: Vec<StatusEvent> = Vec::new();
        evs.push(
            StatusEvent {
                id,
                status: Status::Connecting,
                message: "Initializing...".to_owned(),
            },
        );
        proof {
            assert(sup@.reach_msg =~= ("Connecting to "@ + target@ + "..."@));
            assert(events_view(evs@) =~= spec_start(sup@.id, target@).1);
        }
        (sup, evs)
    }

    /// What the current phase asks of the caller.
    pub fn action(&self) -> (a: Action)
        ensures
            a == phase_action(self@.phase),
    {
        match self.phase {
            Phase::Idle => Action::Spawn,
            Phase::Monitoring => Action::Monitor,
            Phase::Draining => Action::AwaitExit,
            Phase::BackingOff => Action::Sleep,
            Phase::Done => Action::Stop,
        }
    }

    /// One status event stamped with this connection's id.
    fn emit(&self, status: Status, message: String) -> (e: StatusEvent)
        ensures
            e@ == ev(self@.id, status, message@),
    {
        StatusEvent { id: self.id.clone(), status, message }
    }

    /// Feeds one observed event to the machine; returns the status
    /// events to publish, in order, and the next action.  The whole
    /// behaviour is [`spec_step`] of the old state and the event.
    pub fn step(&mut self, event: Event) -> (r: (Vec<StatusEvent>, Action))
        ensures
            final(self)@ == spec_step(old(self)@, event@).0,
            events_view(r.0@) == spec_step(old(self)@, event@).1,
            r.1 == spec_step(old(self)@, event@).2,
    {
        let ghost pre = self@;
        let ghost expected = spec_step(pre, event@);
        let mut out: Vec<StatusEvent> = Vec::new();
        let act: Action;
        match event {
            Event::Cancelled => {
                match self.phase {
                    Phase::Done => {
                        act = Action::Stop;
                    },
                    Phase::Monitoring | Phase::Draining => {
                        let e = self.emit(Status::Disconnected, "User disconnected".to_owned());
                        out.push(e);
                        self.phase = Phase::Done;
                        act = Action::Kill;
                    },
                    _ => {
                        let e = self.emit(Status::Disconnected, "User disconnected".to_owned());
                        out.push(e);
                        self.phase = Phase::Done;
                        act = Action::Stop;
                    },
                }
            },
            Event::SpawnOk => {
                match self.phase {
                    Phase::Idle => {
                        let e = self.emit(Status::Connecting, self.reach_msg.clone());
                        out.push(e);
                        self.phase = Phase::Monitoring;
                        self.fatal = false;
                        act = Action::Monitor;
                    },
                    _ => {
                        act = self.action();
                    },
                }
            },
            Event::SpawnFailed(err) => {
                match self.phase {
                    Phase::Idle => {
                        let msg = concat_str("Failed to start cmd: ", err.as_str());
                        let e = self.emit(Status::Error, msg);
                        out.push(e);
                        let e2 = self.emit(Status::Reconnecting, "Retrying in 5s...".to_owned());
                        out.push(e2);
                        self.phase = Phase::BackingOff;
                        act = Action::Sleep;
                    },
                    _ => {
                        act = self.action();
                    },
                }
            },
            Event::Line(l) => {
                match self.phase {
                    Phase::Monitoring => {
                        match classify_line(l.as_str()) {
                            LineClass::Established => {
                                let e = self.emit(
                                    Status::Connected,
                                    "Tunnel established".to_owned(),
                                );
                                out.push(e);
                            },
                            LineClass::FatalPortForward => {
                                let e = self.emit(
                                    Status::Error,
                                    "Remote port unavailable".to_owned(),
                                );
                                out.push(e);
                                self.fatal = true;
                            },
                            LineClass::FatalAuth => {
                                let e = self.emit(Status::Error, "Auth failed".to_owned());
                                out.push(e);
                                self.fatal = true;
                            },
                            LineClass::Informational => {},
                        }
                        act = Action::Monitor;
                    },
                    _ => {
                        act = self.action();
                    },
                }
            },
            Event::StreamEnded => {
                match self.phase {
                    Phase::Monitoring => {
                        self.phase = Phase::Draining;
                        act = Action::AwaitExit;
                    },
                    _ => {
                        act = self.action();
                    },
                }
            },
            Event::Exited(o) => {
                match self.phase {
                    Phase::Monitoring | Phase::Draining => {
                        match o {
                            ExitOutcome::Clean => {
                                let e = self.emit(
                                    Status::Disconnected,
                                    "Closed normally".to_owned(),
                                );
                                out.push(e);
                            },
                            ExitOutcome::Failed(code) => {
                                if !self.fatal {
                                    let msg = exit_code_msg(code);
                                    let e = self.emit(Status::Error, msg);
                                    out.push(e);
                                }
                            },
                            ExitOutcome::WaitFailed(werr) => {
                                let msg = concat_str("Wait error: ", werr.as_str());
                                let e = self.emit(Status::Error, msg);
                                out.push(e);
                            },
                        }
                        let e2 = self.emit(Status::Reconnecting, "Retrying in 5s...".to_owned());
                        out.push(e2);
                        self.phase = Phase::BackingOff;
                        act = Action::Sleep;
                    },
                    _ => {
                        act = self.action();
                    },
                }
            },
            Event::BackoffElapsed => {
                match self.phase {
                    Phase::BackingOff => {
                        let e = self.emit(Status::Connecting, "Initializing...".to_owned());
                        out.push(e);
                        self.phase = Phase::Idle;
                        act = Action::Spawn;
                    },
                    _ => {
                        act = self.action();
                    },
                }
            },
        }
        proof {
            assert(events_view(out@) =~= expected.1);
        }
        (out, act)
    }
}

} // verus!

// What follows states and proves the guarantees of the supervision
// cycle over whole runs of the machine.

verus! {

/// The state reached and the events published, in order, when the
/// machine starts in `s` and observes `evs` one after the other.
pub open spec fn spec_run(s: SupervisorV, evs: Seq<EventV>) -> (SupervisorV, Seq<StatusEventV>)
    decreases evs.len(),
{
    if evs.len() == 0 {
        (s, seq![])
    } else {
        let first = spec_step(s, evs[0]);
        let rest = spec_run(first.0, evs.drop_first());
        (rest.0, first.1 + rest.1)
    }
}

/// A run over one event is one step.
pub proof fn lemma_run_one(s: SupervisorV, e: EventV)
    ensures
        spec_run(s, seq![e]).0 == spec_step(s, e).0,
        spec_run(s, seq![e]).1 == spec_step(s, e).1,
{
    reveal_with_fuel(spec_run, 2);
    assert(seq![e][0] == e);
    assert(seq![e].drop_first() =~= Seq::<EventV>::empty());
    assert(spec_run(s, seq![e]).1 =~= spec_step(s, e).1);
}

/// A run over `a + b` is the run over `a` continued over `b`, its
/// output the two outputs in order.
pub proof fn lemma_run_append(s: SupervisorV, a: Seq<EventV>, b: Seq<EventV>)
    ensures
        spec_run(s, a + b).0 == spec_run(spec_run(s, a).0, b).0,
        spec_run(s, a + b).1 == spec_run(s, a).1 + spec_run(spec_run(s, a).0, b).1,
    decreases a.len(),
{
    if a.len() == 0 {
        assert(a + b =~= b);
        assert(spec_run(s, a).1 + spec_run(spec_run(s, a).0, b).1 =~= spec_run(s, b).1);
    } else {
        let first = spec_step(s, a[0]);
        assert((a + b)[0] == a[0]);
        assert((a + b).drop_first() =~= a.drop_first() + b);
        lemma_run_append(first.0, a.drop_first(), b);
        assert(spec_run(s, a + b).1 =~= spec_run(s, a).1 + spec_run(spec_run(s, a).0, b).1);
    }
}

/// A finished supervisor observes whatever may come, changes nothing
/// and publishes nothing: the `disconnected` event that ended it stays
/// the last event of the connection.
pub proof fn lemma_done_is_quiet(s: SupervisorV, evs: Seq<EventV>)
    requires
        s.phase == Phase::Done,
    ensures
        spec_run(s, evs).0 == s,
        spec_run(s, evs).1 == Seq::<StatusEventV>::empty(),
    decreases evs.len(),
{
    if evs.len() > 0 {
        assert(spec_step(s, evs[0]).0 == s);
        assert(spec_step(s, evs[0]).1 =~= Seq::<StatusEventV>::empty());
        lemma_done_is_quiet(s, evs.drop_first());
        assert(spec_run(s, evs).1 =~= Seq::<StatusEventV>::empty());
    } else {
        assert(spec_run(s, evs).1 =~= Seq::<StatusEventV>::empty());
    }
}

/// Cancellation ends the loop at once, wherever it is observed: the
/// machine is terminal afterwards, a running process is killed (the
/// caller's next action is `Kill` exactly when one may run), and one
/// `disconnected` event is published and stays the last one whatever
/// events still trickle in.
pub proof fn lemma_cancellation_terminates(s: SupervisorV, rest: Seq<EventV>)
    requires
        s.phase != Phase::Done,
    ensures
        spec_step(s, EventV::Cancelled).0.phase == Phase::Done,
        spec_step(s, EventV::Cancelled).2 == (if s.phase == Phase::Monitoring || s.phase
            == Phase::Draining {
            Action::Kill
        } else {
            Action::Stop
        }),
        spec_run(s, seq![EventV::Cancelled] + rest).1 == seq![cancel_event(s.id)],
{
    let evs = seq![EventV::Cancelled] + rest;
    assert(evs[0] == EventV::Cancelled);
    assert(evs.drop_first() =~= rest);
    let stepped = spec_step(s, EventV::Cancelled);
    lemma_done_is_quiet(stepped.0, rest);
    assert(spec_run(s, evs).1 =~= seq![cancel_event(s.id)]);
}

/// Cancellation during the backoff delay ends the loop immediately
/// with the `disconnected` event; the delay is never completed and no
/// further attempt is announced.
pub proof fn lemma_backoff_cancellable(s: SupervisorV)
    requires
        s.phase == Phase::BackingOff,
    ensures
        spec_step(s, EventV::Cancelled).0.phase == Phase::Done,
        spec_step(s, EventV::Cancelled).1 == seq![cancel_event(s.id)],
        spec_step(s, EventV::Cancelled).2 == Action::Stop,
{
    assert(spec_step(s, EventV::Cancelled).1 =~= seq![cancel_event(s.id)]);
}

/// Informational lines leave the machine untouched and publish
/// nothing.
pub proof fn lemma_informational_lines_silent(s: SupervisorV, lines: Seq<Seq<char>>)
    requires
        s.phase == Phase::Monitoring,
        forall|i: int|
            0 <= i < lines.len() ==> spec_classify(#[trigger] lines[i])
                == LineClass::Informational,
    ensures
        spec_run(s, lines.map_values(|l: Seq<char>| EventV::Line(l))).0 == s,
        spec_run(s, lines.map_values(|l: Seq<char>| EventV::Line(l))).1 == Seq::<
            StatusEventV,
        >::empty(),
    decreases lines.len(),
{
    let evs = lines.map_values(|l: Seq<char>| EventV::Line(l));
    if lines.len() == 0 {
        assert(spec_run(s, evs).1 =~= Seq::<StatusEventV>::empty());
    } else {
        assert(evs[0] == EventV::Line(lines[0]));
        assert(spec_classify(lines[0]) == LineClass::Informational);
        let stepped = spec_step(s, evs[0]);
        assert(stepped.0 == s);
        assert(stepped.1 =~= Seq::<StatusEventV>::empty());
        assert(evs.drop_first() =~= lines.drop_first().map_values(
            |l: Seq<char>| EventV::Line(l),
        ));
        lemma_informational_lines_silent(s, lines.drop_first());
        assert(spec_run(s, evs).1 =~= Seq::<StatusEventV>::empty());
    }
}

/// The events of the rest of one attempt: the diagnostic stream's end
/// may or may not be observed before the exit.
pub open spec fn exit_tail(stream_end_first: bool, o: ExitOutcomeV) -> Seq<EventV> {
    if stream_end_first {
        seq![EventV::StreamEnded, EventV::Exited(o)]
    } else {
        seq![EventV::Exited(o)]
    }
}

/// Observing the stream's end and then the exit publishes what the
/// exit alone would, from the same state but for the phase.
proof fn lemma_exit_tail(s: SupervisorV, stream_end_first: bool, o: ExitOutcomeV)
    requires
        s.phase == Phase::Monitoring,
    ensures
        spec_run(s, exit_tail(stream_end_first, o)).0 == (SupervisorV {
            phase: Phase::BackingOff,
            ..s
        }),
        spec_run(s, exit_tail(stream_end_first, o)).1 == exit_output(s.id, s.fatal, o) + seq![
            retry_event(s.id),
        ],
{
    if stream_end_first {
        assert(exit_tail(true, o) =~= seq![EventV::StreamEnded] + seq![EventV::Exited(o)]);
        lemma_run_append(s, seq![EventV::StreamEnded], seq![EventV::Exited(o)]);
        lemma_run_one(s, EventV::StreamEnded);
        let s1 = spec_step(s, EventV::StreamEnded).0;
        lemma_run_one(s1, EventV::Exited(o));
        assert(spec_run(s, exit_tail(true, o)).1 =~= exit_output(s.id, s.fatal, o) + seq![
            retry_event(s.id),
        ]);
    } else {
        lemma_run_one(s, EventV::Exited(o));
    }
}

/// A monitored process whose diagnostic lines were all informational
/// and which exits cleanly closes its attempt with exactly one
/// `disconnected` ("Closed normally") event — no `error` event comes
/// before it — followed by the backoff notice; whether the exit or the
/// stream's end is observed first makes no difference.
pub proof fn lemma_clean_exit_single_disconnect(
    s: SupervisorV,
    lines: Seq<Seq<char>>,
    stream_end_first: bool,
)
    requires
        s.phase == Phase::Monitoring,
        !s.fatal,
        forall|i: int|
            0 <= i < lines.len() ==> spec_classify(#[trigger] lines[i])
                == LineClass::Informational,
    ensures
        spec_run(
            s,
            lines.map_values(|l: Seq<char>| EventV::Line(l)) + exit_tail(
                stream_end_first,
                ExitOutcomeV::Clean,
            ),
        ).1 == seq![ev(s.id, Status::Disconnected, "Closed normally"@), retry_event(s.id)],
        spec_run(
            s,
            lines.map_values(|l: Seq<char>| EventV::Line(l)) + exit_tail(
                stream_end_first,
                ExitOutcomeV::Clean,
            ),
        ).0.phase == Phase::BackingOff,
{
    let line_evs = lines.map_values(|l: Seq<char>| EventV::Line(l));
    let tail = exit_tail(stream_end_first, ExitOutcomeV::Clean);
    lemma_informational_lines_silent(s, lines);
    lemma_run_append(s, line_evs, tail);
    lemma_exit_tail(s, stream_end_first, ExitOutcomeV::Clean);
    assert(spec_run(s, line_evs + tail).1 =~= seq![
        ev(s.id, Status::Disconnected, "Closed normally"@),
        retry_event(s.id),
    ]);
}

/// If one line of the attempt reports a refused authentication, every
/// other line is informational, and the process then exits with a
/// failure code, the attempt publishes exactly one `error` event —
/// "Auth failed" — and the generic exit-code error is suppressed,
/// whether or not the stream's end is observed before the exit.
pub proof fn lemma_fatal_suppression(
    s: SupervisorV,
    before: Seq<Seq<char>>,
    fatal_line: Seq<char>,
    after: Seq<Seq<char>>,
    stream_end_first: bool,
    code: Option<int>,
)
    requires
        s.phase == Phase::Monitoring,
        !s.fatal,
        spec_classify(fatal_line) == LineClass::FatalAuth,
        forall|i: int|
            0 <= i < before.len() ==> spec_classify(#[trigger] before[i])
                == LineClass::Informational,
        forall|i: int|
            0 <= i < after.len() ==> spec_classify(#[trigger] after[i])
                == LineClass::Informational,
    ensures
        spec_run(
            s,
            before.map_values(|l: Seq<char>| EventV::Line(l)) + seq![EventV::Line(fatal_line)]
                + after.map_values(|l: Seq<char>| EventV::Line(l)) + exit_tail(
                stream_end_first,
                ExitOutcomeV::Failed(code),
            ),
        ).1 == seq![ev(s.id, Status::Error, "Auth failed"@), retry_event(s.id)],
{
    let before_evs = before.map_values(|l: Seq<char>| EventV::Line(l));
    let after_evs = after.map_values(|l: Seq<char>| EventV::Line(l));
    let fatal_ev = seq![EventV::Line(fatal_line)];
    let tail = exit_tail(stream_end_first, ExitOutcomeV::Failed(code));

    lemma_informational_lines_silent(s, before);

    let s1 = spec_step(s, EventV::Line(fatal_line)).0;
    assert(s1.phase == Phase::Monitoring && s1.fatal);
    assert(spec_step(s, EventV::Line(fatal_line)).1 =~= seq![
        ev(s.id, Status::Error, "Auth failed"@),
    ]);
    assert(s1.id == s.id);

    lemma_informational_lines_silent(s1, after);

    lemma_run_one(s, EventV::Line(fatal_line));
    lemma_exit_tail(s1, stream_end_first, ExitOutcomeV::Failed(code));
    assert(spec_run(s1, tail).1 =~= seq![retry_event(s.id)]);

    lemma_run_append(s, before_evs, fatal_ev);
    lemma_run_append(s, before_evs + fatal_ev, after_evs);
    lemma_run_append(s, before_evs + fatal_ev + after_evs, tail);
    assert(spec_run(s, before_evs + fatal_ev).0 == s1);
    assert(spec_run(s, before_evs + fatal_ev + after_evs).0 == s1);
    assert(spec_run(s, before_evs + fatal_ev + after_evs + tail).1 =~= seq![
        ev(s.id, Status::Error, "Auth failed"@),
        retry_event(s.id),
    ]);
}

} // verus!

// The fixed-interval retry cycle, seen over whole runs: a process that
// always fails produces the same three status transitions, round after
// round, until cancellation.

verus! {

/// The statuses of the published events, in order.
pub open spec fn statuses_of(out: Seq<StatusEventV>) -> Seq<Status> {
    out.map_values(|e: StatusEventV| e.status)
}

/// `s` with adjacent repeats of a status merged into one.
pub open spec fn collapse(s: Seq<Status>) -> Seq<Status>
    decreases s.len(),
{
    if s.len() <= 1 {
        s
    } else if s[0] == s[1] {
        collapse(s.drop_first())
    } else {
        seq![s[0]] + collapse(s.drop_first())
    }
}

/// The statuses of a joined output are the joined statuses.
pub proof fn lemma_statuses_append(a: Seq<StatusEventV>, b: Seq<StatusEventV>)
    ensures
        statuses_of(a + b) == statuses_of(a) + statuses_of(b),
{
    assert(statuses_of(a + b) =~= statuses_of(a) + statuses_of(b));
}

/// Merging adjacent repeats distributes over a join whose sides do not
/// meet in the same status.
pub proof fn lemma_collapse_append(a: Seq<Status>, b: Seq<Status>)
    requires
        a.len() > 0,
        b.len() > 0,
        a.last() != b.first(),
    ensures
        collapse(a + b) == collapse(a) + collapse(b),
    decreases a.len(),
{
    reveal_with_fuel(collapse, 2);
    if a.len() == 1 {
        assert((a + b)[0] == a[0]);
        assert((a + b)[1] == b[0]);
        assert(a[0] == a.last());
        assert((a + b).drop_first() =~= b);
        assert(collapse(a) =~= seq![a[0]]);
        assert(collapse(a + b) =~= collapse(a) + collapse(b));
    } else {
        let t = a.drop_first();
        assert(t.last() == a.last());
        assert((a + b).drop_first() =~= t + b);
        lemma_collapse_append(t, b);
        assert((a + b)[0] == a[0]);
        assert((a + b)[1] == a[1]);
        if a[0] == a[1] {
            assert(collapse(a + b) == collapse(t + b));
        } else {
            assert(collapse(a + b) == seq![a[0]] + (collapse(t) + collapse(b)));
            assert(seq![a[0]] + (collapse(t) + collapse(b)) =~= (seq![a[0]] + collapse(t))
                + collapse(b));
        }
    }
}

/// What a supervisor observes in one attempt whose process starts and
/// at once exits with failure code `code`; the diagnostic stream's end
/// may or may not be observed before the exit.
pub open spec fn failing_attempt(stream_end_first: bool, code: Option<int>) -> Seq<EventV> {
    seq![EventV::SpawnOk] + exit_tail(stream_end_first, ExitOutcomeV::Failed(code))
}

/// One such attempt per entry of `schedule` — the entry saying whether
/// that attempt's stream end came first — each separated from the next
/// by the full backoff delay, with cancellation never observed.
pub open spec fn failing_events(schedule: Seq<bool>, code: Option<int>) -> Seq<EventV>
    decreases schedule.len(),
{
    if schedule.len() == 0 {
        seq![]
    } else if schedule.len() == 1 {
        failing_attempt(schedule[0], code)
    } else {
        failing_events(schedule.drop_last(), code) + (seq![EventV::BackoffElapsed]
            + failing_attempt(schedule.last(), code))
    }
}

/// `n` rounds of `connecting`, `error`, `reconnecting`.
pub open spec fn retry_rounds(n: nat) -> Seq<Status>
    decreases n,
{
    if n == 0 {
        seq![]
    } else {
        retry_rounds((n - 1) as nat) + seq![Status::Connecting, Status::Error, Status::Reconnecting]
    }
}

/// The first failing attempt, from an announced fresh state: the
/// target is announced, the failure reported, the backoff entered.
proof fn lemma_first_failing_attempt(s: SupervisorV, stream_end_first: bool, code: Option<int>)
    requires
        s.phase == Phase::Idle,
        !s.fatal,
    ensures
        spec_run(s, failing_attempt(stream_end_first, code)).0 == (SupervisorV {
            phase: Phase::BackingOff,
            ..s
        }),
        statuses_of(spec_run(s, failing_attempt(stream_end_first, code)).1) == seq![
            Status::Connecting,
            Status::Error,
            Status::Reconnecting,
        ],
{
    let e1 = EventV::SpawnOk;
    let tail = exit_tail(stream_end_first, ExitOutcomeV::Failed(code));
    lemma_run_append(s, seq![e1], tail);
    lemma_run_one(s, e1);
    let s1 = spec_step(s, e1).0;
    assert(s1.phase == Phase::Monitoring && !s1.fatal);
    lemma_exit_tail(s1, stream_end_first, ExitOutcomeV::Failed(code));
    assert(spec_run(s, failing_attempt(stream_end_first, code)).0 == (SupervisorV {
        phase: Phase::BackingOff,
        ..s
    }));
    assert(statuses_of(spec_run(s, failing_attempt(stream_end_first, code)).1) =~= seq![
        Status::Connecting,
        Status::Error,
        Status::Reconnecting,
    ]);
}

/// One full later round — backoff elapsing, a fresh announcement, a
/// spawn, an immediate failure — returns the supervisor to the very
/// state it was in, having published connecting twice, then the error,
/// then the backoff notice.
proof fn lemma_failing_round(s: SupervisorV, stream_end_first: bool, code: Option<int>)
    requires
        s.phase == Phase::BackingOff,
        !s.fatal,
    ensures
        spec_run(s, seq![EventV::BackoffElapsed] + failing_attempt(stream_end_first, code)).0 == s,
        statuses_of(
            spec_run(s, seq![EventV::BackoffElapsed] + failing_attempt(stream_end_first, code)).1,
        ) == seq![Status::Connecting, Status::Connecting, Status::Error, Status::Reconnecting],
{
    let e0 = EventV::BackoffElapsed;
    lemma_run_append(s, seq![e0], failing_attempt(stream_end_first, code));
    lemma_run_one(s, e0);
    let s1 = spec_step(s, e0).0;
    assert(s1.phase == Phase::Idle && !s1.fatal);
    lemma_first_failing_attempt(s1, stream_end_first, code);
    assert(spec_run(s, seq![e0] + failing_attempt(stream_end_first, code)).0 =~= s);
    lemma_statuses_append(
        spec_run(s, seq![e0]).1,
        spec_run(s1, failing_attempt(stream_end_first, code)).1,
    );
    assert(statuses_of(spec_run(s, seq![e0]).1) =~= seq![Status::Connecting]);
    assert(statuses_of(spec_run(s, seq![e0] + failing_attempt(stream_end_first, code)).1) =~= seq![
        Status::Connecting,
        Status::Connecting,
        Status::Error,
        Status::Reconnecting,
    ]);
}

/// A process that always exits at once with a failure code, never
/// cancelled, produces exactly the statuses `connecting`, `error`,
/// `reconnecting`, repeated once per attempt (adjacent repeats of
/// `connecting` merged), each round separated by the full backoff —
/// whether or not any round's stream end is observed before its exit.
pub proof fn lemma_retry_invariance(
    id: Seq<char>,
    target: Seq<char>,
    code: Option<int>,
    schedule: Seq<bool>,
)
    requires
        schedule.len() >= 1,
    ensures
        collapse(
            statuses_of(
                spec_start(id, target).1 + spec_run(
                    spec_start(id, target).0,
                    failing_events(schedule, code),
                ).1,
            ),
        ) == retry_rounds(schedule.len()),
        spec_run(spec_start(id, target).0, failing_events(schedule, code)).0 == (SupervisorV {
            phase: Phase::BackingOff,
            ..spec_start(id, target).0
        }),
        statuses_of(
            spec_start(id, target).1 + spec_run(
                spec_start(id, target).0,
                failing_events(schedule, code),
            ).1,
        ).len() > 0,
        statuses_of(
            spec_start(id, target).1 + spec_run(
                spec_start(id, target).0,
                failing_events(schedule, code),
            ).1,
        ).last() == Status::Reconnecting,
    decreases schedule.len(),
{
    let s0 = spec_start(id, target).0;
    let opening = spec_start(id, target).1;
    if schedule.len() == 1 {
        lemma_first_failing_attempt(s0, schedule[0], code);
        let trace = statuses_of(opening + spec_run(s0, failing_events(schedule, code)).1);
        lemma_statuses_append(opening, spec_run(s0, failing_attempt(schedule[0], code)).1);
        assert(trace =~= seq![
            Status::Connecting,
            Status::Connecting,
            Status::Error,
            Status::Reconnecting,
        ]);
        reveal_with_fuel(collapse, 5);
        reveal_with_fuel(retry_rounds, 2);
        assert(collapse(trace) =~= seq![
            Status::Connecting,
            Status::Error,
            Status::Reconnecting,
        ]);
        assert(retry_rounds(1) =~= seq![Status::Connecting, Status::Error, Status::Reconnecting]);
    } else {
        let head = schedule.drop_last();
        lemma_retry_invariance(id, target, code, head);
        let prev = spec_run(s0, failing_events(head, code));
        let round = seq![EventV::BackoffElapsed] + failing_attempt(schedule.last(), code);
        assert(failing_events(schedule, code) == failing_events(head, code) + round);
        lemma_run_append(s0, failing_events(head, code), round);
        lemma_failing_round(prev.0, schedule.last(), code);
        let trace_prev = statuses_of(opening + prev.1);
        let out_round = spec_run(prev.0, round).1;
        lemma_statuses_append(opening + prev.1, out_round);
        assert(opening + spec_run(s0, failing_events(schedule, code)).1 =~= (opening + prev.1)
            + out_round);
        let tail_statuses = seq![
            Status::Connecting,
            Status::Connecting,
            Status::Error,
            Status::Reconnecting,
        ];
        assert(statuses_of(out_round) == tail_statuses);
        lemma_collapse_append(trace_prev, tail_statuses);
        reveal_with_fuel(collapse, 5);
        assert(collapse(tail_statuses) =~= seq![
            Status::Connecting,
            Status::Error,
            Status::Reconnecting,
        ]);
        assert(collapse(trace_prev + tail_statuses) == retry_rounds(head.len()) + seq![
            Status::Connecting,
            Status::Error,
            Status::Reconnecting,
        ]);
        assert(retry_rounds(schedule.len()) == retry_rounds(head.len()) + seq![
            Status::Connecting,
            Status::Error,
            Status::Reconnecting,
        ]);
        assert(collapse(statuses_of(opening + spec_run(s0, failing_events(schedule, code)).1))
            == retry_rounds(schedule.len()));
        assert(statuses_of(opening + spec_run(s0, failing_events(schedule, code)).1).last()
            == Status::Reconnecting);
    }
}

} // verus!
