use vstd::prelude::*;
use crate::stats::Sample;

verus! {

/// Connection attempts in a row that may fail before a connection is given
/// up for the rest of the round.
pub const MAX_CONNECT_ATTEMPTS: u32 = 3;

/// What a connection task does next.
#[derive(Debug, Clone, Copy, PartialEq, Eq, Structural)]
pub enum WorkerAction {
    /// Open the transport connection (again).
    Connect,
    /// Send the next request and wait for its whole response.
    Send,
    /// Leave the loop and hand the samples over.
    Exit,
}

/// What happened to the last action.
#[derive(Debug, Clone, Copy, PartialEq, Eq, Structural)]
pub enum WorkerEvent {
    Connected,
    ConnectFailed,
    /// The response came back complete after this many microseconds.
    Response(u64),
    /// The connection broke during the request after this many microseconds.
    TransportError(u64),
}

/// What a connection task knows between two actions.
pub struct TaskState {
    pub connected: bool,
    pub failures: u32,
    pub dead: bool,
    pub stopped: bool,
    pub samples: Seq<Sample>,
}

impl TaskState {
    /// The decision at a loop boundary, and the state it leaves.
    pub open spec fn decide(self, stop_raised: bool) -> (TaskState, WorkerAction) {
        let st = TaskState { stopped: self.stopped || stop_raised, ..self };
        let action = if st.stopped || st.dead {
            WorkerAction::Exit
        } else if !st.connected {
            WorkerAction::Connect
        } else {
            WorkerAction::Send
        };
        (st, action)
    }

    /// The state after the outcome of an action.
    pub open spec fn apply(self, event: WorkerEvent) -> TaskState {
        match event {
            WorkerEvent::Connected => TaskState { connected: true, failures: 0, ..self },
            WorkerEvent::ConnectFailed => if self.failures + 1 >= MAX_CONNECT_ATTEMPTS {
                TaskState { connected: false, failures: MAX_CONNECT_ATTEMPTS, dead: true, ..self }
            } else {
                TaskState { connected: false, failures: (self.failures + 1) as u32, ..self }
            },
            WorkerEvent::Response(l) => TaskState {
                samples: self.samples.push(Sample { latency_us: l, success: true }),
                ..self
            },
            WorkerEvent::TransportError(l) => TaskState {
                connected: false,
                samples: self.samples.push(Sample { latency_us: l, success: false }),
                ..self
            },
        }
    }

    /// A task's loop: at each step the stop signal is read and a decision
    /// made; after `Exit` the loop is left, else the action's outcome is
    /// taken in.
    pub open spec fn run(self, stops: Seq<bool>, events: Seq<WorkerEvent>) -> TaskState
        decreases stops.len(),
    {
        if stops.len() == 0 || events.len() == 0 {
            self
        } else {
            let (st, action) = self.decide(stops[0]);
            if action == WorkerAction::Exit {
                st
            } else {
                st.apply(events[0]).run(stops.drop_first(), events.drop_first())
            }
        }
    }
}

/// No sample is recorded from the step at which the stop signal is seen
/// onwards: every recorded request was sent before the stop signal.
pub proof fn lemma_no_sample_after_stop(
    s: TaskState,
    stops: Seq<bool>,
    events: Seq<WorkerEvent>,
    k: int,
)
    requires
        0 <= k < stops.len(),
        stops.len() <= events.len(),
        stops[k],
    ensures
        s.run(stops, events).samples == s.run(stops.take(k), events.take(k)).samples,
    decreases k,
{
    let (st, action) = s.decide(stops[0]);
    if k == 0 {
        assert(action == WorkerAction::Exit);
    } else if action != WorkerAction::Exit {
        let next = st.apply(events[0]);
        assert(stops.drop_first()[k - 1] == stops[k]);
        lemma_no_sample_after_stop(next, stops.drop_first(), events.drop_first(), k - 1);
        assert(stops.take(k).drop_first() =~= stops.drop_first().take(k - 1));
        assert(events.take(k).drop_first() =~= events.drop_first().take(k - 1));
        assert(stops.take(k)[0] == stops[0]);
        assert(events.take(k)[0] == events[0]);
    } else {
        assert(stops.take(k)[0] == stops[0]);
    }
}

/// The decisions of one connection task: closed-loop requests, one in flight
/// at a time, a bounded number of reconnect attempts, and a stop signal read
/// only between requests.
pub struct Worker {
    pub connected: bool,
    /// Failed connection attempts in a row.
    pub failures: u32,
    /// Given up for the rest of the round.
    pub dead: bool,
    /// The stop signal has been seen.
    pub stopped: bool,
    /// A request has been sent and its outcome not yet reported.
    pub in_flight: bool,
    /// A connection attempt has been made and its outcome not yet reported.
    pub connecting: bool,
    pub samples: Vec<Sample>,
}

impl View for Worker {
    type V = TaskState;

    open spec fn view(&self) -> TaskState {
        TaskState {
            connected: self.connected,
            failures: self.failures,
            dead: self.dead,
            stopped: self.stopped,
            samples: self.samples@,
        }
    }
}

impl Worker {
    pub open spec fn wf(&self) -> bool {
        &&& !(self.in_flight && self.connecting)
        &&& self.in_flight ==> self.connected && !self.stopped && !self.dead
        &&& self.connecting ==> !self.connected && !self.stopped && !self.dead
        &&& self.failures <= MAX_CONNECT_ATTEMPTS
        &&& self.dead ==> !self.connected
    }

    /// Waiting neither for a connection nor for a response.
    pub open spec fn idle(&self) -> bool {
        !self.in_flight && !self.connecting
    }

    /// A task before its first connection, with no samples.
    pub fn new() -> (r: Worker)
        ensures
            r.wf(),
            r.idle(),
            !r.connected && !r.dead && !r.stopped && r.failures == 0,
            r.samples@.len() == 0,
    {
        Worker {
            connected: false,
            failures: 0,
            dead: false,
            stopped: false,
            in_flight: false,
            connecting: false,
            samples: Vec::new(),
        }
    }

    /// Decides the next action at a loop boundary. Once the stop signal has
    /// been raised, or the connection given up, the answer is always `Exit`;
    /// otherwise the task connects if it has no connection, and sends if it has.
    pub fn next_action(&mut self, stop_raised: bool) -> (r: WorkerAction)
        requires
            old(self).wf(),
            old(self).idle(),
        ensures
            (final(self)@, r) == old(self)@.decide(stop_raised),
            final(self).wf(),
            final(self).samples == old(self).samples,
            final(self).stopped == (old(self).stopped || stop_raised),
            final(self).connected == old(self).connected,
            final(self).dead == old(self).dead,
            final(self).failures == old(self).failures,
            final(self).stopped || final(self).dead ==> r == WorkerAction::Exit,
            r == WorkerAction::Exit ==> final(self).idle() && (final(self).stopped
                || final(self).dead),
            r == WorkerAction::Connect ==> !old(self).connected && final(self).connecting
                && !final(self).in_flight,
            r == WorkerAction::Send ==> !stop_raised && !old(self).stopped,
            r == WorkerAction::Send ==> old(self).connected && final(self).in_flight
                && !final(self).connecting,
    {
        if stop_raised {
            self.stopped = true;
        }
        if self.stopped || self.dead {
            WorkerAction::Exit
        } else if !self.connected {
            self.connecting = true;
            WorkerAction::Connect
        } else {
            self.in_flight = true;
            WorkerAction::Send
        }
    }

    /// Takes in the outcome of the action in progress. A response adds a
    /// successful sample; a transport error adds a failed one and drops the
    /// connection; a failed connection attempt counts towards giving up.
    pub fn on_event(&mut self, event: WorkerEvent)
        requires
            old(self).wf(),
            !old(self).idle(),
            old(self).connecting ==> event is Connected || event is ConnectFailed,
            old(self).in_flight ==> event is Response || event is TransportError,
        ensures
            final(self)@ == old(self)@.apply(event),
            final(self).wf(),
            final(self).idle(),
            final(self).stopped == old(self).stopped,
            match event {
                WorkerEvent::Connected => final(self).connected && final(self).failures == 0
                    && !final(self).dead && final(self).samples == old(self).samples,
                WorkerEvent::ConnectFailed => !final(self).connected && final(self).samples
                    == old(self).samples && (old(self).failures + 1 >= MAX_CONNECT_ATTEMPTS
                    ==> final(self).dead) && (old(self).failures + 1 < MAX_CONNECT_ATTEMPTS
                    ==> !final(self).dead && final(self).failures == old(self).failures + 1),
                WorkerEvent::Response(l) => final(self).connected && final(self).samples@
                    == old(self).samples@.push(Sample { latency_us: l, success: true })
                    && final(self).failures == old(self).failures && !final(self).dead,
                WorkerEvent::TransportError(l) => !final(self).connected && final(self).samples@
                    == old(self).samples@.push(Sample { latency_us: l, success: false })
                    && final(self).failures == old(self).failures && !final(self).dead,
            },
    {
        self.in_flight = false;
        self.connecting = false;
        match event {
            WorkerEvent::Connected => {
                self.connected = true;
                self.failures = 0;
            },
            WorkerEvent::ConnectFailed => {
                self.connected = false;
                if self.failures + 1 >= MAX_CONNECT_ATTEMPTS {
                    self.failures = MAX_CONNECT_ATTEMPTS;
                    self.dead = true;
                } else {
                    self.failures = self.failures + 1;
                }
            },
            WorkerEvent::Response(l) => {
                self.samples.push(Sample { latency_us: l, success: true });
            },
            WorkerEvent::TransportError(l) => {
                self.connected = false;
                self.samples.push(Sample { latency_us: l, success: false });
            },
        }
    }

    /// Hands the samples over at the end of the task.
    pub fn into_samples(self) -> (r: Vec<Sample>)
        ensures
            r == self.samples,
    {
        self.samples
    }
}

} // verus!
