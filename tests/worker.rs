use ferrbench::stats::{merge_buffers, round_stats, RoundResult, Sample};
use ferrbench::worker::{Worker, WorkerAction, WorkerEvent, MAX_CONNECT_ATTEMPTS};

#[test]
fn connects_then_sends() {
    let mut w = Worker::new();
    assert_eq!(w.next_action(false), WorkerAction::Connect);
    w.on_event(WorkerEvent::Connected);
    assert_eq!(w.next_action(false), WorkerAction::Send);
    w.on_event(WorkerEvent::Response(120));
    assert_eq!(w.next_action(false), WorkerAction::Send);
    w.on_event(WorkerEvent::Response(80));
    assert_eq!(w.next_action(true), WorkerAction::Exit);
    let s = w.into_samples();
    assert_eq!(
        s,
        vec![
            Sample { latency_us: 120, success: true },
            Sample { latency_us: 80, success: true }
        ]
    );
}

#[test]
fn stop_is_sticky() {
    let mut w = Worker::new();
    assert_eq!(w.next_action(true), WorkerAction::Exit);
    assert_eq!(w.next_action(false), WorkerAction::Exit);
    assert!(w.into_samples().is_empty());
}

#[test]
fn gives_up_after_failed_attempts() {
    let mut w = Worker::new();
    for _ in 0..MAX_CONNECT_ATTEMPTS {
        assert_eq!(w.next_action(false), WorkerAction::Connect);
        w.on_event(WorkerEvent::ConnectFailed);
    }
    assert!(w.dead);
    assert_eq!(w.next_action(false), WorkerAction::Exit);
}

#[test]
fn transport_error_reconnects() {
    let mut w = Worker::new();
    w.next_action(false);
    w.on_event(WorkerEvent::Connected);
    w.next_action(false);
    w.on_event(WorkerEvent::TransportError(7));
    assert_eq!(w.next_action(false), WorkerAction::Connect);
    w.on_event(WorkerEvent::Connected);
    assert_eq!(w.next_action(false), WorkerAction::Send);
    w.on_event(WorkerEvent::Response(9));
    w.next_action(true);
    let s = w.into_samples();
    assert_eq!(s.len(), 2);
    assert!(!s[0].success);
    assert!(s[1].success);
}

/// Eight simulated connections (two threads of four) answered at once for
/// one second of round time.
#[test]
fn simulated_round_of_eight_connections() {
    let mut buffers = Vec::new();
    for _ in 0..2 * 4 {
        let mut w = Worker::new();
        let mut clock: u64 = 0;
        loop {
            let stop = clock >= 1_000_000;
            match w.next_action(stop) {
                WorkerAction::Exit => break,
                WorkerAction::Connect => w.on_event(WorkerEvent::Connected),
                WorkerAction::Send => {
                    clock += 1000;
                    w.on_event(WorkerEvent::Response(1000));
                }
            }
        }
        buffers.push(w.into_samples());
    }
    let round = RoundResult { samples: merge_buffers(buffers), wall_us: 1_000_000 };
    let st = round_stats(&round);
    assert!(st.successes > 0);
    assert_eq!(st.successes, 8000);
    assert_eq!(st.throughput_milli, st.successes * 1000);
    assert!(st.latency.max >= st.latency.p50);
}
