use async_await_future::task::{Task, TaskOutput};
use async_await_future::demos::{
    bad_example_no_yield_control_runtime, yield_control_runtime, yield_now_example,
};
use async_await_future::clock::VirtualClock;
use async_await_future::future::MyFuture;
use async_await_future::join::{join, join_all};
use async_await_future::poll::{Either, Poll};
use async_await_future::runtime::{run_to_completion, run_with_clock, Stop};
use async_await_future::script::{Script, Step};
use async_await_future::select::{select, then, timeout};
use async_await_future::timer::TimerFuture;
use async_await_future::waker::Notifier;
use async_await_future::yield_now::yield_now;

#[test]
fn timeout_elapses_before_slow_timer() {
    let mut clock = VirtualClock::new();
    let slow = clock.timer(200);
    let limit = clock.timer(100);
    let mut root = timeout(slow, limit);
    let r = run_with_clock(&mut root, &mut clock, 100);
    assert!(matches!(r, Ok(Err(100))));
    assert_eq!(clock.now_ms(), 100);
}

#[test]
fn timeout_lets_fast_timer_finish() {
    let mut clock = VirtualClock::new();
    let fast = clock.timer(50);
    let limit = clock.timer(100);
    let mut root = timeout(fast, limit);
    match run_with_clock(&mut root, &mut clock, 100) {
        Ok(Ok(())) => {}
        _ => panic!("the fast timer should win"),
    }
    assert_eq!(clock.now_ms(), 50);
}

#[test]
fn select_prefers_left_on_tie() {
    for _ in 0..5 {
        let (a, fire_a) = TimerFuture::new(10);
        let (b, fire_b) = TimerFuture::new(10);
        fire_b.fire();
        fire_a.fire();
        let mut root = select(a, b);
        let r = run_to_completion(&mut root, 10);
        assert!(matches!(r, Some(Either::Left(_))));
    }
}

#[test]
fn select_right_when_only_right_ready() {
    let (a, _keep) = TimerFuture::new(10);
    let (b, fire_b) = TimerFuture::new(10);
    fire_b.fire();
    let mut root = select(a, b);
    let r = run_to_completion(&mut root, 10);
    assert!(matches!(r, Some(Either::Right(_))));
}

#[test]
fn join_all_is_bounded_by_longest_timer() {
    let mut clock = VirtualClock::new();
    let timers = vec![clock.timer(100), clock.timer(100), clock.timer(100)];
    let mut root = join_all(timers);
    match run_with_clock(&mut root, &mut clock, 100) {
        Ok(out) => assert_eq!(out.len(), 3),
        _ => panic!("join should finish"),
    }
    assert_eq!(clock.now_ms(), 100);
}

#[test]
fn join_all_keeps_input_order() {
    let mut clock = VirtualClock::new();
    let a = then(clock.timer(30), "a");
    let b = then(clock.timer(10), "b");
    let mut root = join_all(vec![a, b]);
    match run_with_clock(&mut root, &mut clock, 100) {
        Ok(out) => assert_eq!(out, vec!["a", "b"]),
        _ => panic!("join should finish"),
    }
    assert_eq!(clock.now_ms(), 30);
}

fn merged_trace(a: &[u64], b: &[u64]) -> Vec<String> {
    let mut events: Vec<(u64, u8, usize)> = Vec::new();
    for (i, r) in a.iter().enumerate() {
        events.push((*r, 0, i));
    }
    for (i, r) in b.iter().enumerate() {
        events.push((*r, 1, i));
    }
    events.sort();
    events
        .iter()
        .map(|(_, who, i)| format!("{}{}", if *who == 0 { "a" } else { "b" }, i))
        .collect()
}

#[test]
fn yields_interleave_branches() {
    let a = Script::new(vec![
        Step::Work(30),
        Step::Yield,
        Step::Work(10),
        Step::Yield,
        Step::Work(20),
        Step::Yield,
    ]);
    let b = Script::new(vec![
        Step::Work(75),
        Step::Yield,
        Step::Work(10),
        Step::Yield,
        Step::Work(15),
        Step::Yield,
        Step::Work(350),
        Step::Yield,
    ]);
    let mut root = join(a, b);
    let (ra, rb) = run_to_completion(&mut root, 100).unwrap();
    assert_eq!(ra, vec![0, 1, 2]);
    assert_eq!(rb, vec![0, 1, 2, 3]);
    assert_eq!(
        merged_trace(&ra, &rb),
        vec!["a0", "b0", "a1", "b1", "a2", "b2", "b3"]
    );
}

#[test]
fn without_yields_branches_run_sequentially() {
    let a = Script::new(vec![Step::Work(30), Step::Work(10), Step::Work(20)]);
    let b = Script::new(vec![Step::Work(75), Step::Work(10), Step::Work(15), Step::Work(350)]);
    let mut root = join(a, b);
    let (ra, rb) = run_to_completion(&mut root, 100).unwrap();
    assert_eq!(ra, vec![0, 0, 0]);
    assert_eq!(rb, vec![0, 0, 0, 0]);
    assert_eq!(
        merged_trace(&ra, &rb),
        vec!["a0", "a1", "a2", "b0", "b1", "b2", "b3"]
    );
}

#[test]
fn yield_point_is_pending_once() {
    let (notifier, waker) = Notifier::new();
    let mut y = yield_now();
    assert!(matches!(y.poll(&waker), Poll::Pending));
    assert!(notifier.take());
    assert!(matches!(y.poll(&waker), Poll::Ready(())));
}

#[test]
fn wake_after_completion_or_discard_is_harmless() {
    let (notifier, waker) = Notifier::new();
    let (mut t, trigger) = TimerFuture::new(5);
    assert!(matches!(t.poll(&waker), Poll::Pending));
    trigger.fire();
    assert!(notifier.take());
    assert!(matches!(t.poll(&waker), Poll::Ready(_)));
    let stale = waker.clone();
    stale.wake();
    stale.wake();
    drop(notifier);
    stale.wake();
    let (discarded, trigger2) = TimerFuture::new(5);
    drop(discarded);
    trigger2.fire();
}

#[test]
fn stalled_run_reports_stall() {
    let mut clock = VirtualClock::new();
    let (t, _trigger) = TimerFuture::new(5);
    let mut root = t;
    assert!(matches!(run_with_clock(&mut root, &mut clock, 10), Err(Stop::Stalled)));
}

#[test]
fn run_out_of_rounds() {
    let mut y = yield_now();
    assert!(run_to_completion(&mut y, 1).is_none());
    assert!(run_to_completion(&mut y, 1).is_some());
}

#[test]
fn cooperative_examples() {
    assert_eq!(yield_now_example(), Some((vec![0, 1, 2], vec![0, 1, 2, 3])));
    assert_eq!(yield_control_runtime(), Some((vec![0, 1, 2], vec![0, 1, 2, 3])));
    assert_eq!(
        bad_example_no_yield_control_runtime(),
        Some((vec![0, 0, 0], vec![0, 0, 0, 0]))
    );
}

#[test]
fn timer_duration_and_message() {
    let (mut t, trigger) = TimerFuture::new(250);
    assert_eq!(t.duration_ms(), 250);
    assert_eq!(trigger.duration_ms(), 250);
    trigger.fire();
    let (_n, w) = Notifier::new();
    match t.poll(&w) {
        Poll::Ready(()) => {}
        Poll::Pending => panic!("a fired timer is ready"),
    }
}

#[test]
fn clock_fires_timers_in_deadline_order() {
    let mut clock = VirtualClock::new();
    let late = clock.timer(30);
    let early = clock.timer(10);
    assert!(clock.advance());
    assert_eq!(clock.now_ms(), 10);
    assert!(clock.advance());
    assert_eq!(clock.now_ms(), 30);
    assert!(!clock.advance());
    assert_eq!(clock.now_ms(), 30);
    drop((late, early));
}

#[test]
fn join_all_drives_members_of_different_shapes() {
    let mut clock = VirtualClock::new();
    let members = vec![
        Task::Timer(clock.timer(20)),
        Task::Yield(yield_now()),
        Task::Script(Script::new(vec![Step::Work(1), Step::Yield, Step::Work(2)])),
    ];
    let mut root = join_all(members);
    let out = match run_with_clock(&mut root, &mut clock, 100) {
        Ok(out) => out,
        Err(_) => panic!("join should finish"),
    };
    assert_eq!(out.len(), 3);
    assert!(matches!(&out[0], TaskOutput::TimerDone));
    assert!(matches!(&out[1], TaskOutput::Unit));
    assert!(matches!(&out[2], TaskOutput::Trace(t) if *t == vec![0, 1]));
    assert_eq!(clock.now_ms(), 20);
}

#[test]
fn timeout_with_ready_computation_prefers_ok() {
    let mut clock = VirtualClock::new();
    let quick = then(Script::new(vec![]), 42);
    let limit = clock.timer(0);
    let mut root = timeout(quick, limit);
    assert!(matches!(run_with_clock(&mut root, &mut clock, 1), Ok(Ok(42))));
}

#[test]
fn timeout_passes_inner_error_through() {
    let mut clock = VirtualClock::new();
    let failing = then(clock.timer(10), Err::<u8, &str>("boom"));
    let limit = clock.timer(100);
    let mut root = timeout(failing, limit);
    assert!(matches!(run_with_clock(&mut root, &mut clock, 100), Ok(Ok(Err("boom")))));
}

#[test]
fn join_all_of_nothing_is_ready_at_once() {
    let mut root = join_all(Vec::<TimerFuture>::new());
    assert_eq!(run_to_completion(&mut root, 1).map(|v| v.len()), Some(0));
}
