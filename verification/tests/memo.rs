use reactive_graph::graph::DirtyState;
use reactive_graph::memo::Resolution;
use reactive_graph::runtime::Runtime;

/// Runs the derivation "value of `s` times two" for a memo that was asked
/// to recompute, counting the invocation.
fn run_times_two(rt: &mut Runtime, m: usize, s: usize, runs: &mut u32) {
    rt.memo_begin_run(m);
    let v = rt.read(s).get() * 2;
    *runs += 1;
    rt.memo_finish_run(m, v);
}

#[test]
fn memo_memoization() {
    let mut rt = Runtime::new();
    let s = rt.create_signal(21);
    let m = rt.create_memo();
    let mut runs: u32 = 0;
    // first read forces the one and only run
    match rt.memo_resolve(m) {
        Resolution::RunNeeded(x) => {
            assert_eq!(x, m);
            run_times_two(&mut rt, m, s, &mut runs);
        }
        _ => panic!("a never-run memo must ask to be run"),
    }
    assert!(matches!(rt.memo_resolve(m), Resolution::UpToDate));
    assert_eq!(rt.memo_read(m), 42);
    // repeated reads with no intervening write never recompute
    for _ in 0..5 {
        assert!(matches!(rt.memo_resolve(m), Resolution::UpToDate));
        assert_eq!(rt.memo_read(m), 42);
    }
    assert_eq!(runs, 1);
}

#[test]
fn memo_recomputes_after_write() {
    let mut rt = Runtime::new();
    let s = rt.create_signal(1);
    let m = rt.create_memo();
    let mut runs: u32 = 0;
    match rt.memo_resolve(m) {
        Resolution::RunNeeded(_) => run_times_two(&mut rt, m, s, &mut runs),
        _ => panic!("a never-run memo must ask to be run"),
    }
    assert_eq!(rt.memo_read(m), 2);
    rt.set_value(s, 10);
    assert_eq!(rt.memo_states[m], DirtyState::Check);
    // resolving finds the signal edge and demands a recomputation
    match rt.memo_resolve(m) {
        Resolution::RunNeeded(x) => {
            assert_eq!(x, m);
            run_times_two(&mut rt, m, s, &mut runs);
        }
        _ => panic!("a memo whose signal fired must ask to be run"),
    }
    assert_eq!(rt.memo_read(m), 20);
    assert_eq!(runs, 2);
}

#[test]
fn memo_equality_short_circuit() {
    let mut rt = Runtime::new();
    // m1 derives s % 2; m2 derives m1 + 100
    let s = rt.create_signal(0);
    let m1 = rt.create_memo();
    let m2 = rt.create_memo();
    let mut m1_runs: u32 = 0;
    let mut m2_runs: u32 = 0;
    // settle m2 (and, through it, m1) for the first time
    match rt.memo_resolve(m2) {
        Resolution::RunNeeded(x) => {
            assert_eq!(x, m2);
            rt.memo_begin_run(m2);
            // the derivation of m2 reads m1, which must be settled first
            match rt.memo_resolve(m1) {
                Resolution::RunNeeded(y) => {
                    assert_eq!(y, m1);
                    rt.memo_begin_run(m1);
                    let v1 = rt.read(s).get() % 2;
                    m1_runs += 1;
                    rt.memo_finish_run(m1, v1);
                }
                _ => panic!("a never-run memo must ask to be run"),
            }
            let v2 = rt.memo_read(m1) + 100;
            m2_runs += 1;
            rt.memo_finish_run(m2, v2);
        }
        _ => panic!("a never-run memo must ask to be run"),
    }
    assert_eq!(rt.memo_read(m2), 100);
    assert_eq!((m1_runs, m2_runs), (1, 1));

    // a write that leaves m1's value equal: 0 % 2 == 2 % 2
    rt.set_value(s, 2);
    // dependents got only a Check, never a Dirty
    assert_eq!(rt.memo_states[m1], DirtyState::Check);
    assert_eq!(rt.memo_states[m2], DirtyState::Check);

    // resolving m2 finds m1 unsettled and asks for it first
    match rt.memo_resolve(m2) {
        Resolution::CheckFirst(x) => {
            assert_eq!(x, m1);
            match rt.memo_resolve(m1) {
                Resolution::RunNeeded(y) => {
                    assert_eq!(y, m1);
                    rt.memo_begin_run(m1);
                    let v1 = rt.read(s).get() % 2;
                    m1_runs += 1;
                    rt.memo_finish_run(m1, v1);
                }
                _ => panic!("m1 saw its signal fire and must ask to be run"),
            }
        }
        _ => panic!("m2 must ask for its source to be settled first"),
    }
    // m1 recomputed to an equal value, so m2 resolves clean with no run
    assert!(matches!(rt.memo_resolve(m2), Resolution::UpToDate));
    assert_eq!(rt.memo_read(m2), 100);
    assert_eq!((m1_runs, m2_runs), (2, 1));
}

#[test]
fn memo_recomputes_through_changed_source() {
    let mut rt = Runtime::new();
    // m1 derives s % 2; m2 derives m1 + 100; this time the value changes
    let s = rt.create_signal(0);
    let m1 = rt.create_memo();
    let m2 = rt.create_memo();
    // first settlement
    match rt.memo_resolve(m1) {
        Resolution::RunNeeded(_) => {
            rt.memo_begin_run(m1);
            let v = rt.read(s).get() % 2;
            rt.memo_finish_run(m1, v);
        }
        _ => panic!("a never-run memo must ask to be run"),
    }
    match rt.memo_resolve(m2) {
        Resolution::RunNeeded(_) => {
            rt.memo_begin_run(m2);
            let v = rt.memo_read(m1) + 100;
            rt.memo_finish_run(m2, v);
        }
        _ => panic!("a never-run memo must ask to be run"),
    }
    assert_eq!(rt.memo_read(m2), 100);
    // 0 % 2 != 3 % 2: m1 really changes, and m2 must follow
    rt.set_value(s, 3);
    match rt.memo_resolve(m2) {
        Resolution::CheckFirst(x) => {
            assert_eq!(x, m1);
            match rt.memo_resolve(m1) {
                Resolution::RunNeeded(_) => {
                    rt.memo_begin_run(m1);
                    let v = rt.read(s).get() % 2;
                    rt.memo_finish_run(m1, v);
                }
                _ => panic!("m1 saw its signal fire and must ask to be run"),
            }
        }
        _ => panic!("m2 must ask for its source to be settled first"),
    }
    match rt.memo_resolve(m2) {
        Resolution::RunNeeded(x) => {
            assert_eq!(x, m2);
            rt.memo_begin_run(m2);
            let v = rt.memo_read(m1) + 100;
            rt.memo_finish_run(m2, v);
        }
        _ => panic!("m2 depends on a changed memo and must ask to be run"),
    }
    assert_eq!(rt.memo_read(m2), 101);
}
