use reactive_graph::effect::EffectAction;
use reactive_graph::memo::Resolution;
use reactive_graph::runtime::Runtime;

#[test]
fn effect_runs_once_immediately() {
    let mut rt = Runtime::new();
    let s = rt.create_signal(3);
    let e = rt.create_effect();
    let mut log: Vec<u64> = Vec::new();
    // a fresh effect is already scheduled and dirty
    let sched = rt.take_scheduled();
    assert_eq!(sched, vec![e]);
    assert!(matches!(rt.effect_resolve(e), EffectAction::Run));
    rt.effect_begin_run(e);
    log.push(rt.read(s).get());
    rt.effect_finish_run(e);
    assert_eq!(log, vec![3]);
    // nothing further is pending
    assert!(rt.take_scheduled().is_empty());
    assert!(matches!(rt.effect_resolve(e), EffectAction::Skip));
}

#[test]
fn notify_once_per_write() {
    let mut rt = Runtime::new();
    let s = rt.create_signal(0);
    let e = rt.create_effect();
    let mut runs: u32 = 0;
    // service the initial run
    for eid in rt.take_scheduled() {
        if matches!(rt.effect_resolve(eid), EffectAction::Run) {
            rt.effect_begin_run(eid);
            let _ = rt.read(s).get();
            runs += 1;
            rt.effect_finish_run(eid);
        }
    }
    assert_eq!(runs, 1);
    // each of n writes wakes the dependent exactly once: no coalescing
    // across writes, no spurious wake-ups
    for i in 0..3u64 {
        rt.set_value(s, i + 10);
        let sched = rt.take_scheduled();
        assert_eq!(sched, vec![e]);
        for eid in sched {
            assert!(matches!(rt.effect_resolve(eid), EffectAction::Run));
            rt.effect_begin_run(eid);
            let _ = rt.read(s).get();
            runs += 1;
            rt.effect_finish_run(eid);
        }
    }
    assert_eq!(runs, 4);
}

#[test]
fn dynamic_dependency_rebinding() {
    let mut rt = Runtime::new();
    let a = rt.create_signal(100);
    let b = rt.create_signal(200);
    let c = rt.create_signal(0);
    let e = rt.create_effect();
    let mut runs: u32 = 0;
    // the effect reads a when c is zero, b otherwise
    let mut service = |rt: &mut Runtime, runs: &mut u32| {
        for eid in rt.take_scheduled() {
            if matches!(rt.effect_resolve(eid), EffectAction::Run) {
                rt.effect_begin_run(eid);
                let which = rt.read(c).get();
                let _ = if which == 0 { rt.read(a).get() } else { rt.read(b).get() };
                *runs += 1;
                rt.effect_finish_run(eid);
            }
        }
    };
    service(&mut rt, &mut runs);
    assert_eq!(runs, 1);
    // while the branch reads a, writing b is invisible to the effect
    rt.set_value(b, 201);
    assert!(rt.take_scheduled().is_empty());
    assert_eq!(runs, 1);
    // switch the branch: the effect re-runs and now reads b
    rt.set_value(c, 1);
    service(&mut rt, &mut runs);
    assert_eq!(runs, 2);
    // the effect unsubscribed from a: writing a no longer re-runs it
    rt.set_value(a, 101);
    assert!(rt.take_scheduled().is_empty());
    assert_eq!(runs, 2);
    let _ = e;
}

#[test]
fn disposal_safety() {
    let mut rt = Runtime::new();
    let s = rt.create_signal(0);
    let e = rt.create_effect();
    let mut runs: u32 = 0;
    for eid in rt.take_scheduled() {
        if matches!(rt.effect_resolve(eid), EffectAction::Run) {
            rt.effect_begin_run(eid);
            let _ = rt.read(s).get();
            runs += 1;
            rt.effect_finish_run(eid);
        }
    }
    assert_eq!(runs, 1);
    rt.dispose_effect(e);
    assert!(rt.effect_is_disposed(e));
    // writing to a signal the effect used to depend on schedules nothing
    rt.set_value(s, 1);
    assert!(rt.take_scheduled().is_empty());
    // and even a stray wake-up of a disposed effect is a no-op
    assert!(matches!(rt.effect_resolve(e), EffectAction::Skip));
    assert_eq!(runs, 1);
}

#[test]
fn untracked_isolation() {
    let mut rt = Runtime::new();
    let a = rt.create_signal(1);
    let b = rt.create_signal(2);
    let e = rt.create_effect();
    let mut runs: u32 = 0;
    let mut service = |rt: &mut Runtime, runs: &mut u32| {
        for eid in rt.take_scheduled() {
            if matches!(rt.effect_resolve(eid), EffectAction::Run) {
                rt.effect_begin_run(eid);
                let _ = rt.read(a).get();
                // read inside the tracking scope, via the untracked path
                let _ = rt.read_untracked(b).get();
                *runs += 1;
                rt.effect_finish_run(eid);
            }
        }
    };
    service(&mut rt, &mut runs);
    assert_eq!(runs, 1);
    // the untracked read registered no edge: writing b does nothing
    rt.set_value(b, 20);
    assert!(rt.take_scheduled().is_empty());
    assert_eq!(runs, 1);
    // the tracked read did register: writing a re-runs the effect
    rt.set_value(a, 10);
    service(&mut rt, &mut runs);
    assert_eq!(runs, 2);
    let _ = e;
}

#[test]
fn end_to_end_scenario() {
    let mut rt = Runtime::new();
    // signal count = 0; memo doubled = count * 2; effect logs doubled
    let count = rt.create_signal(0);
    let doubled = rt.create_memo();
    let e = rt.create_effect();
    let mut log: Vec<u64> = Vec::new();
    let mut memo_runs: u32 = 0;

    // one full servicing round: wake scheduled effects, settling the memo
    // through the runtime's resolution protocol as needed
    let mut service =
        |rt: &mut Runtime, log: &mut Vec<u64>, memo_runs: &mut u32| {
            for eid in rt.take_scheduled() {
                loop {
                    match rt.effect_resolve(eid) {
                        EffectAction::Skip => break,
                        EffectAction::Run => {
                            rt.effect_begin_run(eid);
                            loop {
                                match rt.memo_resolve(doubled) {
                                    Resolution::UpToDate => break,
                                    Resolution::RunNeeded(x) => {
                                        assert_eq!(x, doubled);
                                        rt.memo_begin_run(doubled);
                                        let v = rt.read(count).get() * 2;
                                        *memo_runs += 1;
                                        rt.memo_finish_run(doubled, v);
                                    }
                                    Resolution::CheckFirst(_) => {
                                        panic!("doubled has no memo sources")
                                    }
                                }
                            }
                            log.push(rt.memo_read(doubled));
                            rt.effect_finish_run(eid);
                        }
                        EffectAction::RunMemo(x) => {
                            assert_eq!(x, doubled);
                            rt.memo_begin_run(doubled);
                            let v = rt.read(count).get() * 2;
                            *memo_runs += 1;
                            rt.memo_finish_run(doubled, v);
                        }
                        EffectAction::CheckMemo(x) => {
                            assert_eq!(x, doubled);
                            loop {
                                match rt.memo_resolve(doubled) {
                                    Resolution::UpToDate => break,
                                    Resolution::RunNeeded(_) => {
                                        rt.memo_begin_run(doubled);
                                        let v = rt.read(count).get() * 2;
                                        *memo_runs += 1;
                                        rt.memo_finish_run(doubled, v);
                                    }
                                    Resolution::CheckFirst(_) => {
                                        panic!("doubled has no memo sources")
                                    }
                                }
                            }
                        }
                    }
                }
            }
        };

    // creation: the effect runs once, the log shows 0
    service(&mut rt, &mut log, &mut memo_runs);
    assert_eq!(log, vec![0]);
    assert_eq!(memo_runs, 1);

    // count.set(1): doubled recomputes to 2, the effect re-runs
    rt.set_value(count, 1);
    service(&mut rt, &mut log, &mut memo_runs);
    assert_eq!(log, vec![0, 2]);
    assert_eq!(memo_runs, 2);

    // count.set(1) again: the signal still notifies, doubled recomputes
    // to an equal 2 — and the effect, which subscribes to the memo and
    // not the signal, does not re-run
    rt.set_value(count, 1);
    service(&mut rt, &mut log, &mut memo_runs);
    assert_eq!(log, vec![0, 2]);
    assert_eq!(memo_runs, 3);
    let _ = e;
}
