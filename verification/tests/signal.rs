use reactive_graph::graph::DirtyState;
use reactive_graph::graph::SubscriberId;
use reactive_graph::runtime::Runtime;
use reactive_graph::signal::SignalUntrackedWriteGuard;
use reactive_graph::signal::SignalWriteGuard;

#[test]
fn write_guards_built_by_hand() {
    let mut rt = Runtime::new();
    let s = rt.create_signal(0);
    let g = SignalWriteGuard::new(s, 17);
    assert_eq!(g.get(), 17);
    rt.release_write(g);
    assert_eq!(rt.read_untracked(s).get(), 17);
    let u = SignalUntrackedWriteGuard::new(s, 18);
    assert_eq!(u.get(), 18);
    rt.release_write_untracked(u);
    assert_eq!(rt.read_untracked(s).get(), 18);
}

#[test]
fn create_signal() {
    let mut rt = Runtime::new();
    let a = rt.create_signal(0);
    assert_eq!(rt.read(a).get(), 0);
    assert_eq!(rt.get_value(a), 0);
    assert_eq!(rt.with_untracked(a, |n| n + 1), 1);
    assert_eq!(rt.with(a, |n| n + 1), 1);
}

#[test]
fn update_signal() {
    let mut rt = Runtime::new();
    let a = rt.create_signal(0);
    let mut g = rt.write(a);
    let cur = g.get();
    g.set(cur + 1);
    rt.release_write(g);
    assert_eq!(rt.get_value(a), 1);
    rt.update(a, |n| n + 1);
    assert_eq!(rt.get_value(a), 2);
    rt.update_untracked(a, |n| n + 1);
    assert_eq!(rt.get_value(a), 3);
    rt.set_value(a, 4);
    assert_eq!(rt.get_value(a), 4);
}

#[test]
fn read_after_write() {
    let mut rt = Runtime::new();
    let s = rt.create_signal(7);
    let mut g = rt.write(s);
    g.set(99);
    // nothing is stored or marked while the guard is pending
    assert_eq!(rt.read_untracked(s).get(), 7);
    rt.release_write(g);
    assert_eq!(rt.read(s).get(), 99);
    assert_eq!(rt.read_untracked(s).get(), 99);
}

#[test]
fn write_guard_release_notifies_even_on_equal_value() {
    let mut rt = Runtime::new();
    let s = rt.create_signal(5);
    let m = rt.create_memo();
    // establish the memo: derivation reads s
    match rt.memo_resolve(m) {
        reactive_graph::memo::Resolution::RunNeeded(x) => {
            assert_eq!(x, m);
            rt.memo_begin_run(m);
            let v = rt.read(s).get();
            rt.memo_finish_run(m, v);
        }
        _ => panic!("a never-run memo must ask to be run"),
    }
    assert_eq!(rt.memo_read(m), 5);
    assert_eq!(rt.memo_states[m], DirtyState::Clean);
    // storing an equal value still notifies: the memo is marked Check
    rt.set_value(s, 5);
    assert_eq!(rt.memo_states[m], DirtyState::Check);
}

#[test]
fn untracked_write_guard_notifies_nobody() {
    let mut rt = Runtime::new();
    let s = rt.create_signal(1);
    let m = rt.create_memo();
    match rt.memo_resolve(m) {
        reactive_graph::memo::Resolution::RunNeeded(_) => {
            rt.memo_begin_run(m);
            let v = rt.read(s).get();
            rt.memo_finish_run(m, v);
        }
        _ => panic!("a never-run memo must ask to be run"),
    }
    assert_eq!(rt.memo_read(m), 1);
    let mut g = rt.write_untracked(s);
    g.set(2);
    rt.release_write_untracked(g);
    // the value is committed but no subscriber was marked
    assert_eq!(rt.read_untracked(s).get(), 2);
    assert_eq!(rt.memo_states[m], DirtyState::Clean);
}

#[test]
fn tracked_read_registers_subscriber() {
    let mut rt = Runtime::new();
    let s = rt.create_signal(0);
    let m = rt.create_memo();
    rt.memo_begin_run(m);
    let _ = rt.read(s).get();
    rt.memo_finish_run(m, 0);
    assert!(rt.sig_subs[s].contains(&SubscriberId::Memo(m)));
}

#[test]
fn untracked_read_registers_nothing() {
    let mut rt = Runtime::new();
    let s = rt.create_signal(0);
    let m = rt.create_memo();
    rt.memo_begin_run(m);
    let _ = rt.read_untracked(s).get();
    rt.memo_finish_run(m, 0);
    assert!(rt.sig_subs[s].is_empty());
}
