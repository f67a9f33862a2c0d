use fatline_server::user_models::{CastId, Signer};
use fatline_server::worker::{
    consume_step, now, schedule_task, should_schedule, task_eq, Dispatch, LastRunMap, Task,
};

#[test]
fn debounce_window_for_index_fid() {
    // Admitted at t=1000; an identical task is dropped within the 300 s
    // gap and admitted once it has strictly passed.
    let mut m = LastRunMap::new();
    let t = || Task::IndexFid(7, false);
    assert_eq!(consume_step(&mut m, t(), 1000), Dispatch::IndexFid(7));
    assert_eq!(m.get(&t()), Some(1000));

    assert_eq!(consume_step(&mut m, t(), 1299), Dispatch::Skip);
    assert_eq!(m.get(&t()), Some(1000));
    assert_eq!(consume_step(&mut m, t(), 1300), Dispatch::Skip);

    assert_eq!(consume_step(&mut m, t(), 1301), Dispatch::IndexFid(7));
    assert_eq!(m.get(&t()), Some(1301));
}

#[test]
fn last_run_never_decreases_under_debounced_admissions() {
    let mut m = LastRunMap::new();
    let t = || Task::IndexLinks(7);
    assert_eq!(consume_step(&mut m, t(), 2000), Dispatch::IndexLinks(7));
    let first = m.get(&t()).unwrap();
    assert_eq!(consume_step(&mut m, t(), 4000), Dispatch::IndexLinks(7));
    let second = m.get(&t()).unwrap();
    assert!(second >= first);
    assert_eq!((first, second), (2000, 4000));
}

#[test]
fn force_bypasses_debounce() {
    let mut m = LastRunMap::new();
    assert_eq!(
        consume_step(&mut m, Task::IndexFid(7, true), 10),
        Dispatch::IndexFid(7)
    );
    // The forced admission was recorded under the forced key.
    assert_eq!(m.get(&Task::IndexFid(7, true)), Some(10));
    // The forced and unforced tasks debounce independently.
    assert_eq!(m.get(&Task::IndexFid(7, false)), None);
    assert_eq!(
        consume_step(&mut m, Task::IndexFid(7, true), 11),
        Dispatch::IndexFid(7)
    );
}

#[test]
fn index_links_uses_thirty_minute_gap() {
    let mut m = LastRunMap::new();
    let t = || Task::IndexLinks(3);
    assert_eq!(consume_step(&mut m, t(), 10_000), Dispatch::IndexLinks(3));
    assert_eq!(consume_step(&mut m, t(), 11_800), Dispatch::Skip);
    assert_eq!(consume_step(&mut m, t(), 11_801), Dispatch::IndexLinks(3));
}

#[test]
fn update_signer_always_admitted_and_unrecorded() {
    let mut m = LastRunMap::new();
    let signer = Signer { pk: vec![1, 2, 3], fid: 9, active: true };
    let task = Task::UpdateSigner(signer.clone());
    match consume_step(&mut m, task.clone(), 5) {
        Dispatch::UpdateSigner(s) => assert_eq!(s, signer),
        other => panic!("signer updates are always admitted, got {other:?}"),
    }
    // Immediately again: no debounce for signer updates.
    match consume_step(&mut m, task.clone(), 5) {
        Dispatch::UpdateSigner(s) => assert_eq!(s, signer),
        other => panic!("signer updates are always admitted, got {other:?}"),
    }
    assert_eq!(m.get(&task), None);
}

#[test]
fn reserved_tasks_are_no_ops() {
    let mut m = LastRunMap::new();
    assert_eq!(
        consume_step(&mut m, Task::IndexFidCasts(1, true), 1_000_000),
        Dispatch::Skip
    );
    let cast = Task::IndexCast(CastId { fid: 1, hash: vec![0xab; 20] });
    assert_eq!(consume_step(&mut m, cast.clone(), 1_000_000), Dispatch::Skip);
    assert_eq!(m.get(&cast), None);
}

#[test]
fn schedule_task_uses_supplied_last_run() {
    let mut m = LastRunMap::new();
    assert_eq!(
        schedule_task(Task::IndexFid(5, false), &mut m, Some(700), 1000),
        Dispatch::Skip
    );
    assert_eq!(
        schedule_task(Task::IndexFid(5, false), &mut m, Some(699), 1000),
        Dispatch::IndexFid(5)
    );
}

#[test]
fn task_identity_is_structural() {
    let a = Task::UpdateSigner(Signer { pk: vec![1, 2], fid: 3, active: true });
    let b = Task::UpdateSigner(Signer { pk: vec![1, 2], fid: 3, active: true });
    let c = Task::UpdateSigner(Signer { pk: vec![1, 2], fid: 3, active: false });
    assert!(task_eq(&a, &b));
    assert!(!task_eq(&a, &c));
    assert!(!task_eq(&Task::IndexFid(1, false), &Task::IndexFid(1, true)));
    assert!(!task_eq(&Task::IndexFid(1, false), &Task::IndexLinks(1)));
    assert!(task_eq(
        &Task::IndexCast(CastId { fid: 1, hash: vec![7] }),
        &Task::IndexCast(CastId { fid: 1, hash: vec![7] })
    ));
}

#[test]
fn clock_reads_and_gates() {
    let t = now();
    assert!(t > 1_600_000_000, "system clock reads as unix seconds");
    let (n, allowed) = should_schedule(0, 300);
    assert!(n >= t);
    assert!(allowed, "any sane clock clears a 300 s gap from zero");
    let (_, drop) = should_schedule(u64::MAX, 300);
    assert!(!drop, "a saturated last-run time admits nothing");
}
