use sal_server::{Admission, TaskOutcome, ThreadLimit};

#[test]
fn new_gate_is_empty() {
    let gate = ThreadLimit::new(4);
    assert_eq!(gate.max_threads(), 4);
    assert_eq!(gate.running(), 0);
}

#[test]
fn gate_admits_up_to_capacity() {
    let mut gate = ThreadLimit::new(3);
    assert_eq!(gate.reserve(), Admission::Admitted);
    assert_eq!(gate.reserve(), Admission::Admitted);
    assert_eq!(gate.reserve(), Admission::Admitted);
    assert_eq!(gate.running(), 3);
    assert_eq!(gate.reserve(), Admission::MustWait);
    assert_eq!(gate.running(), 3);
}

#[test]
fn running_count_never_exceeds_capacity() {
    let mut gate = ThreadLimit::new(2);
    let mut seed: u32 = 12345;
    for _ in 0..10_000 {
        seed = seed.wrapping_mul(1_103_515_245).wrapping_add(12_345);
        let submit = (seed >> 16) % 3 != 0;
        if submit {
            let before = gate.running();
            let answer = gate.reserve();
            if before < 2 {
                assert_eq!(answer, Admission::Admitted);
                assert_eq!(gate.running(), before + 1);
            } else {
                assert_eq!(answer, Admission::MustWait);
                assert_eq!(gate.running(), before);
            }
        } else if gate.running() > 0 {
            let before = gate.running();
            gate.release(TaskOutcome::Returned);
            assert_eq!(gate.running(), before - 1);
        }
        assert!(gate.running() <= gate.max_threads());
        assert_eq!(gate.max_threads(), 2);
    }
}

#[test]
fn failed_task_frees_its_unit() {
    let mut gate = ThreadLimit::new(2);
    assert_eq!(gate.reserve(), Admission::Admitted);
    assert_eq!(gate.reserve(), Admission::Admitted);
    assert_eq!(gate.reserve(), Admission::MustWait);
    assert_eq!(gate.release(TaskOutcome::Failed), 1);
    assert_eq!(gate.running(), 1);
    assert_eq!(gate.reserve(), Admission::Admitted);
    assert_eq!(gate.running(), 2);
}

#[test]
fn single_slot_runs_one_task_at_a_time() {
    let mut gate = ThreadLimit::new(1);
    assert_eq!(gate.reserve(), Admission::Admitted);
    assert_eq!(gate.reserve(), Admission::MustWait);
    assert_eq!(gate.reserve(), Admission::MustWait);
    assert_eq!(gate.release(TaskOutcome::Returned), 1);
    assert_eq!(gate.running(), 0);
    assert_eq!(gate.reserve(), Admission::Admitted);
    assert_eq!(gate.reserve(), Admission::MustWait);
    gate.release(TaskOutcome::Failed);
    assert_eq!(gate.reserve(), Admission::Admitted);
    assert_eq!(gate.running(), 1);
}

#[test]
fn zero_capacity_admits_nothing() {
    let mut gate = ThreadLimit::new(0);
    assert_eq!(gate.max_threads(), 0);
    for _ in 0..5 {
        assert_eq!(gate.reserve(), Admission::MustWait);
        assert_eq!(gate.running(), 0);
    }
}
