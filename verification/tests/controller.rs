use arbtest::arbitrary::Unstructured;
use interleave::atomic::{Access, AtomicU32, Parked};
use interleave::cell::{Shared, Status};
use interleave::counter::{BadCounter, Mode};
use interleave::scheduler::{Outcome, Scheduler};
use interleave::thread::controlled_thread;

#[test]
fn a_cell_goes_from_ready_through_a_unit_of_work_and_back() {
    let mut cell = Shared::new();
    assert_eq!(cell.status(), Status::Ready);
    assert!(!cell.is_blocked());
    cell.submit();
    assert_eq!(cell.status(), Status::Running);
    cell.block();
    assert_eq!(cell.status(), Status::Blocked);
    assert!(cell.is_blocked());
    cell.release();
    assert_eq!(cell.status(), Status::Running);
    cell.block();
    assert_eq!(cell.status(), Status::Blocked);
    cell.release();
    cell.complete();
    assert_eq!(cell.status(), Status::Ready);
    assert!(!cell.is_blocked());
}

#[test]
fn the_numeric_cell_loads_stores_and_adds() {
    let mut cell = AtomicU32::new(5);
    assert_eq!(cell.load(), 5);
    cell.store(9);
    assert_eq!(cell.load(), 9);
    cell.fetch_add(3);
    assert_eq!(cell.load(), 12);
    assert_eq!(AtomicU32::default().load(), 0);
}

#[test]
fn fetch_add_wraps_around() {
    let mut cell = AtomicU32::new(u32::MAX);
    cell.fetch_add(1);
    assert_eq!(cell.load(), 0);
    let mut cell = AtomicU32::new(u32::MAX - 1);
    cell.fetch_add(5);
    assert_eq!(cell.load(), 3);
}

#[test]
fn an_access_returns_what_the_cell_held() {
    let mut cell = AtomicU32::new(4);
    assert_eq!(cell.perform(Access::Load), 4);
    assert_eq!(cell.load(), 4);
    assert_eq!(cell.perform(Access::Store(8)), 4);
    assert_eq!(cell.load(), 8);
    assert_eq!(cell.perform(Access::FetchAdd(2)), 8);
    assert_eq!(cell.load(), 10);
}

#[test]
fn an_uncontrolled_increment_runs_straight_through() {
    let mut counter = BadCounter::default();
    assert_eq!(counter.get(), 0);
    counter.increment();
    counter.increment();
    assert_eq!(counter.get(), 2);
    let mut counter = BadCounter::new(Mode::Atomic);
    counter.increment();
    assert_eq!(counter.get(), 1);
}

#[test]
fn a_two_step_increment_parks_four_times() {
    let mut counter = BadCounter::new(Mode::TwoStep);
    let at = counter.begin();
    assert_eq!(at, Parked::Before(Access::Load));
    let at = counter.resume(at).unwrap();
    assert_eq!(at, Parked::After(Access::Load, 0));
    let at = counter.resume(at).unwrap();
    assert_eq!(at, Parked::Before(Access::Store(1)));
    assert_eq!(counter.get(), 0);
    let at = counter.resume(at).unwrap();
    assert_eq!(at, Parked::After(Access::Store(1), 0));
    assert_eq!(counter.get(), 1);
    assert_eq!(counter.resume(at), None);
    assert_eq!(counter.get(), 1);
}

#[test]
fn an_atomic_increment_parks_twice() {
    let mut counter = BadCounter::new(Mode::Atomic);
    let at = counter.begin();
    assert_eq!(at, Parked::Before(Access::FetchAdd(1)));
    let at = counter.resume(at).unwrap();
    assert_eq!(at, Parked::After(Access::FetchAdd(1), 0));
    assert_eq!(counter.get(), 1);
    assert_eq!(counter.resume(at), None);
    assert_eq!(counter.get(), 1);
}

#[test]
fn a_worker_is_blocked_until_its_unit_of_work_is_done() {
    let mut counter = BadCounter::new(Mode::TwoStep);
    let mut thread = controlled_thread();
    assert!(!thread.is_blocked());
    thread.act(&counter);
    assert!(thread.is_blocked());
    assert_eq!(counter.get(), 0);
    thread.unblock(&mut counter);
    assert!(thread.is_blocked());
    thread.unblock(&mut counter);
    assert!(thread.is_blocked());
    assert_eq!(counter.get(), 0);
    thread.unblock(&mut counter);
    assert!(thread.is_blocked());
    assert_eq!(counter.get(), 1);
    thread.unblock(&mut counter);
    assert!(!thread.is_blocked());
    assert_eq!(counter.get(), 1);
}

#[test]
fn each_unit_of_work_runs_once() {
    let mut counter = BadCounter::new(Mode::Atomic);
    let mut thread = controlled_thread();
    for done in 0..5u32 {
        thread.act(&counter);
        assert_eq!(counter.get(), done);
        thread.unblock(&mut counter);
        assert_eq!(counter.get(), done + 1);
        thread.unblock(&mut counter);
        assert!(!thread.is_blocked());
        assert_eq!(counter.get(), done + 1);
    }
}

#[test]
fn shutdown_drains_a_parked_worker() {
    let mut counter = BadCounter::new(Mode::TwoStep);
    let mut thread = controlled_thread();
    thread.act(&counter);
    thread.unblock(&mut counter);
    assert!(thread.is_blocked());
    thread.shutdown(&mut counter);
    assert!(!thread.is_blocked());
    assert_eq!(counter.get(), 1);
}

#[test]
fn shutdown_of_an_idle_worker_does_nothing() {
    let mut counter = BadCounter::new(Mode::TwoStep);
    let mut thread = controlled_thread();
    thread.shutdown(&mut counter);
    assert!(!thread.is_blocked());
    assert_eq!(counter.get(), 0);
}

#[test]
fn a_stale_write_clobbers_the_other_workers_update() {
    let mut counter = BadCounter::new(Mode::TwoStep);
    let mut model: u32 = 0;
    let mut first = controlled_thread();
    let mut second = controlled_thread();
    first.act(&counter);
    model += 1;
    first.unblock(&mut counter);
    second.act(&counter);
    model += 1;
    while second.is_blocked() {
        second.unblock(&mut counter);
    }
    assert_eq!(counter.get(), 1);
    first.shutdown(&mut counter);
    second.shutdown(&mut counter);
    assert_eq!(counter.get(), 1);
    assert_eq!(model, 2);
}

#[test]
fn the_same_interleaving_is_harmless_with_an_atomic_increment() {
    let mut counter = BadCounter::new(Mode::Atomic);
    let mut first = controlled_thread();
    let mut second = controlled_thread();
    first.act(&counter);
    first.unblock(&mut counter);
    second.act(&counter);
    while second.is_blocked() {
        second.unblock(&mut counter);
    }
    first.shutdown(&mut counter);
    second.shutdown(&mut counter);
    assert_eq!(counter.get(), 2);
}

#[test]
fn a_run_that_blocks_one_worker_after_its_read_loses_an_update() {
    let input = [1, 0, 1, 0, 0, 1, 0, 1, 0, 1, 0, 1, 0, 1];
    let outcome = Scheduler::replay(&input, 2, Mode::TwoStep).unwrap();
    assert_eq!(outcome, Outcome { observed: 1, expected: 2 });
    assert!(outcome.diverged());
}

#[test]
fn two_reads_before_either_write_lose_an_update() {
    let outcome = Scheduler::replay(&[1, 0, 1, 1, 0, 1], 2, Mode::TwoStep).unwrap();
    assert_eq!(outcome, Outcome { observed: 1, expected: 2 });
    assert!(outcome.diverged());
}

#[test]
fn the_atomic_counter_survives_the_inputs_that_lose_an_update() {
    let outcome = Scheduler::replay(&[1, 0, 1, 1, 0, 1], 2, Mode::Atomic).unwrap();
    assert_eq!(outcome, Outcome { observed: 2, expected: 2 });
    assert!(!outcome.diverged());
    let input = [1, 0, 1, 0, 0, 1, 0, 1, 0, 1, 0, 1, 0, 1];
    let outcome = Scheduler::replay(&input, 2, Mode::Atomic).unwrap();
    assert_eq!(outcome, Outcome { observed: 3, expected: 3 });
}

#[test]
fn only_the_lowest_bit_of_a_byte_decides() {
    let outcome = Scheduler::replay(&[2, 4, 0, 254], 2, Mode::TwoStep).unwrap();
    assert_eq!(outcome, Outcome { observed: 0, expected: 0 });
    let outcome = Scheduler::replay(&[3, 255], 2, Mode::TwoStep).unwrap();
    assert_eq!(outcome, Outcome { observed: 2, expected: 2 });
    let outcome = Scheduler::replay(&[3, 2, 5, 7, 0, 9], 2, Mode::TwoStep).unwrap();
    assert_eq!(outcome, Outcome { observed: 1, expected: 2 });
}

#[test]
fn an_empty_input_submits_nothing() {
    let outcome = Scheduler::replay(&[], 3, Mode::TwoStep).unwrap();
    assert_eq!(outcome, Outcome { observed: 0, expected: 0 });
}

#[test]
fn a_single_worker_cannot_lose_an_update() {
    let outcome = Scheduler::replay(&[1; 11], 1, Mode::TwoStep).unwrap();
    assert_eq!(outcome, Outcome { observed: 3, expected: 3 });
}

#[test]
fn a_run_needs_a_worker() {
    assert_eq!(Scheduler::replay(&[1, 1], 0, Mode::TwoStep), None);
    let data = [1u8, 1];
    let mut oracle = Unstructured::new(&data);
    assert_eq!(Scheduler::try_run(&mut oracle, 0, Mode::Atomic), None);
    assert_eq!(oracle.len(), 2);
}

#[test]
fn a_run_uses_the_oracle_up() {
    let data = [1u8, 0, 1, 1, 0, 1, 1];
    let mut oracle = Unstructured::new(&data);
    let outcome = Scheduler::try_run(&mut oracle, 2, Mode::TwoStep).unwrap();
    assert!(oracle.is_empty());
    assert_eq!(outcome.expected, 2);
    let mut oracle = Unstructured::new(&data);
    assert_eq!(Scheduler::run(&mut oracle, 2, Mode::TwoStep), outcome);
}

#[test]
fn poking_by_hand_is_what_a_run_does() {
    let mut scheduler = Scheduler::new(2, Mode::TwoStep);
    assert_eq!(scheduler.workers(), 2);
    scheduler.poke(0);
    assert!(scheduler.is_blocked(0));
    assert!(!scheduler.is_blocked(1));
    scheduler.poke(0);
    scheduler.poke(1);
    scheduler.poke(1);
    let outcome = scheduler.wind_up();
    assert_eq!(outcome, Outcome { observed: 1, expected: 2 });
    assert!(!scheduler.is_blocked(0));
    assert!(!scheduler.is_blocked(1));
}

#[test]
fn winding_up_leaves_no_worker_parked() {
    arbtest::arbtest(|u| {
        let workers: usize = u.int_in_range(1..=5)?;
        let mut scheduler = Scheduler::new(workers, Mode::TwoStep);
        while !u.is_empty() {
            let choice: u8 = u.arbitrary()?;
            scheduler.poke(choice as usize % workers);
        }
        scheduler.wind_up();
        for worker in 0..workers {
            assert!(!scheduler.is_blocked(worker));
        }
        Ok(())
    });
}

#[test]
fn the_atomic_counter_never_diverges() {
    arbtest::arbtest(|u| {
        let workers: usize = u.int_in_range(1..=4)?;
        let outcome = Scheduler::try_run(u, workers, Mode::Atomic).unwrap();
        assert_eq!(outcome.observed, outcome.expected);
        Ok(())
    });
}

#[test]
fn the_two_step_counter_only_ever_loses_updates() {
    arbtest::arbtest(|u| {
        let workers: usize = u.int_in_range(1..=4)?;
        let outcome = Scheduler::try_run(u, workers, Mode::TwoStep).unwrap();
        assert!(outcome.observed <= outcome.expected);
        assert!(outcome.expected == 0 || outcome.observed >= 1);
        Ok(())
    });
}
