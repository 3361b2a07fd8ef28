use sub_finder::error::SubError;
use sub_finder::pool::{Claim, WorkQueue, WorkerPool, WorkerState, THREAD_COUNT};
use sub_finder::show::Show;

fn show(name: &str) -> Show {
    Show::new(format!("dir/{}", name), name.to_string(), 100000).unwrap()
}

fn shows(count: usize) -> Vec<Show> {
    (0..count).map(|i| show(&format!("m{}.avi", i))).collect()
}

#[test]
fn queue_hands_out_the_last_file_first() {
    let mut queue = WorkQueue::new(shows(3));
    assert_eq!(queue.len(), 3);
    assert!(!queue.is_empty());
    assert_eq!(queue.claim_next().unwrap().file_name(), "m2.avi");
    assert_eq!(queue.claim_next().unwrap().file_name(), "m1.avi");
    assert_eq!(queue.len(), 1);
    assert_eq!(queue.claim_next().unwrap().file_name(), "m0.avi");
    assert!(queue.is_empty());
    assert!(queue.claim_next().is_none());
    assert!(queue.claim_next().is_none());
    assert_eq!(queue.len(), 0);
}

#[test]
fn pool_without_files_only_stops_its_workers() {
    let mut pool = WorkerPool::new(Vec::new(), 4);
    assert_eq!(pool.total(), 0);
    assert_eq!(pool.worker_count(), 4);
    assert!(!pool.finished());
    for w in 0..4 {
        assert!(matches!(pool.claim(w), Claim::Finished));
    }
    assert!(pool.finished());
}

#[test]
fn claim_gives_the_file_and_its_number() {
    let mut pool = WorkerPool::new(shows(2), 2);
    match pool.claim(0) {
        Claim::Work(id, show) => {
            assert_eq!(id, 1);
            assert_eq!(show.file_name(), "m1.avi");
        }
        other => panic!("{:?}", other),
    }
    match pool.claim(1) {
        Claim::Work(id, show) => {
            assert_eq!(id, 0);
            assert_eq!(show.file_name(), "m0.avi");
        }
        other => panic!("{:?}", other),
    }
}

#[test]
fn busy_and_unknown_workers_are_refused() {
    let mut pool = WorkerPool::new(shows(2), 1);
    assert!(matches!(pool.claim(1), Claim::Refused));
    assert!(matches!(pool.claim(0), Claim::Work(1, _)));
    assert!(matches!(pool.claim(0), Claim::Refused));
    assert!(pool.outcome_of(1).is_none());
    assert!(pool.report(0, Ok(())));
    assert!(matches!(pool.claim(0), Claim::Work(0, _)));
}

#[test]
fn report_of_an_idle_worker_is_dropped() {
    let mut pool = WorkerPool::new(shows(1), 2);
    assert!(!pool.report(0, Ok(())));
    assert!(!pool.report(7, Ok(())));
    assert!(pool.outcome_of(0).is_none());
    assert!(matches!(pool.claim(0), Claim::Work(0, _)));
    assert!(!pool.report(1, Err(SubError::ZipEmpty)));
    assert!(pool.outcome_of(0).is_none());
    assert!(pool.report(0, Err(SubError::ZipEmpty)));
    assert!(!pool.report(0, Ok(())));
    assert_eq!(pool.outcome_of(0), &Some(Err(SubError::ZipEmpty)));
}

#[test]
fn stopped_worker_is_told_so_again() {
    let mut pool = WorkerPool::new(Vec::new(), 1);
    assert!(matches!(pool.claim(0), Claim::Finished));
    assert!(matches!(pool.claim(0), Claim::Finished));
    assert!(pool.finished());
}

#[test]
fn outcome_of_an_unknown_file_is_none() {
    let pool = WorkerPool::new(shows(1), 1);
    assert!(pool.outcome_of(0).is_none());
    assert!(pool.outcome_of(1).is_none());
    assert!(pool.outcome_of(usize::MAX).is_none());
}

fn run(files: usize, workers: usize) -> (WorkerPool, Vec<usize>, usize) {
    let mut pool = WorkerPool::new(shows(files), workers);
    let mut held: Vec<Option<usize>> = vec![None; workers];
    let mut stopped: Vec<bool> = vec![false; workers];
    let mut claimed: Vec<usize> = Vec::new();
    let mut steps = 0;
    let mut turn = 0;
    while !pool.finished() {
        let w = (turn * 7 + 3) % workers;
        turn += 1;
        if stopped[w] {
            continue;
        }
        if let Some(id) = held[w].take() {
            let outcome = if id % 2 == 0 { Ok(()) } else { Err(SubError::SvrNoSubtitlesFound) };
            assert!(pool.report(w, outcome));
            steps += 1;
        } else {
            match pool.claim(w) {
                Claim::Work(id, show) => {
                    assert_eq!(show.file_name(), &format!("m{}.avi", id));
                    held[w] = Some(id);
                    claimed.push(id);
                    steps += 1;
                }
                Claim::Finished => {
                    stopped[w] = true;
                    steps += 1;
                }
                Claim::Refused => panic!("refused"),
            }
        }
        assert!(turn < 10_000);
    }
    (pool, claimed, steps)
}

#[test]
fn every_file_is_handed_out_once_and_has_one_outcome() {
    for (files, workers) in [(1, 1), (5, 1), (5, 4), (3, 8), (17, 4), (0, 3)] {
        let (pool, mut claimed, _) = run(files, workers);
        claimed.sort();
        assert_eq!(claimed, (0..files).collect::<Vec<usize>>());
        for id in 0..files {
            let expected = if id % 2 == 0 { Ok(()) } else { Err(SubError::SvrNoSubtitlesFound) };
            assert_eq!(pool.outcome_of(id), &Some(expected));
        }
    }
}

#[test]
fn pool_ends_after_two_steps_a_file_and_one_a_worker() {
    for (files, workers) in [(1, 1), (5, 4), (3, 8), (17, 4), (0, 3)] {
        let (pool, _, steps) = run(files, workers);
        assert!(pool.finished());
        assert_eq!(steps, 2 * files + workers);
    }
}

#[test]
fn worker_states_compare() {
    assert_eq!(WorkerState::Busy(3), WorkerState::Busy(3));
    assert_ne!(WorkerState::Busy(3), WorkerState::Busy(4));
    assert_ne!(WorkerState::Idle, WorkerState::Done);
}

#[test]
fn four_workers_share_the_queue() {
    assert_eq!(THREAD_COUNT, 4);
    let (pool, mut claimed, steps) = run(9, THREAD_COUNT);
    claimed.sort();
    assert_eq!(claimed, (0..9).collect::<Vec<usize>>());
    assert_eq!(steps, 22);
    assert!(pool.finished());
}
