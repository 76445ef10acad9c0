use altius::pool::{PoolError, PoolState};

#[test]
fn zero_workers_is_an_error() {
    assert!(matches!(PoolState::new(0), Err(PoolError::ZeroSize)));
}

#[test]
fn jobs_run_once_on_at_most_size_workers() {
    let mut p = PoolState::new(2).unwrap();
    assert_eq!(p.size(), 2);
    let ids: Vec<u64> = (0..5).map(|_| p.submit()).collect();
    assert_eq!(ids, vec![0, 1, 2, 3, 4]);
    let mut ran = Vec::new();
    loop {
        for w in 0..2 {
            let _ = p.dispatch(w);
        }
        assert!(p.busy_count() <= 2);
        if p.busy_count() == 0 {
            break;
        }
        for w in 0..2 {
            if p.busy_count() > 0 {
                ran.push(p.complete(w));
            }
        }
    }
    assert_eq!(ran, vec![0, 1, 2, 3, 4]);
}

#[test]
fn idle_worker_gets_nothing_from_empty_queue() {
    let mut p = PoolState::new(3).unwrap();
    assert_eq!(p.dispatch(1), None);
    let id = p.submit();
    assert_eq!(p.dispatch(1), Some(id));
    assert_eq!(p.busy_count(), 1);
    assert_eq!(p.complete(1), id);
    assert_eq!(p.busy_count(), 0);
}

#[test]
fn drain_finishes_every_outstanding_job_once() {
    let mut p = PoolState::new(2).unwrap();
    for _ in 0..5 {
        p.submit();
    }
    assert_eq!(p.dispatch(1), Some(0));
    let order = p.drain();
    let mut sorted = order.clone();
    sorted.sort();
    assert_eq!(sorted, vec![0, 1, 2, 3, 4]);
    assert_eq!(order.len(), 5);
    assert_eq!(p.busy_count(), 0);
    assert_eq!(p.dispatch(0), None);
    assert_eq!(p.drain(), Vec::<u64>::new());
}
