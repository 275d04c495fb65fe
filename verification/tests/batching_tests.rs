use image_hosting_worker::batching::{distribute_results, Coordinator};
use image_hosting_worker::errors::ErrorKind;

#[test]
fn single_item_fires_on_timer_not_on_size() {
    let mut c: Coordinator<u32> = Coordinator::new(4, 100);
    assert!(c.push(10, false, 5).is_none());
    assert_eq!(c.deadline_ms, Some(105));
    assert!(c.tick(50).is_none());
    assert!(c.tick(104).is_none());
    let batch = c.tick(105).expect("deadline reached");
    assert_eq!(batch, vec![10]);
    assert_eq!(c.deadline_ms, None);
}

#[test]
fn full_batch_fires_on_size_not_on_timer() {
    let mut c: Coordinator<u32> = Coordinator::new(3, 100);
    assert!(c.push(1, false, 0).is_none());
    assert!(c.push(2, false, 1).is_none());
    let batch = c.push(3, false, 2).expect("size reached");
    assert_eq!(batch, vec![1, 2, 3]);
    // Nothing is pending, so a later tick fires nothing.
    assert!(c.tick(1000).is_none());
}

#[test]
fn batch_never_exceeds_batch_size() {
    let mut c: Coordinator<u32> = Coordinator::new(16, 100);
    let mut flushed: Vec<Vec<u32>> = Vec::new();
    for i in 0..40u32 {
        if let Some(batch) = c.push(i, false, i as u64) {
            flushed.push(batch);
        }
    }
    if let Some(batch) = c.drain() {
        flushed.push(batch);
    }
    let mut seen: Vec<u32> = Vec::new();
    for batch in &flushed {
        assert!(!batch.is_empty() && batch.len() <= 16);
        seen.extend(batch.iter().copied());
    }
    // No submission is lost and arrival order is kept.
    assert_eq!(seen, (0..40).collect::<Vec<u32>>());
}

#[test]
fn priority_flushes_immediately() {
    let mut c: Coordinator<u32> = Coordinator::new(8, 100);
    assert!(c.push(1, false, 0).is_none());
    let batch = c.push(2, true, 1).expect("priority flush");
    assert_eq!(batch, vec![1, 2]);
}

#[test]
fn timer_is_armed_by_first_item_only() {
    let mut c: Coordinator<u32> = Coordinator::new(4, 100);
    assert!(c.push(1, false, 10).is_none());
    assert!(c.push(2, false, 90).is_none());
    // The deadline still counts from the first item's arrival.
    assert_eq!(c.deadline_ms, Some(110));
    let batch = c.tick(110).expect("first item's deadline");
    assert_eq!(batch, vec![1, 2]);
}

#[test]
fn batching_under_load() {
    // Sixteen arrivals at batch size sixteen: the batch fires on the
    // sixteenth arrival, not on a timer; a seventeenth arriving alone
    // fires on the timer about max_delay later.
    let mut c: Coordinator<u32> = Coordinator::new(16, 100);
    let mut sized: Option<Vec<u32>> = None;
    for i in 0..16u32 {
        let got = c.push(i, false, 3);
        if i < 15 {
            assert!(got.is_none());
        } else {
            sized = got;
        }
    }
    assert_eq!(sized.expect("fires on the sixteenth").len(), 16);
    assert!(c.push(16, false, 7).is_none());
    assert!(c.tick(106).is_none());
    let late = c.tick(107).expect("time-triggered");
    assert_eq!(late, vec![16]);
}

#[test]
fn drain_flushes_pending_on_shutdown() {
    let mut c: Coordinator<u32> = Coordinator::new(8, 100);
    assert!(c.push(5, false, 0).is_none());
    assert!(c.push(6, false, 1).is_none());
    assert_eq!(c.drain().expect("pending items"), vec![5, 6]);
    assert!(c.drain().is_none());
}

#[test]
fn results_align_with_submitters() {
    let r = distribute_results(3, Ok(vec!["a", "b", "c"]));
    assert_eq!(r, vec![Ok("a"), Ok("b"), Ok("c")]);
}

#[test]
fn failed_batch_reaches_every_submitter() {
    let r: Vec<Result<u32, ErrorKind>> = distribute_results(3, Err(ErrorKind::IndexError));
    assert_eq!(
        r,
        vec![
            Err(ErrorKind::BatchFailed),
            Err(ErrorKind::BatchFailed),
            Err(ErrorKind::BatchFailed)
        ]
    );
}

#[test]
fn miscounted_outputs_fail_the_whole_batch() {
    let r: Vec<Result<u32, ErrorKind>> = distribute_results(3, Ok(vec![1, 2]));
    assert_eq!(r.len(), 3);
    for out in r {
        assert_eq!(out, Err(ErrorKind::BatchFailed));
    }
}
