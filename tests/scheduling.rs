use black_hole::color::Color;
use black_hole::schedule::{grid_position, Action, Pool, Slot};

fn gray(v: u8) -> Color {
    Color { r: v, g: v, b: v }
}

#[test]
fn pool_dispatches_in_order_with_capped_allotments() {
    let mut p = Pool::new(3, 5, 4);
    assert_eq!(p.next_action(), Action::Dispatch { job: 0, allot: 4 });
    assert_eq!(p.dispatch(), (0, 4));
    assert_eq!(p.next_action(), Action::Dispatch { job: 1, allot: 1 });
    assert_eq!(p.dispatch(), (1, 1));
    assert_eq!(p.available, 0);
    assert_eq!(p.next_action(), Action::Await);
    p.complete(0, gray(10));
    assert_eq!(p.available, 4);
    assert_eq!(p.next_action(), Action::Dispatch { job: 2, allot: 4 });
    p.dispatch();
    assert_eq!(p.next_action(), Action::Await);
    p.complete(2, gray(30));
    p.complete(1, gray(20));
    assert_eq!(p.available, 5);
    assert_eq!(p.next_action(), Action::Done);
    assert_eq!(p.results, vec![gray(10), gray(20), gray(30)]);
    assert_eq!(p.slots, vec![Slot::Finished; 3]);
}

#[test]
fn pool_drains_before_done() {
    let mut p = Pool::new(1, 2, 1);
    p.dispatch();
    assert_eq!(p.next_action(), Action::Await);
    assert_eq!(p.running, 1);
    p.complete(0, gray(1));
    assert_eq!(p.next_action(), Action::Done);
}

#[test]
fn pool_with_no_jobs_is_done() {
    let p = Pool::new(0, 4, 4);
    assert_eq!(p.next_action(), Action::Done);
}

#[test]
fn budget_never_exceeds_total() {
    let mut p = Pool::new(10, 3, 2);
    let mut running: Vec<usize> = Vec::new();
    loop {
        assert!(p.available <= p.total);
        match p.next_action() {
            Action::Dispatch { .. } => {
                let (job, _) = p.dispatch();
                running.push(job);
            }
            Action::Await => {
                let job = running.remove(0);
                p.complete(job, gray(job as u8));
            }
            Action::Done => break,
        }
    }
    assert_eq!(p.available, 3);
    assert_eq!(p.results[7], gray(7));
}

#[test]
fn grid_positions_are_row_major() {
    assert_eq!(grid_position(0, 4), (0, 0));
    assert_eq!(grid_position(3, 4), (3, 0));
    assert_eq!(grid_position(4, 4), (0, 1));
    assert_eq!(grid_position(11, 4), (3, 2));
}
