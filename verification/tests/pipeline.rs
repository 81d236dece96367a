use game_of_life::canvas::Canvas;
use game_of_life::game_of_life::GameOfLife;
use game_of_life::publisher::{HandoffOutcome, Mode, Publisher};

#[test]
fn rendezvous_runs_in_lock_step() {
    let game = GameOfLife::new(4, 4);
    let mut publisher = Publisher::new(game, Mode::Rendezvous);

    for _ in 0..5 {
        assert!(publisher.ready_to_compute());
        publisher.compute_generation();

        // At most one generation is ever in flight.
        assert!(publisher.generations_computed() <= publisher.generations_delivered() + 1);

        // The publisher may not run ahead before the handoff succeeds.
        assert!(!publisher.ready_to_compute());
        publisher.record_outcome(HandoffOutcome::Delivered);
        assert_eq!(
            publisher.generations_computed(),
            publisher.generations_delivered()
        );
    }
    assert_eq!(5, publisher.generations_computed());
    assert_eq!(5, publisher.generations_delivered());
}

#[test]
fn latest_only_never_stalls() {
    let game = GameOfLife::new(4, 4);
    let mut publisher = Publisher::new(game, Mode::LatestOnly);

    // The consumer takes nothing, yet the simulation keeps going.
    for _ in 0..3 {
        assert!(publisher.ready_to_compute());
        publisher.compute_generation();
        publisher.record_outcome(HandoffOutcome::SlotFull);
    }
    assert_eq!(3, publisher.generations_computed());
    assert_eq!(0, publisher.generations_delivered());

    assert!(publisher.ready_to_compute());
    publisher.compute_generation();
    publisher.record_outcome(HandoffOutcome::Delivered);
    assert_eq!(4, publisher.generations_computed());
    assert_eq!(1, publisher.generations_delivered());
}

#[test]
fn snapshots_follow_the_generations_in_order() {
    // A blinker has period 2: the published snapshots alternate and are
    // never reordered or repeated within a cycle.
    let mut game = GameOfLife::new(5, 5);
    for &(x, y) in &[(1usize, 2usize), (2, 2), (3, 2)] {
        game.set(x, y, true);
    }
    let vertical = vec![(2, 1), (2, 2), (2, 3)];
    let horizontal = vec![(1, 2), (2, 2), (3, 2)];

    let mut publisher = Publisher::new(game, Mode::LatestOnly);
    for round in 0..6 {
        let points = publisher.compute_generation();
        if round % 2 == 0 {
            assert_eq!(vertical, points);
        } else {
            assert_eq!(horizontal, points);
        }
        assert_eq!(round + 1, publisher.generations_computed());
        publisher.record_outcome(HandoffOutcome::SlotFull);
    }
}

#[test]
fn disconnect_stops_the_publisher_within_one_cycle() {
    let game = GameOfLife::new(4, 4);
    let mut publisher = Publisher::new(game, Mode::Rendezvous);

    assert!(publisher.should_continue());
    publisher.compute_generation();
    publisher.record_outcome(HandoffOutcome::Disconnected);

    assert!(!publisher.should_continue());
    assert!(!publisher.ready_to_compute());
    assert_eq!(1, publisher.generations_computed());
    assert_eq!(0, publisher.generations_delivered());
}

#[test]
fn publisher_owns_the_stepping() {
    let mut game = GameOfLife::new(5, 5);
    for &(x, y) in &[(1usize, 1usize), (2, 1), (1, 2)] {
        game.set(x, y, true);
    }
    let mut publisher = Publisher::new(game, Mode::Rendezvous);

    let points = publisher.compute_generation();
    assert_eq!(vec![(1, 1), (2, 1), (1, 2), (2, 2)], points);
    assert_eq!(
        vec![(1, 1), (2, 1), (1, 2), (2, 2)],
        publisher.game_ref().alive_cells()
    );
}

#[test]
fn canvas_polls_at_its_own_cadence() {
    let mut canvas = Canvas::new(8, 8);
    assert_eq!(8, canvas.height);
    assert_eq!(8, canvas.width);

    // Not due until more than the poll interval has passed.
    assert!(!canvas.poll_due(0));
    assert!(!canvas.poll_due(40));
    assert!(canvas.poll_due(41));

    // The clock was remembered: the next poll is measured from 41.
    assert!(!canvas.poll_due(81));
    assert!(canvas.poll_due(82));
}

#[test]
fn canvas_keeps_the_last_snapshot() {
    let mut canvas = Canvas::new(8, 8);
    assert!(canvas.points.is_empty());

    canvas.install(vec![(1, 1), (2, 2)]);
    assert_eq!(vec![(1, 1), (2, 2)], canvas.points);

    // No new snapshot: nothing changes until the next install.
    assert!(!canvas.poll_due(1));
    assert_eq!(vec![(1, 1), (2, 2)], canvas.points);

    canvas.install(vec![(3, 3)]);
    assert_eq!(vec![(3, 3)], canvas.points);
}
