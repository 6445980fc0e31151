use tile_downloader::batch::{Batch, ConfigError, DownloadOutcome, Step};
use tile_downloader::tile::TileIndex;

fn ok(tile: TileIndex) -> DownloadOutcome {
    DownloadOutcome::Success { tile }
}

fn fail(tile: TileIndex) -> DownloadOutcome {
    DownloadOutcome::Failure { tile, cause: String::from("503 Service Unavailable") }
}

#[test]
fn configuration_errors() {
    assert_eq!(Batch::new(3, 5, 0).err(), Some(ConfigError::ZeroParallelism));
    assert_eq!(Batch::new(6, 5, 4).err(), Some(ConfigError::ZoomRangeReversed));
    assert_eq!(Batch::new(30, 32, 4).err(), Some(ConfigError::ZoomTooDeep));
    assert!(Batch::new(31, 31, 1).is_ok());
    assert!(Batch::new(0, 0, 4).is_ok());
}

#[test]
fn one_tile_at_zoom_five() {
    let mut b = Batch::new(5, 5, 4).unwrap();
    assert_eq!(b.next_step(), Step::Enter { zoom: 5 });
    let t = TileIndex { zoom: 5, x: 15, y: 10 };
    b.enter_level(t, t);
    assert_eq!(b.next_step(), Step::Fetch { tile: t });
    assert_eq!(b.next_step(), Step::Wait);
    assert_eq!(b.in_flight(), 1);
    b.finish_tile(&ok(t));
    assert_eq!(b.next_step(), Step::Finished);
    assert_eq!(b.next_step(), Step::Finished);
    assert_eq!(b.failed(), 0);
}

#[test]
fn one_failure_in_two_by_two_does_not_stop_the_run() {
    let mut b = Batch::new(3, 4, 4).unwrap();
    assert_eq!(b.next_step(), Step::Enter { zoom: 3 });
    b.enter_level(TileIndex { zoom: 3, x: 2, y: 5 }, TileIndex { zoom: 3, x: 3, y: 4 });
    let mut fetched = Vec::new();
    loop {
        match b.next_step() {
            Step::Fetch { tile } => fetched.push(tile),
            _ => break,
        }
    }
    assert_eq!(fetched.len(), 4);
    assert_eq!(b.in_flight(), 4);
    let mut stored = 0;
    for t in &fetched {
        if t.x == 3 && t.y == 4 {
            b.finish_tile(&fail(*t));
        } else {
            b.finish_tile(&ok(*t));
            stored += 1;
        }
    }
    assert_eq!(stored, 3);
    assert_eq!(b.failed(), 1);
    assert_eq!(b.completed(), 4);
    assert_eq!(b.next_step(), Step::Enter { zoom: 4 });
    assert_eq!(b.zoom(), 4);
    assert_eq!(b.failed(), 0);
}

#[test]
fn parallelism_caps_tiles_in_flight() {
    let mut b = Batch::new(2, 2, 2).unwrap();
    b.next_step();
    b.enter_level(TileIndex { zoom: 2, x: 0, y: 0 }, TileIndex { zoom: 2, x: 1, y: 2 });
    let mut seen = Vec::new();
    let mut in_flight = Vec::new();
    let mut peak = 0;
    loop {
        match b.next_step() {
            Step::Fetch { tile } => {
                in_flight.push(tile);
                peak = peak.max(b.in_flight());
            }
            Step::Wait => {
                assert!(!in_flight.is_empty());
                let t = in_flight.remove(0);
                b.finish_tile(&ok(t));
                seen.push(t);
            }
            Step::Finished => break,
            Step::Enter { .. } => panic!("level left early"),
        }
    }
    assert_eq!(peak, 2);
    assert!(in_flight.is_empty());
    let mut xy: Vec<(u32, u32)> = seen.iter().map(|t| (t.x, t.y)).collect();
    xy.sort();
    assert_eq!(xy, vec![(0, 0), (0, 1), (0, 2), (1, 0), (1, 1), (1, 2)]);
}

#[test]
fn next_level_waits_for_stragglers() {
    let mut b = Batch::new(0, 1, 8).unwrap();
    assert_eq!(b.next_step(), Step::Enter { zoom: 0 });
    let root = TileIndex { zoom: 0, x: 0, y: 0 };
    b.enter_level(root, root);
    assert_eq!(b.next_step(), Step::Fetch { tile: root });
    assert_eq!(b.next_step(), Step::Wait);
    assert_eq!(b.zoom(), 0);
    b.finish_tile(&fail(root));
    assert_eq!(b.next_step(), Step::Enter { zoom: 1 });
    b.enter_level(TileIndex { zoom: 1, x: 1, y: 0 }, TileIndex { zoom: 1, x: 0, y: 1 });
    let mut n = 0;
    while let Step::Fetch { tile } = b.next_step() {
        b.finish_tile(&ok(tile));
        n += 1;
    }
    assert_eq!(n, 4);
    assert_eq!(b.next_step(), Step::Finished);
}

#[test]
fn outcome_accessors() {
    let t = TileIndex { zoom: 1, x: 1, y: 1 };
    assert!(ok(t).is_success());
    assert!(!fail(t).is_success());
    assert_eq!(fail(t).tile(), t);
}
