use daedalus::patrol::{GridPoint, Patrol, PATROL_EPSILON, PATROL_SPEED};
use daedalus::vector::{Point, Velocity, COORD_LIMIT, HALF_TILE, TILE};

/// World units in one sixtieth of a pixel.
const K: i64 = 32768;

fn abc() -> Patrol {
    Patrol::new(vec![
        Point { x: 0, y: 0 },
        Point { x: 9600 * K, y: 0 },
        Point { x: 9600 * K, y: 9600 * K },
    ])
    .unwrap()
}

fn centre_of(corner: &Point) -> Point {
    Point { x: corner.x + HALF_TILE, y: corner.y + HALF_TILE }
}

#[test]
fn patrol_needs_a_waypoint() {
    assert!(Patrol::new(vec![]).is_none());
}

#[test]
fn patrol_refuses_a_waypoint_out_of_range() {
    assert!(Patrol::new(vec![Point { x: 0, y: 0 }, Point { x: COORD_LIMIT + 1, y: 0 }]).is_none());
    assert!(Patrol::new(vec![Point { x: 0, y: -COORD_LIMIT - 1 }]).is_none());
    assert!(Patrol::new(vec![Point { x: COORD_LIMIT, y: -COORD_LIMIT }]).is_some());
}

#[test]
fn patrol_starts_at_its_first_waypoint() {
    let patrol = abc();
    assert_eq!(patrol.len(), 3);
    assert_eq!(patrol.cursor(), 0);
    assert_eq!(*patrol.target(), Point { x: 0, y: 0 });
}

#[test]
fn patrol_next_walks_the_loop() {
    let mut patrol = abc();
    patrol.next();
    assert_eq!(*patrol.target(), Point { x: 9600 * K, y: 0 });
    patrol.next();
    assert_eq!(*patrol.target(), Point { x: 9600 * K, y: 9600 * K });
    patrol.next();
    assert_eq!(*patrol.target(), Point { x: 0, y: 0 });
    assert_eq!(patrol.cursor(), 0);
}

#[test]
fn patrol_cycles_a_b_c_without_end() {
    let mut patrol = abc();
    let a = Point { x: 0, y: 0 };
    let b = Point { x: 9600 * K, y: 0 };
    let c = Point { x: 9600 * K, y: 9600 * K };
    let order = [a, b, c];
    let mut position = centre_of(&a);
    for round in 0..30 {
        // the entity stands on the target: the cursor moves on
        assert_eq!(*patrol.target(), order[round % 3]);
        assert!(patrol.reached(position));
        patrol.next();
        assert_eq!(*patrol.target(), order[(round + 1) % 3]);
        // on the way the cursor stays
        assert!(!patrol.reached(position));
        position = centre_of(patrol.target());
    }
}

#[test]
fn patrol_target_is_reached_within_epsilon_on_both_axes() {
    let patrol = abc();
    let near = PATROL_EPSILON - 1;
    assert!(patrol.reached(Point { x: HALF_TILE + near, y: HALF_TILE - near }));
    assert!(patrol.reached(Point { x: HALF_TILE - near, y: HALF_TILE + near }));
    assert!(!patrol.reached(Point { x: HALF_TILE + PATROL_EPSILON, y: HALF_TILE }));
    assert!(!patrol.reached(Point { x: HALF_TILE, y: HALF_TILE - PATROL_EPSILON }));
    assert!(!patrol.reached(Point { x: 0, y: 0 }));
}

#[test]
fn patrol_heads_for_the_middle_of_the_target_cell() {
    let patrol = abc();
    assert_eq!(patrol.heading(Point { x: HALF_TILE - 100 * K, y: HALF_TILE }), Velocity { x: PATROL_SPEED, y: 0 });
    assert_eq!(patrol.heading(Point { x: HALF_TILE, y: HALF_TILE + 5000 * K }), Velocity { x: 0, y: -PATROL_SPEED });
    assert_eq!(patrol.heading(Point { x: HALF_TILE - 700 * K, y: HALF_TILE - 700 * K }), Velocity { x: 1482910, y: 1482910 });
}

#[test]
fn patrol_with_one_waypoint_rests_on_it() {
    let mut patrol = Patrol::new(vec![Point { x: 960 * K, y: 960 * K }]).unwrap();
    let aim = Point { x: 960 * K + HALF_TILE, y: 960 * K + HALF_TILE };
    assert!(patrol.reached(aim));
    patrol.next();
    assert_eq!(patrol.cursor(), 0);
    assert_eq!(*patrol.target(), Point { x: 960 * K, y: 960 * K });
    assert_eq!(patrol.heading(aim), Velocity { x: 0, y: 0 });
}

#[test]
fn patrol_from_grid_ends_with_the_start_cell() {
    let path = vec![GridPoint { x: 1, y: 2 }, GridPoint { x: 3, y: 4 }];
    let mut patrol = Patrol::from_grid(&path, GridPoint { x: 5, y: 6 }).unwrap();
    assert_eq!(patrol.len(), 3);
    assert_eq!(*patrol.target(), Point { x: TILE, y: 13 * TILE });
    patrol.next();
    assert_eq!(*patrol.target(), Point { x: 3 * TILE, y: 11 * TILE });
    patrol.next();
    assert_eq!(*patrol.target(), Point { x: 5 * TILE, y: 9 * TILE });
    patrol.next();
    assert_eq!(*patrol.target(), Point { x: TILE, y: 13 * TILE });
}

#[test]
fn patrol_from_grid_without_a_path_is_the_start_cell() {
    let patrol = Patrol::from_grid(&vec![], GridPoint { x: 0, y: 15 }).unwrap();
    assert_eq!(patrol.len(), 1);
    assert_eq!(*patrol.target(), Point { x: 0, y: 0 });
}

#[test]
fn patrol_from_grid_gives_exact_corners() {
    let patrol = Patrol::from_grid(&vec![GridPoint { x: 2, y: 10 }], GridPoint { x: -3, y: 20 }).unwrap();
    assert_eq!(patrol.waypoints(), &vec![Point { x: 62914560, y: 157286400 }, Point { x: -94371840, y: -157286400 }]);
}

#[test]
fn patrol_from_grid_takes_the_cells_within_range() {
    // 34952 tiles reach to the edge of the range of coordinates
    let far: i32 = (COORD_LIMIT / TILE) as i32;
    assert_eq!(far, 34952);
    let path = vec![GridPoint { x: far, y: 15 - far }, GridPoint { x: -far, y: 15 + far }];
    let mut patrol = Patrol::from_grid(&path, GridPoint { x: 0, y: 0 }).unwrap();
    assert_eq!(*patrol.target(), Point { x: far as i64 * TILE, y: far as i64 * TILE });
    patrol.next();
    assert_eq!(*patrol.target(), Point { x: -(far as i64) * TILE, y: -(far as i64) * TILE });
}

#[test]
fn patrol_from_grid_refuses_a_cell_out_of_range() {
    let far: i32 = (COORD_LIMIT / TILE) as i32;
    assert!(Patrol::from_grid(&vec![GridPoint { x: far + 1, y: 0 }], GridPoint { x: 0, y: 0 }).is_none());
    assert!(Patrol::from_grid(&vec![GridPoint { x: 0, y: 15 + far + 1 }], GridPoint { x: 0, y: 0 }).is_none());
    assert!(Patrol::from_grid(&vec![], GridPoint { x: -far - 1, y: 0 }).is_none());
    assert!(Patrol::from_grid(&vec![GridPoint { x: i32::MAX, y: i32::MIN }], GridPoint { x: 0, y: 0 }).is_none());
    assert!(Patrol::from_grid(&vec![GridPoint { x: 0, y: 0 }], GridPoint { x: i32::MIN, y: i32::MAX }).is_none());
}

#[test]
fn patrol_waypoints_stay_in_order_while_the_cursor_moves() {
    let mut patrol = abc();
    let before = patrol.waypoints().clone();
    patrol.next();
    patrol.next();
    assert_eq!(patrol.waypoints(), &before);
    assert_eq!(before.len(), 3);
}

#[test]
fn patrol_speed_is_sixty_four_pixels_a_second() {
    assert_eq!(PATROL_SPEED, 64 * K);
    assert_eq!(PATROL_EPSILON, 60 * K);
    let patrol = abc();
    // 700 units off on both axes: the speed is 64 to within a hundredth of a unit squared
    let v = patrol.heading(Point { x: HALF_TILE - 700 * K, y: HALF_TILE - 700 * K });
    let squared = (v.x * v.x + v.y * v.y) as f64 / (K * K) as f64;
    assert!(squared <= 4096.0 && squared > 4095.99);
    let w = patrol.heading(Point { x: HALF_TILE - 1234 * K - 5, y: HALF_TILE + 777 * K + 3 });
    let squared = (w.x * w.x + w.y * w.y) as f64 / (K * K) as f64;
    assert!(squared <= 4096.0 && squared > 4095.99);
    assert!(w.x > 0 && w.y < 0);
}

#[test]
fn patrol_clone_keeps_waypoints_and_cursor() {
    let mut patrol = abc();
    patrol.next();
    let copy = patrol.clone();
    assert_eq!(copy.len(), 3);
    assert_eq!(copy.cursor(), 1);
    assert_eq!(*copy.target(), *patrol.target());
    patrol.next();
    assert_eq!(copy.cursor(), 1);
}
