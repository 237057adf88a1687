use daedalus::collision::Wall;
use daedalus::input::{PlayerInputs, INPUT_DOWN, INPUT_LEFT, INPUT_RIGHT, INPUT_UP};
use daedalus::patrol::Patrol;
use daedalus::systems::{
    apply_input, apply_velocity, play, step, undo_collisions, update_patrol_target,
    update_patrol_velocity, PLAYER_SPEED,
};
use daedalus::vector::{Point, Velocity, COORD_LIMIT, HALF_TILE};
use daedalus::world::{Knight, PlayerState, World};

/// World units in one sixtieth of a pixel.
const K: i64 = 32768;

fn player(handle: usize, x: i64, y: i64) -> PlayerState {
    PlayerState { handle, position: Point { x, y }, velocity: Velocity { x: 0, y: 0 } }
}

fn knight_at(x: i64, y: i64, waypoints: Vec<Point>) -> Knight {
    Knight {
        position: Point { x, y },
        velocity: Velocity { x: 0, y: 0 },
        patrol: Patrol::new(waypoints).unwrap(),
    }
}

fn arena() -> World {
    World::new(
        vec![player(0, 0, 0), player(1, 6000 * K, 0)],
        vec![knight_at(480 * K, 5480 * K, vec![Point { x: 0, y: 5000 * K }, Point { x: 3000 * K, y: 5000 * K }])],
        vec![Wall { x: 1200 * K, y: -480 * K }, Wall { x: 1200 * K, y: 480 * K }],
    )
    .unwrap()
}

fn positions(world: &World) -> Vec<Point> {
    let mut all: Vec<Point> = world.players().iter().map(|p| p.position).collect();
    all.extend(world.knights().iter().map(|k| k.position));
    all
}

#[test]
fn apply_input_steers_each_player_by_its_own_mask() {
    let mut world = arena();
    apply_input(&mut world, PlayerInputs { first: INPUT_RIGHT, second: INPUT_UP | INPUT_LEFT });
    assert_eq!(world.players()[0].velocity, Velocity { x: PLAYER_SPEED, y: 0 });
    assert_eq!(PLAYER_SPEED, 64 * K);
    assert_eq!(world.players()[1].velocity, Velocity { x: -1482910, y: 1482910 });
    assert_eq!(world.players()[0].position, Point { x: 0, y: 0 });
    assert_eq!(world.players()[1].position, Point { x: 6000 * K, y: 0 });
}

#[test]
fn apply_input_without_keys_stops_the_player() {
    let mut world = arena();
    apply_input(&mut world, PlayerInputs { first: INPUT_DOWN, second: INPUT_DOWN });
    apply_input(&mut world, PlayerInputs { first: 0, second: INPUT_LEFT | INPUT_RIGHT });
    assert_eq!(world.players()[0].velocity, Velocity { x: 0, y: 0 });
    assert_eq!(world.players()[1].velocity, Velocity { x: 0, y: 0 });
}

#[test]
fn apply_input_leaves_the_knights_alone() {
    let mut world = arena();
    apply_input(&mut world, PlayerInputs { first: INPUT_RIGHT, second: INPUT_RIGHT });
    assert_eq!(world.knights()[0].velocity, Velocity { x: 0, y: 0 });
    assert_eq!(world.knights()[0].patrol.cursor(), 0);
}

#[test]
fn apply_velocity_moves_by_one_tick() {
    let mut world = World::new(
        vec![
            PlayerState { handle: 0, position: Point { x: 10 * K, y: 20 * K }, velocity: Velocity { x: 64 * K, y: -45 * K } },
            PlayerState { handle: 1, position: Point { x: 0, y: 0 }, velocity: Velocity { x: 0, y: 0 } },
        ],
        vec![Knight {
            position: Point { x: 100 * K, y: 100 * K },
            velocity: Velocity { x: -7 * K, y: 9 * K },
            patrol: Patrol::new(vec![Point { x: 0, y: 0 }]).unwrap(),
        }],
        vec![],
    )
    .unwrap();
    apply_velocity(&mut world);
    assert_eq!(world.players()[0].position, Point { x: 74 * K, y: -25 * K });
    assert_eq!(world.players()[1].position, Point { x: 0, y: 0 });
    assert_eq!(world.knights()[0].position, Point { x: 93 * K, y: 109 * K });
    apply_velocity(&mut world);
    assert_eq!(world.players()[0].position, Point { x: 138 * K, y: -70 * K });
}

#[test]
fn apply_velocity_stops_at_the_edge_of_the_world() {
    let mut world = World::new(
        vec![
            PlayerState { handle: 0, position: Point { x: COORD_LIMIT - 10 * K, y: -COORD_LIMIT + 10 * K }, velocity: Velocity { x: 64 * K, y: -64 * K } },
            PlayerState { handle: 1, position: Point { x: 0, y: 0 }, velocity: Velocity { x: i64::MAX, y: i64::MIN } },
        ],
        vec![],
        vec![],
    )
    .unwrap();
    apply_velocity(&mut world);
    assert_eq!(world.players()[0].position, Point { x: COORD_LIMIT, y: -COORD_LIMIT });
    assert_eq!(world.players()[1].position, Point { x: COORD_LIMIT, y: -COORD_LIMIT });
}

#[test]
fn undo_collisions_pushes_players_and_knights_out_of_walls() {
    let mut world = World::new(
        vec![player(0, 1400 * K, 480 * K), player(1, 5000 * K, 5000 * K)],
        vec![knight_at(480 * K, -400 * K, vec![Point { x: 0, y: 0 }])],
        vec![Wall { x: 0, y: 0 }],
    )
    .unwrap();
    undo_collisions(&mut world);
    assert_eq!(world.players()[0].position, Point { x: 1440 * K, y: 480 * K });
    assert_eq!(world.players()[1].position, Point { x: 5000 * K, y: 5000 * K });
    assert_eq!(world.knights()[0].position, Point { x: 480 * K, y: -480 * K });
}

#[test]
fn update_patrol_target_moves_on_only_when_the_target_is_reached() {
    let waypoints = vec![Point { x: 0, y: 0 }, Point { x: 3000 * K, y: 0 }, Point { x: 3000 * K, y: 3000 * K }];
    let mut world = World::new(
        vec![player(0, 0, 0), player(1, 0, 0)],
        vec![
            knight_at(HALF_TILE + 60 * K - 1, HALF_TILE - 60 * K + 1, waypoints.clone()),
            knight_at(HALF_TILE + 60 * K, HALF_TILE, waypoints.clone()),
            knight_at(0, 0, waypoints),
        ],
        vec![],
    )
    .unwrap();
    update_patrol_target(&mut world);
    assert_eq!(world.knights()[0].patrol.cursor(), 1);
    assert_eq!(world.knights()[1].patrol.cursor(), 0);
    assert_eq!(world.knights()[2].patrol.cursor(), 0);
    update_patrol_target(&mut world);
    assert_eq!(world.knights()[0].patrol.cursor(), 1);
}

#[test]
fn update_patrol_velocity_turns_towards_the_target() {
    let mut world = World::new(
        vec![player(0, 0, 0), player(1, 0, 0)],
        vec![
            knight_at(HALF_TILE - 2000 * K, HALF_TILE, vec![Point { x: 0, y: 0 }]),
            knight_at(HALF_TILE, HALF_TILE, vec![Point { x: 0, y: 0 }]),
            knight_at(HALF_TILE + 300 * K, HALF_TILE + 400 * K, vec![Point { x: 0, y: 0 }]),
        ],
        vec![],
    )
    .unwrap();
    update_patrol_velocity(&mut world);
    assert_eq!(world.knights()[0].velocity, Velocity { x: 64 * K, y: 0 });
    assert_eq!(world.knights()[1].velocity, Velocity { x: 0, y: 0 });
    assert_eq!(world.knights()[2].velocity, Velocity { x: -1258291, y: -1677721 });
}

#[test]
fn step_steers_moves_and_collides() {
    let mut world = arena();
    // player 0 runs right into the wall at x 1200 .. 2160, whose left face is at 1200
    let right = PlayerInputs { first: INPUT_RIGHT, second: 0 };
    for tick in 1..=11 {
        step(&mut world, right);
        assert_eq!(world.players()[0].position, Point { x: 64 * tick * K, y: 0 });
    }
    // 12 * 64 = 768 would reach 48 units into the wall: flush at 1200 - 480
    step(&mut world, right);
    assert_eq!(world.players()[0].position, Point { x: 720 * K, y: 0 });
    step(&mut world, right);
    assert_eq!(world.players()[0].position, Point { x: 720 * K, y: 0 });
    assert_eq!(world.players()[0].velocity, Velocity { x: 64 * K, y: 0 });
    assert_eq!(world.players()[1].position, Point { x: 6000 * K, y: 0 });
}

#[test]
fn step_walks_a_knight_along_its_patrol() {
    let mut world = arena();
    // the knight stands on its first target: the cursor moves on at once
    step(&mut world, PlayerInputs { first: 0, second: 0 });
    assert_eq!(world.knights()[0].patrol.cursor(), 1);
    assert_eq!(world.knights()[0].velocity, Velocity { x: 64 * K, y: 0 });
    assert_eq!(world.knights()[0].position, Point { x: 544 * K, y: 5480 * K });
    for _ in 0..45 {
        step(&mut world, PlayerInputs { first: 0, second: 0 });
    }
    // 46 ticks of 64 units: 2944 of the 3000 to go, not yet seen to be in reach
    assert_eq!(world.knights()[0].position, Point { x: 480 * K + 46 * 64 * K, y: 5480 * K });
    assert_eq!(world.knights()[0].patrol.cursor(), 1);
    // the next tick finds the knight within reach of its target and turns it round
    step(&mut world, PlayerInputs { first: 0, second: 0 });
    assert_eq!(world.knights()[0].patrol.cursor(), 0);
    assert_eq!(world.knights()[0].velocity, Velocity { x: -64 * K, y: 0 });
    assert_eq!(world.knights()[0].position, Point { x: 480 * K + 45 * 64 * K, y: 5480 * K });
}

#[test]
fn step_is_deterministic() {
    let script: Vec<PlayerInputs> = (0..200u32)
        .map(|f| PlayerInputs { first: (f % 16) as u8, second: ((f / 3) % 16) as u8 })
        .collect();
    let mut once = arena();
    let mut twice = arena();
    for inputs in &script {
        step(&mut once, *inputs);
    }
    for inputs in &script {
        step(&mut twice, *inputs);
    }
    assert_eq!(once.players(), twice.players());
    assert_eq!(positions(&once), positions(&twice));
    assert_eq!(once.knights()[0].patrol.cursor(), twice.knights()[0].patrol.cursor());
    assert_eq!(once.knights()[0].velocity, twice.knights()[0].velocity);
}

#[test]
fn play_is_one_step_for_each_input() {
    let script: Vec<PlayerInputs> = (0..120u32)
        .map(|f| PlayerInputs { first: ((f / 7) % 16) as u8, second: ((f / 5) % 16) as u8 })
        .collect();
    let mut stepped = arena();
    for inputs in &script {
        step(&mut stepped, *inputs);
    }
    let mut played = arena();
    play(&mut played, &script);
    assert_eq!(stepped.players(), played.players());
    assert_eq!(positions(&stepped), positions(&played));
}

#[test]
fn play_of_nothing_changes_nothing() {
    let mut world = arena();
    play(&mut world, &vec![]);
    assert_eq!(world.players(), arena().players());
    assert_eq!(positions(&world), positions(&arena()));
}
