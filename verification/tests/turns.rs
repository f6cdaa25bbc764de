use rltk::{Point, VirtualKeyCode};
use roguelike::component::{CombatStats, Monster, Name, Position, SufferDamage, ViewShed, WantsToMelee};
use roguelike::map::GameMap;
use roguelike::monster_ai_system::{is_adjacent, MonsterAI, Plan};
use roguelike::player::{player_input, try_move_player};
use roguelike::rect::Rect;
use roguelike::state::{RunState, State};
use specs::{Builder, Entity, Join, World, WorldExt};

/// A grid of 20 by 20 with one big room, and a game on it whose player
/// stands at (5, 5).
fn game() -> State {
    let mut map = GameMap::walled(20, 20);
    map.place_room(Rect::new(0, 0, 10, 10), true);
    State::new(map, "Hero".to_string())
}

fn place_of(ecs: &World, e: Entity) -> (i32, i32) {
    let p = *ecs.read_storage::<Position>().get(e).unwrap();
    (p.x, p.y)
}

fn hp_of(ecs: &World, e: Entity) -> i32 {
    ecs.read_storage::<CombatStats>().get(e).unwrap().hp
}

fn wish_of(ecs: &World, e: Entity) -> Option<Entity> {
    ecs.read_storage::<WantsToMelee>().get(e).map(|w| w.target)
}

/// Runs ticks, answering every request for a route with `route`, until the
/// game asks for nothing more.
fn tick_with(gs: &mut State, key: Option<VirtualKeyCode>, route: &dyn Fn(&State, usize, usize) -> Vec<usize>) -> usize {
    let mut asked = 0;
    let mut request = gs.tick(key);
    while let Some(r) = request {
        asked += 1;
        let steps = route(gs, r.start, r.goal);
        request = gs.supply_route(!steps.is_empty(), &steps);
    }
    asked
}

fn no_route(_: &State, _: usize, _: usize) -> Vec<usize> {
    Vec::new()
}

/// A route that goes straight along the row and then along the column.
fn elbow(gs: &State, start: usize, goal: usize) -> Vec<usize> {
    let (mut x, mut y) = gs.map.idx_xy(start);
    let (gx, gy) = gs.map.idx_xy(goal);
    let mut steps = vec![start];
    while x != gx {
        x += (gx - x).signum();
        steps.push(gs.map.xy_idx(x, y));
    }
    while y != gy {
        y += (gy - y).signum();
        steps.push(gs.map.xy_idx(x, y));
    }
    steps
}

#[test]
fn adjacency_is_less_than_one_and_a_half_tiles() {
    assert!(is_adjacent(5, 5, 5, 5));
    assert!(is_adjacent(5, 5, 6, 5));
    assert!(is_adjacent(5, 5, 4, 6));
    assert!(is_adjacent(5, 5, 6, 6));
    assert!(!is_adjacent(5, 5, 7, 5));
    assert!(!is_adjacent(5, 5, 6, 7));
    assert!(!is_adjacent(5, 5, 5, 3));
    assert!(!is_adjacent(i32::MIN, i32::MIN, i32::MAX, i32::MAX));
    assert!(is_adjacent(i32::MAX, i32::MIN, i32::MAX - 1, i32::MIN + 1));
}

#[test]
fn first_tick_runs_the_systems_and_awaits_input() {
    let mut gs = game();
    let m = gs.spawn_monster(3, 3, "Orc".to_string());
    assert_eq!(gs.run_state, RunState::PreRun);
    let request = gs.tick(None);
    assert!(request.is_none());
    assert_eq!(gs.run_state, RunState::AwaitingInput);
    // Every viewer has looked around, and the index is built.
    let views = gs.ecs.read_storage::<ViewShed>();
    assert!(views.get(gs.player).unwrap().visible_tiles.contains(&Point::new(3, 3)));
    assert!(views.get(m).unwrap().visible_tiles.contains(&Point::new(5, 5)));
    assert!(gs.map.revealed_tiles[gs.map.xy_idx(5, 5)]);
    assert!(gs.map.blocked[gs.map.xy_idx(3, 3)]);
    assert!(!gs.map.blocked[gs.map.xy_idx(5, 5)]);
    assert_eq!(gs.map.tile_content[gs.map.xy_idx(3, 3)], vec![m]);
    // No monster acts before the monsters' turn.
    assert_eq!(place_of(&gs.ecs, m), (3, 3));
    assert!(!gs.awaiting);
    assert!(!gs.player_dead);
}

#[test]
fn first_tick_ignores_the_key() {
    let mut gs = game();
    assert!(gs.tick(Some(VirtualKeyCode::Left)).is_none());
    assert_eq!(gs.run_state, RunState::AwaitingInput);
    assert_eq!(place_of(&gs.ecs, gs.player), (5, 5));
}

#[test]
fn no_key_keeps_awaiting_input() {
    let mut gs = game();
    gs.tick(None);
    for _ in 0..3 {
        assert!(gs.tick(None).is_none());
        assert_eq!(gs.run_state, RunState::AwaitingInput);
        assert_eq!(place_of(&gs.ecs, gs.player), (5, 5));
        assert_eq!((gs.player_pos.x, gs.player_pos.y), (5, 5));
    }
}

#[test]
fn other_key_keeps_awaiting_input() {
    let mut gs = game();
    gs.tick(None);
    for key in [VirtualKeyCode::A, VirtualKeyCode::Space, VirtualKeyCode::Key5, VirtualKeyCode::Escape] {
        assert!(gs.tick(Some(key)).is_none());
        assert_eq!(gs.run_state, RunState::AwaitingInput);
        assert_eq!(place_of(&gs.ecs, gs.player), (5, 5));
    }
}

#[test]
fn every_direction_key_moves_the_player_and_begins_its_turn() {
    let keys = [
        (vec![VirtualKeyCode::Left, VirtualKeyCode::H, VirtualKeyCode::Numpad4, VirtualKeyCode::Key4], (-1, 0)),
        (vec![VirtualKeyCode::Right, VirtualKeyCode::L, VirtualKeyCode::Numpad6, VirtualKeyCode::Key6], (1, 0)),
        (vec![VirtualKeyCode::Up, VirtualKeyCode::K, VirtualKeyCode::Numpad8, VirtualKeyCode::Key8], (0, -1)),
        (vec![VirtualKeyCode::Down, VirtualKeyCode::J, VirtualKeyCode::Numpad2, VirtualKeyCode::Key2], (0, 1)),
        (vec![VirtualKeyCode::Key9, VirtualKeyCode::Numpad9, VirtualKeyCode::U], (1, -1)),
        (vec![VirtualKeyCode::Key7, VirtualKeyCode::Numpad7, VirtualKeyCode::Y], (-1, -1)),
        (vec![VirtualKeyCode::Key3, VirtualKeyCode::Numpad3, VirtualKeyCode::N], (1, 1)),
        (vec![VirtualKeyCode::Key1, VirtualKeyCode::Numpad1, VirtualKeyCode::B], (-1, 1)),
    ];
    for (codes, (dx, dy)) in keys {
        for key in codes {
            let mut gs = game();
            gs.tick(None);
            gs.ecs.write_storage::<ViewShed>().get_mut(gs.player).unwrap().dirty = false;
            assert!(gs.tick(Some(key)).is_none());
            assert_eq!(gs.run_state, RunState::PlayerTurn);
            assert_eq!(place_of(&gs.ecs, gs.player), (5 + dx, 5 + dy));
            assert_eq!((gs.player_pos.x, gs.player_pos.y), (5 + dx, 5 + dy));
            assert!(gs.ecs.read_storage::<ViewShed>().get(gs.player).unwrap().dirty);
        }
    }
}

#[test]
fn player_input_says_which_phase_comes_next() {
    let mut gs = game();
    gs.tick(None);
    assert_eq!(player_input(&mut gs, None), RunState::AwaitingInput);
    assert_eq!(player_input(&mut gs, Some(VirtualKeyCode::Tab)), RunState::AwaitingInput);
    assert_eq!(place_of(&gs.ecs, gs.player), (5, 5));
    assert_eq!(player_input(&mut gs, Some(VirtualKeyCode::Right)), RunState::PlayerTurn);
    assert_eq!(place_of(&gs.ecs, gs.player), (6, 5));
    // The phase itself is for the caller to set.
    assert_eq!(gs.run_state, RunState::AwaitingInput);
}

#[test]
fn step_into_a_wall_is_not_taken_but_takes_the_turn() {
    let mut gs = game();
    gs.ecs.write_storage::<Position>().insert(gs.player, Position { x: 1, y: 1 }).unwrap();
    gs.player_pos = Point::new(1, 1);
    gs.tick(None);
    assert!(gs.tick(Some(VirtualKeyCode::Left)).is_none());
    assert_eq!(gs.run_state, RunState::PlayerTurn);
    assert_eq!(place_of(&gs.ecs, gs.player), (1, 1));
    assert_eq!((gs.player_pos.x, gs.player_pos.y), (1, 1));
}

#[test]
fn step_onto_a_foe_becomes_a_wish_to_hit_it() {
    let mut gs = game();
    let m = gs.spawn_monster(6, 5, "Orc".to_string());
    gs.tick(None);
    assert!(gs.tick(Some(VirtualKeyCode::Right)).is_none());
    assert_eq!(gs.run_state, RunState::PlayerTurn);
    assert_eq!(place_of(&gs.ecs, gs.player), (5, 5));
    assert_eq!(wish_of(&gs.ecs, gs.player), Some(m));
}

#[test]
fn step_onto_a_tile_held_without_stats_is_not_taken() {
    let mut gs = game();
    let m = gs.spawn_monster(6, 5, "Statue".to_string());
    gs.ecs.write_storage::<CombatStats>().remove(m);
    gs.tick(None);
    try_move_player(1, 0, &mut gs.ecs, &gs.map, &mut gs.player_pos);
    assert_eq!(place_of(&gs.ecs, gs.player), (5, 5));
    assert_eq!(wish_of(&gs.ecs, gs.player), None);
}

#[test]
fn first_foe_listed_on_the_tile_is_the_one_hit() {
    let mut gs = game();
    let statless = gs.ecs.create_entity().with(Position { x: 6, y: 5 }).build();
    let first = gs.spawn_monster(6, 5, "Orc".to_string());
    let second = gs.spawn_monster(6, 5, "Goblin".to_string());
    gs.tick(None);
    assert_eq!(gs.map.tile_content[gs.map.xy_idx(6, 5)], vec![statless, first, second]);
    try_move_player(1, 0, &mut gs.ecs, &gs.map, &mut gs.player_pos);
    assert_eq!(wish_of(&gs.ecs, gs.player), Some(first));
}

#[test]
fn step_off_the_walkable_part_of_the_grid_is_not_taken() {
    let mut gs = game();
    for (x, y, dx, dy) in [(1, 5, -1, 0), (5, 1, 0, -1), (19, 5, 1, 0), (5, 19, 0, 1)] {
        gs.ecs.write_storage::<Position>().insert(gs.player, Position { x, y }).unwrap();
        gs.player_pos = Point::new(x, y);
        gs.map.blocked.iter_mut().for_each(|b| *b = false);
        try_move_player(dx, dy, &mut gs.ecs, &gs.map, &mut gs.player_pos);
        assert_eq!(place_of(&gs.ecs, gs.player), (x, y));
    }
}

#[test]
fn far_step_is_held_to_the_grid_of_a_generated_dungeon() {
    let mut map = GameMap::walled(100, 60);
    map.place_room(Rect::new(0, 0, 90, 55), true);
    let mut gs = State::new(map, "Hero".to_string());
    gs.ecs.write_storage::<Position>().insert(gs.player, Position { x: 85, y: 52 }).unwrap();
    try_move_player(1, 1, &mut gs.ecs, &gs.map, &mut gs.player_pos);
    assert_eq!(place_of(&gs.ecs, gs.player), (79, 49));
    assert_eq!((gs.player_pos.x, gs.player_pos.y), (79, 49));
}

#[test]
fn player_turn_is_followed_by_the_monsters_turn() {
    let mut gs = game();
    let m = gs.spawn_monster(8, 5, "Orc".to_string());
    gs.tick(None);
    gs.tick(Some(VirtualKeyCode::Left));
    assert_eq!(gs.run_state, RunState::PlayerTurn);
    assert!(gs.tick(None).is_none());
    assert_eq!(gs.run_state, RunState::MonsterTurn);
    // Monsters do not act in the player's turn.
    assert_eq!(place_of(&gs.ecs, m), (8, 5));
}

#[test]
fn monster_in_sight_asks_for_a_route_and_steps_along_it() {
    let mut gs = game();
    let m = gs.spawn_monster(8, 5, "Orc".to_string());
    gs.tick(None);
    gs.tick(Some(VirtualKeyCode::Up));
    gs.tick(None);
    assert_eq!(gs.run_state, RunState::MonsterTurn);
    let request = gs.tick(None).expect("the monster sees the player");
    assert_eq!(request.monster, m);
    assert_eq!(request.start, gs.map.xy_idx(8, 5));
    assert_eq!(request.goal, gs.map.xy_idx(5, 4));
    assert!(gs.awaiting);
    assert_eq!(gs.run_state, RunState::MonsterTurn);
    let steps = vec![request.start, gs.map.xy_idx(7, 4), gs.map.xy_idx(6, 4), request.goal];
    assert!(gs.supply_route(true, &steps).is_none());
    assert_eq!(gs.run_state, RunState::AwaitingInput);
    assert!(!gs.awaiting);
    assert_eq!(place_of(&gs.ecs, m), (7, 4));
    assert!(gs.ecs.read_storage::<ViewShed>().get(m).unwrap().dirty);
    // The index was built after the step.
    assert!(gs.map.blocked[gs.map.xy_idx(7, 4)]);
    assert!(!gs.map.blocked[gs.map.xy_idx(8, 5)]);
    assert_eq!(gs.map.tile_content[gs.map.xy_idx(7, 4)], vec![m]);
}

#[test]
fn monster_without_a_route_stays() {
    let mut gs = game();
    let m = gs.spawn_monster(8, 5, "Orc".to_string());
    gs.tick(None);
    gs.tick(Some(VirtualKeyCode::Up));
    gs.tick(None);
    assert_eq!(tick_with(&mut gs, None, &no_route), 1);
    assert_eq!(gs.run_state, RunState::AwaitingInput);
    assert_eq!(place_of(&gs.ecs, m), (8, 5));
}

#[test]
fn follow_needs_a_found_route_of_two_tiles_onto_a_free_tile() {
    let mut gs = game();
    let m = gs.spawn_monster(8, 5, "Orc".to_string());
    let here = gs.map.xy_idx(8, 5);
    let there = gs.map.xy_idx(7, 5);
    MonsterAI::follow(&mut gs.ecs, &mut gs.map, m, false, &vec![here, there]);
    assert_eq!(place_of(&gs.ecs, m), (8, 5));
    MonsterAI::follow(&mut gs.ecs, &mut gs.map, m, true, &vec![here]);
    assert_eq!(place_of(&gs.ecs, m), (8, 5));
    MonsterAI::follow(&mut gs.ecs, &mut gs.map, m, true, &vec![]);
    assert_eq!(place_of(&gs.ecs, m), (8, 5));
    MonsterAI::follow(&mut gs.ecs, &mut gs.map, m, true, &vec![here, 400]);
    assert_eq!(place_of(&gs.ecs, m), (8, 5));
    gs.map.blocked[there] = true;
    MonsterAI::follow(&mut gs.ecs, &mut gs.map, m, true, &vec![here, there]);
    assert_eq!(place_of(&gs.ecs, m), (8, 5));
    gs.map.blocked[there] = false;
    gs.ecs.write_storage::<ViewShed>().get_mut(m).unwrap().dirty = false;
    MonsterAI::follow(&mut gs.ecs, &mut gs.map, m, true, &vec![here, there]);
    assert_eq!(place_of(&gs.ecs, m), (7, 5));
    assert!(gs.map.blocked[there]);
    assert!(gs.ecs.read_storage::<ViewShed>().get(m).unwrap().dirty);
}

#[test]
fn later_monster_finds_the_tile_taken_by_an_earlier_one() {
    let mut gs = game();
    let first = gs.spawn_monster(8, 4, "Orc".to_string());
    let second = gs.spawn_monster(8, 6, "Goblin".to_string());
    gs.tick(None);
    gs.run_state = RunState::MonsterTurn;
    let to_same = |gs: &State, start: usize, _: usize| vec![start, gs.map.xy_idx(7, 5)];
    assert_eq!(tick_with(&mut gs, None, &to_same), 2);
    assert_eq!(place_of(&gs.ecs, first), (7, 5));
    assert_eq!(place_of(&gs.ecs, second), (8, 6));
}

#[test]
fn monster_next_to_the_player_hits_it() {
    let mut gs = game();
    let m = gs.spawn_monster(6, 6, "Orc".to_string());
    gs.tick(None);
    gs.run_state = RunState::MonsterTurn;
    assert_eq!(tick_with(&mut gs, None, &elbow), 0);
    assert_eq!(gs.run_state, RunState::AwaitingInput);
    assert_eq!(place_of(&gs.ecs, m), (6, 6));
    // Power 4 against defense 2.
    assert_eq!(hp_of(&gs.ecs, gs.player), 28);
    assert_eq!(wish_of(&gs.ecs, m), None);
    assert!(gs.ecs.read_storage::<SufferDamage>().get(gs.player).is_none());
}

#[test]
fn monsters_pass_does_nothing_outside_the_monsters_turn() {
    let mut gs = game();
    let near = gs.spawn_monster(6, 6, "Near".to_string());
    let far = gs.spawn_monster(8, 5, "Far".to_string());
    gs.tick(None);
    let queue = vec![gs.player, near, far];
    for phase in [RunState::PreRun, RunState::AwaitingInput, RunState::PlayerTurn] {
        let (stop, request) =
            MonsterAI {}.run(&mut gs.ecs, &gs.map, gs.player_pos, gs.player, phase, &queue, 0);
        assert_eq!(stop, 3);
        assert!(request.is_none());
        assert_eq!(wish_of(&gs.ecs, near), None);
        assert_eq!(place_of(&gs.ecs, far), (8, 5));
    }
}

#[test]
fn monsters_pass_stops_at_the_first_chase() {
    let mut gs = game();
    let near = gs.spawn_monster(6, 6, "Near".to_string());
    let far = gs.spawn_monster(8, 5, "Far".to_string());
    let late = gs.spawn_monster(4, 5, "Late".to_string());
    gs.tick(None);
    let queue = vec![gs.player, near, far, late];
    let phase = RunState::MonsterTurn;
    let (stop, request) =
        MonsterAI {}.run(&mut gs.ecs, &gs.map, gs.player_pos, gs.player, phase, &queue, 0);
    assert_eq!(stop, 2);
    let request = request.expect("the far monster gives chase");
    assert_eq!(request.monster, far);
    assert_eq!(request.start, gs.map.xy_idx(8, 5));
    assert_eq!(request.goal, gs.map.xy_idx(5, 5));
    assert_eq!(wish_of(&gs.ecs, near), Some(gs.player));
    assert_eq!(wish_of(&gs.ecs, late), None);
    assert_eq!(place_of(&gs.ecs, far), (8, 5));
    // Taken up at the next place, the pass gets through.
    let (stop, request) =
        MonsterAI {}.run(&mut gs.ecs, &gs.map, gs.player_pos, gs.player, phase, &queue, 3);
    assert_eq!(stop, 4);
    assert!(request.is_none());
    assert_eq!(wish_of(&gs.ecs, late), Some(gs.player));
    assert_eq!(place_of(&gs.ecs, near), (6, 6));
    assert_eq!(place_of(&gs.ecs, late), (4, 5));
}

#[test]
fn decide_attacks_chases_or_idles() {
    let mut gs = game();
    let near = gs.spawn_monster(4, 4, "Near".to_string());
    let far = gs.spawn_monster(8, 8, "Far".to_string());
    let blind = gs.spawn_monster(2, 8, "Blind".to_string());
    let nameless = gs.spawn_monster(6, 5, "".to_string());
    gs.ecs.write_storage::<Name>().remove(nameless);
    let tame = gs.spawn_monster(5, 6, "Tame".to_string());
    gs.ecs.write_storage::<Monster>().remove(tame);
    gs.tick(None);
    gs.ecs.write_storage::<ViewShed>().get_mut(blind).unwrap().visible_tiles.clear();
    let pp = gs.player_pos;
    assert!(matches!(MonsterAI::decide(&gs.ecs, &gs.map, pp, near), Plan::Attack));
    match MonsterAI::decide(&gs.ecs, &gs.map, pp, far) {
        Plan::Chase { start, goal } => {
            assert_eq!(start, gs.map.xy_idx(8, 8));
            assert_eq!(goal, gs.map.xy_idx(5, 5));
        }
        other => panic!("expected a chase, got {:?}", other),
    }
    assert!(matches!(MonsterAI::decide(&gs.ecs, &gs.map, pp, blind), Plan::Idle));
    assert!(matches!(MonsterAI::decide(&gs.ecs, &gs.map, pp, nameless), Plan::Idle));
    assert!(matches!(MonsterAI::decide(&gs.ecs, &gs.map, pp, tame), Plan::Idle));
    assert!(matches!(MonsterAI::decide(&gs.ecs, &gs.map, pp, gs.player), Plan::Idle));
}

#[test]
fn dead_monster_leaves_the_world_at_the_end_of_the_turn() {
    let mut gs = game();
    let m = gs.spawn_monster(6, 5, "Orc".to_string());
    gs.ecs.write_storage::<CombatStats>().get_mut(m).unwrap().hp = 3;
    gs.tick(None);
    gs.tick(Some(VirtualKeyCode::Right));
    assert_eq!(wish_of(&gs.ecs, gs.player), Some(m));
    assert!(gs.tick(None).is_none());
    // Power 5 against defense 1 takes 4 off a health of 3.
    assert!(!gs.ecs.is_alive(m));
    assert!(gs.ecs.read_storage::<Position>().get(m).is_none());
    let left: Vec<Entity> = gs.ecs.entities().join().collect();
    assert_eq!(left, vec![gs.player]);
    assert_eq!(gs.run_state, RunState::MonsterTurn);
    assert!(!gs.player_dead);
}

#[test]
fn dead_player_stays_in_the_world() {
    let mut gs = game();
    let m = gs.spawn_monster(6, 5, "Orc".to_string());
    gs.ecs.write_storage::<CombatStats>().get_mut(gs.player).unwrap().hp = 2;
    gs.tick(None);
    gs.run_state = RunState::MonsterTurn;
    assert_eq!(tick_with(&mut gs, None, &elbow), 0);
    assert_eq!(hp_of(&gs.ecs, gs.player), 0);
    assert!(gs.ecs.is_alive(gs.player));
    assert!(gs.player_dead);
    assert!(gs.ecs.is_alive(m));
    // A dead player is not hit again.
    gs.run_state = RunState::MonsterTurn;
    assert_eq!(tick_with(&mut gs, None, &elbow), 0);
    assert_eq!(hp_of(&gs.ecs, gs.player), 0);
    assert!(gs.ecs.is_alive(gs.player));
}

#[test]
fn whole_round_of_play() {
    let mut gs = game();
    let m = gs.spawn_monster(9, 5, "Orc".to_string());
    assert_eq!(tick_with(&mut gs, None, &elbow), 0);
    assert_eq!(gs.run_state, RunState::AwaitingInput);
    let mut turns = 0;
    while gs.ecs.is_alive(m) && turns < 50 {
        assert_eq!(tick_with(&mut gs, Some(VirtualKeyCode::Right), &elbow), 0);
        assert_eq!(gs.run_state, RunState::PlayerTurn);
        assert_eq!(tick_with(&mut gs, None, &elbow), 0);
        assert_eq!(gs.run_state, RunState::MonsterTurn);
        tick_with(&mut gs, None, &elbow);
        assert_eq!(gs.run_state, RunState::AwaitingInput);
        turns += 1;
    }
    // The player hits for 4 a turn, the monster for 2: the monster falls first.
    assert!(!gs.ecs.is_alive(m));
    assert!(gs.ecs.is_alive(gs.player));
    assert!(hp_of(&gs.ecs, gs.player) > 0);
    assert!(!gs.player_dead);
}
