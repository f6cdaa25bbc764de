use rltk::Point;
use roguelike::component::{
    BlocksTile, CombatStats, Monster, Name, Player, Position, SufferDamage, ViewShed, WantsToMelee,
};
use roguelike::damage_system::{clamp, delete_the_dead, sum, DamageSystem};
use roguelike::map::{GameMap, TileType};
use roguelike::map_indexing_system::MapIndexingSystem;
use roguelike::melee_combat_system::{blow_strength, MeleeCombatSystem};
use roguelike::rect::Rect;
use roguelike::state::State;
use roguelike::visibility_system::{keep_in_bounds, VisibilitySystem, SIGHT_LIMIT};
use specs::{Builder, Entity, Join, World, WorldExt};

/// A grid of 20 by 20 with one big room, and a game on it whose player
/// stands at (5, 5).
fn game() -> State {
    let mut map = GameMap::walled(20, 20);
    map.place_room(Rect::new(0, 0, 10, 10), true);
    State::new(map, "Hero".to_string())
}

fn fighter(ecs: &mut World, hp: i32, defense: i32, power: i32) -> Entity {
    ecs.create_entity().with(CombatStats { max_hp: 16, hp, defense, power }).build()
}

fn hp_of(ecs: &World, e: Entity) -> i32 {
    ecs.read_storage::<CombatStats>().get(e).unwrap().hp
}

fn blows_of(ecs: &World, e: Entity) -> Option<Vec<i32>> {
    ecs.read_storage::<SufferDamage>().get(e).map(|d| d.amounts.clone())
}

fn wish(ecs: &mut World, attacker: Entity, target: Entity) {
    ecs.write_storage::<WantsToMelee>().insert(attacker, WantsToMelee { target }).unwrap();
}

#[test]
fn new_game_holds_only_the_player() {
    let gs = game();
    let all: Vec<Entity> = gs.ecs.entities().join().collect();
    assert_eq!(all, vec![gs.player]);
    assert_eq!((gs.player_pos.x, gs.player_pos.y), (5, 5));
    let pos = *gs.ecs.read_storage::<Position>().get(gs.player).unwrap();
    assert_eq!((pos.x, pos.y), (5, 5));
    assert!(gs.ecs.read_storage::<Player>().get(gs.player).is_some());
    assert!(gs.ecs.read_storage::<Monster>().get(gs.player).is_none());
    assert!(gs.ecs.read_storage::<BlocksTile>().get(gs.player).is_none());
    assert_eq!(gs.ecs.read_storage::<Name>().get(gs.player).unwrap().name, "Hero");
    let stats = *gs.ecs.read_storage::<CombatStats>().get(gs.player).unwrap();
    assert_eq!((stats.max_hp, stats.hp, stats.defense, stats.power), (30, 30, 2, 5));
    let views = gs.ecs.read_storage::<ViewShed>();
    let view = views.get(gs.player).unwrap();
    assert!(view.visible_tiles.is_empty());
    assert_eq!(view.range, 8);
    assert!(view.dirty);
}

#[test]
fn spawned_monster_has_its_components() {
    let mut gs = game();
    let m = gs.spawn_monster(3, 4, "Orc #1".to_string());
    assert_ne!(m, gs.player);
    assert!(gs.ecs.is_alive(m));
    let pos = *gs.ecs.read_storage::<Position>().get(m).unwrap();
    assert_eq!((pos.x, pos.y), (3, 4));
    assert!(gs.ecs.read_storage::<Monster>().get(m).is_some());
    assert!(gs.ecs.read_storage::<BlocksTile>().get(m).is_some());
    assert!(gs.ecs.read_storage::<Player>().get(m).is_none());
    assert_eq!(gs.ecs.read_storage::<Name>().get(m).unwrap().name, "Orc #1");
    let stats = *gs.ecs.read_storage::<CombatStats>().get(m).unwrap();
    assert_eq!((stats.max_hp, stats.hp, stats.defense, stats.power), (16, 16, 1, 4));
    let all: Vec<Entity> = gs.ecs.entities().join().collect();
    assert_eq!(all.len(), 2);
    // The player is as it was.
    let pos = *gs.ecs.read_storage::<Position>().get(gs.player).unwrap();
    assert_eq!((pos.x, pos.y), (5, 5));
}

#[test]
fn sum_and_clamp() {
    assert_eq!(sum(&vec![]), 0);
    assert_eq!(sum(&vec![3, 4]), 7);
    assert_eq!(sum(&vec![i32::MAX, i32::MAX, -5]), 2 * (i32::MAX as i128) - 5);
    assert_eq!(clamp(12), 12);
    assert_eq!(clamp(-12), -12);
    assert_eq!(clamp(i32::MAX as i128 + 1), i32::MAX);
    assert_eq!(clamp(i32::MIN as i128 - 1), i32::MIN);
}

#[test]
fn damage_comes_off_health() {
    let mut gs = game();
    let victim = gs
        .ecs
        .create_entity()
        .with(CombatStats { max_hp: 16, hp: 16, defense: 1, power: 4 })
        .with(SufferDamage { amounts: vec![3, 4] })
        .build();
    DamageSystem {}.run(&mut gs.ecs);
    let stats = *gs.ecs.read_storage::<CombatStats>().get(victim).unwrap();
    assert_eq!((stats.max_hp, stats.hp, stats.defense, stats.power), (16, 9, 1, 4));
    assert_eq!(blows_of(&gs.ecs, victim), None);
    assert_eq!(hp_of(&gs.ecs, gs.player), 30);
}

#[test]
fn damage_can_take_health_below_zero() {
    let mut gs = game();
    let victim = fighter(&mut gs.ecs, 5, 0, 0);
    gs.ecs.write_storage::<SufferDamage>().insert(victim, SufferDamage { amounts: vec![4, 4, 4] }).unwrap();
    DamageSystem {}.run(&mut gs.ecs);
    assert_eq!(hp_of(&gs.ecs, victim), -7);
}

#[test]
fn damage_stops_at_the_limits_of_health() {
    let mut gs = game();
    let low = fighter(&mut gs.ecs, i32::MIN + 3, 0, 0);
    gs.ecs.write_storage::<SufferDamage>().insert(low, SufferDamage { amounts: vec![10] }).unwrap();
    let high = fighter(&mut gs.ecs, i32::MAX - 3, 0, 0);
    gs.ecs.write_storage::<SufferDamage>().insert(high, SufferDamage { amounts: vec![-10] }).unwrap();
    DamageSystem {}.run(&mut gs.ecs);
    assert_eq!(hp_of(&gs.ecs, low), i32::MIN);
    assert_eq!(hp_of(&gs.ecs, high), i32::MAX);
}

#[test]
fn damage_without_stats_is_only_cleared() {
    let mut gs = game();
    let ghost = gs.ecs.create_entity().with(SufferDamage { amounts: vec![9] }).build();
    let bystander = fighter(&mut gs.ecs, 12, 0, 0);
    DamageSystem {}.run(&mut gs.ecs);
    assert_eq!(blows_of(&gs.ecs, ghost), None);
    assert!(gs.ecs.is_alive(ghost));
    assert_eq!(hp_of(&gs.ecs, bystander), 12);
}

#[test]
fn new_damage_starts_and_extends_the_record() {
    let mut gs = game();
    let victim = fighter(&mut gs.ecs, 16, 1, 4);
    assert_eq!(blows_of(&gs.ecs, victim), None);
    SufferDamage::new_damage(&mut gs.ecs, victim, 3);
    assert_eq!(blows_of(&gs.ecs, victim), Some(vec![3]));
    SufferDamage::new_damage(&mut gs.ecs, victim, 5);
    assert_eq!(blows_of(&gs.ecs, victim), Some(vec![3, 5]));
    assert_eq!(blows_of(&gs.ecs, gs.player), None);
}

#[test]
fn blow_strength_is_power_less_defense() {
    assert_eq!(blow_strength(4, 1), 3);
    assert_eq!(blow_strength(1, 4), 0);
    assert_eq!(blow_strength(5, 5), 0);
    assert_eq!(blow_strength(5, -2), 7);
    assert_eq!(blow_strength(i32::MAX, -1), i32::MAX);
    assert_eq!(blow_strength(i32::MIN, i32::MAX), 0);
}

#[test]
fn melee_blow_is_noted_on_the_target() {
    let mut gs = game();
    let attacker = fighter(&mut gs.ecs, 16, 1, 4);
    let target = fighter(&mut gs.ecs, 16, 1, 4);
    wish(&mut gs.ecs, attacker, target);
    MeleeCombatSystem {}.run(&mut gs.ecs);
    assert_eq!(blows_of(&gs.ecs, target), Some(vec![3]));
    assert_eq!(blows_of(&gs.ecs, attacker), None);
    assert_eq!(hp_of(&gs.ecs, target), 16);
    assert!(gs.ecs.read_storage::<WantsToMelee>().get(attacker).is_none());
}

#[test]
fn melee_blow_without_damage_leaves_no_record() {
    let mut gs = game();
    let attacker = fighter(&mut gs.ecs, 16, 1, 1);
    let target = fighter(&mut gs.ecs, 16, 4, 4);
    wish(&mut gs.ecs, attacker, target);
    MeleeCombatSystem {}.run(&mut gs.ecs);
    assert_eq!(blows_of(&gs.ecs, target), None);
    assert!(gs.ecs.read_storage::<WantsToMelee>().get(attacker).is_none());
}

#[test]
fn melee_skips_the_dead_on_either_side() {
    let mut gs = game();
    let dead_attacker = fighter(&mut gs.ecs, 0, 1, 9);
    let live = fighter(&mut gs.ecs, 16, 1, 9);
    let dead_target = fighter(&mut gs.ecs, 0, 1, 4);
    wish(&mut gs.ecs, dead_attacker, live);
    wish(&mut gs.ecs, live, dead_target);
    MeleeCombatSystem {}.run(&mut gs.ecs);
    assert_eq!(blows_of(&gs.ecs, live), None);
    assert_eq!(blows_of(&gs.ecs, dead_target), None);
    assert_eq!(gs.ecs.read_storage::<WantsToMelee>().join().count(), 0);
}

#[test]
fn melee_skips_targets_and_attackers_without_stats() {
    let mut gs = game();
    let attacker = fighter(&mut gs.ecs, 16, 1, 9);
    let statless = gs.ecs.create_entity().build();
    let target = fighter(&mut gs.ecs, 16, 1, 9);
    wish(&mut gs.ecs, attacker, statless);
    wish(&mut gs.ecs, statless, target);
    MeleeCombatSystem {}.run(&mut gs.ecs);
    assert_eq!(blows_of(&gs.ecs, statless), None);
    assert_eq!(blows_of(&gs.ecs, target), None);
    assert_eq!(gs.ecs.read_storage::<WantsToMelee>().join().count(), 0);
}

#[test]
fn melee_blows_add_up_in_order_of_the_attackers() {
    let mut gs = game();
    let target = fighter(&mut gs.ecs, 16, 1, 4);
    let first = fighter(&mut gs.ecs, 16, 1, 4);
    let second = fighter(&mut gs.ecs, 16, 1, 7);
    let third = fighter(&mut gs.ecs, 16, 1, 1);
    gs.ecs.write_storage::<SufferDamage>().insert(target, SufferDamage { amounts: vec![2] }).unwrap();
    wish(&mut gs.ecs, second, target);
    wish(&mut gs.ecs, first, target);
    wish(&mut gs.ecs, third, target);
    MeleeCombatSystem {}.run(&mut gs.ecs);
    assert_eq!(blows_of(&gs.ecs, target), Some(vec![2, 3, 6]));
}

#[test]
fn second_wish_replaces_the_first() {
    let mut gs = game();
    let attacker = fighter(&mut gs.ecs, 16, 1, 4);
    let a = fighter(&mut gs.ecs, 16, 1, 4);
    let b = fighter(&mut gs.ecs, 16, 0, 4);
    roguelike::monster_ai_system::MonsterAI::attack(&mut gs.ecs, attacker, a);
    roguelike::monster_ai_system::MonsterAI::attack(&mut gs.ecs, attacker, b);
    assert_eq!(gs.ecs.read_storage::<WantsToMelee>().get(attacker).unwrap().target, b);
    MeleeCombatSystem {}.run(&mut gs.ecs);
    assert_eq!(blows_of(&gs.ecs, a), None);
    assert_eq!(blows_of(&gs.ecs, b), Some(vec![4]));
}

#[test]
fn sweep_dooms_the_dead_and_upkeep_removes_them() {
    let mut gs = game();
    let dead = fighter(&mut gs.ecs, 0, 1, 4);
    let dying = fighter(&mut gs.ecs, -5, 1, 4);
    let hale = fighter(&mut gs.ecs, 1, 1, 4);
    let statless = gs.ecs.create_entity().build();
    let player_dead = delete_the_dead(&mut gs.ecs);
    assert!(!player_dead);
    // Doomed entities stay until the world is maintained.
    assert!(gs.ecs.is_alive(dead));
    assert_eq!(hp_of(&gs.ecs, dead), 0);
    gs.ecs.maintain();
    assert!(!gs.ecs.is_alive(dead));
    assert!(!gs.ecs.is_alive(dying));
    assert!(gs.ecs.is_alive(hale));
    assert!(gs.ecs.is_alive(statless));
    assert!(gs.ecs.is_alive(gs.player));
    assert!(gs.ecs.read_storage::<CombatStats>().get(dead).is_none());
    let left: Vec<Entity> = gs.ecs.entities().join().collect();
    assert_eq!(left, vec![gs.player, hale, statless]);
}

#[test]
fn sweep_spares_the_player_and_reports_its_death() {
    let mut gs = game();
    gs.ecs.write_storage::<CombatStats>().get_mut(gs.player).unwrap().hp = -3;
    let foe = fighter(&mut gs.ecs, 0, 1, 4);
    let player_dead = delete_the_dead(&mut gs.ecs);
    assert!(player_dead);
    gs.ecs.maintain();
    assert!(gs.ecs.is_alive(gs.player));
    assert_eq!(hp_of(&gs.ecs, gs.player), -3);
    assert!(!gs.ecs.is_alive(foe));
}

#[test]
fn player_doomed_by_another_hand_leaves_at_upkeep() {
    let mut gs = game();
    gs.ecs.entities().delete(gs.player).unwrap();
    let player_dead = delete_the_dead(&mut gs.ecs);
    assert!(!player_dead);
    assert!(gs.ecs.is_alive(gs.player));
    gs.ecs.maintain();
    assert!(!gs.ecs.is_alive(gs.player));
}

#[test]
fn index_lists_occupants_and_blocks_their_tiles() {
    let mut gs = game();
    let blocker = gs.spawn_monster(3, 4, "Orc".to_string());
    let walker = gs.ecs.create_entity().with(Position { x: 3, y: 4 }).build();
    let nowhere = gs.ecs.create_entity().with(BlocksTile {}).build();
    let outside = gs.ecs.create_entity().with(Position { x: 20, y: 3 }).with(BlocksTile {}).build();
    let below = gs.ecs.create_entity().with(Position { x: -1, y: 3 }).with(BlocksTile {}).build();
    // Stale marks from an earlier turn.
    let stale = gs.map.xy_idx(7, 7);
    gs.map.blocked[stale] = true;
    gs.map.tile_content[stale].push(blocker);
    MapIndexingSystem {}.run(&gs.ecs, &mut gs.map);
    for i in 0..400 {
        let (x, y) = gs.map.idx_xy(i);
        let wall = gs.map.tiles[i] == TileType::Wall;
        let held = (x, y) == (3, 4);
        assert_eq!(gs.map.blocked[i], wall || held, "tile {},{}", x, y);
        let expected = if (x, y) == (3, 4) {
            vec![blocker, walker]
        } else if (x, y) == (5, 5) {
            vec![gs.player]
        } else {
            vec![]
        };
        assert_eq!(gs.map.tile_content[i], expected, "tile {},{}", x, y);
    }
    assert!(gs.ecs.is_alive(nowhere) && gs.ecs.is_alive(outside) && gs.ecs.is_alive(below));
}

#[test]
fn index_does_not_block_the_tile_of_one_who_does_not_block() {
    let mut gs = game();
    MapIndexingSystem {}.run(&gs.ecs, &mut gs.map);
    let idx = gs.map.xy_idx(5, 5);
    assert!(!gs.map.blocked[idx]);
    assert_eq!(gs.map.tile_content[idx], vec![gs.player]);
}

#[test]
fn keep_in_bounds_drops_points_off_the_grid() {
    let map = GameMap::walled(4, 3);
    let points = vec![
        Point::new(0, 0),
        Point::new(-1, 0),
        Point::new(3, 2),
        Point::new(4, 2),
        Point::new(3, 3),
        Point::new(2, -1),
        Point::new(1, 1),
    ];
    let kept = keep_in_bounds(points, &map);
    assert_eq!(kept, vec![Point::new(0, 0), Point::new(3, 2), Point::new(1, 1)]);
}

#[test]
fn mark_revealed_only_adds() {
    let mut map = GameMap::walled(4, 3);
    map.revealed_tiles[11] = true;
    map.mark_revealed(&vec![Point::new(1, 1), Point::new(9, 9), Point::new(0, 0)]);
    for i in 0..12 {
        assert_eq!(map.revealed_tiles[i], i == 0 || i == 5 || i == 11);
    }
}

#[test]
fn player_looks_around_and_reveals_what_it_sees() {
    let mut gs = game();
    VisibilitySystem {}.run(&mut gs.ecs, &mut gs.map);
    let views = gs.ecs.read_storage::<ViewShed>();
    let view = views.get(gs.player).unwrap();
    assert!(view.dirty);
    assert_eq!(view.range, 8);
    assert!(view.visible_tiles.contains(&Point::new(5, 5)));
    assert!(view.visible_tiles.contains(&Point::new(1, 1)));
    assert!(view.visible_tiles.contains(&Point::new(10, 10)));
    // The far wall of the room is seen, what lies behind it is not.
    assert!(view.visible_tiles.contains(&Point::new(11, 5)));
    assert!(!view.visible_tiles.contains(&Point::new(12, 5)));
    assert!(!view.visible_tiles.contains(&Point::new(13, 5)));
    assert!(!view.visible_tiles.contains(&Point::new(19, 19)));
    for (k, p) in view.visible_tiles.iter().enumerate() {
        assert!(0 <= p.x && p.x < 20 && 0 <= p.y && p.y < 20);
        assert!(!view.visible_tiles[..k].contains(p));
    }
    for i in 0..400 {
        let (x, y) = gs.map.idx_xy(i);
        assert_eq!(gs.map.revealed_tiles[i], view.visible_tiles.contains(&Point::new(x, y)));
    }
}

#[test]
fn monster_looks_around_without_revealing() {
    let mut gs = game();
    gs.ecs.write_storage::<ViewShed>().get_mut(gs.player).unwrap().dirty = false;
    let m = gs.spawn_monster(3, 3, "Orc".to_string());
    VisibilitySystem {}.run(&mut gs.ecs, &mut gs.map);
    let views = gs.ecs.read_storage::<ViewShed>();
    assert!(views.get(m).unwrap().visible_tiles.contains(&Point::new(5, 5)));
    assert!(views.get(m).unwrap().dirty);
    // A view that is not dirty is left alone.
    assert!(views.get(gs.player).unwrap().visible_tiles.is_empty());
    assert!(!views.get(gs.player).unwrap().dirty);
    assert!(gs.map.revealed_tiles.iter().all(|r| !*r));
}

#[test]
fn revealed_tiles_stay_revealed() {
    let mut gs = game();
    let far = gs.map.xy_idx(18, 18);
    gs.map.revealed_tiles[far] = true;
    VisibilitySystem {}.run(&mut gs.ecs, &mut gs.map);
    assert!(gs.map.revealed_tiles[far]);
    assert!(gs.map.revealed_tiles[gs.map.xy_idx(5, 5)]);
}

#[test]
fn viewer_that_cannot_look_keeps_its_view() {
    let mut gs = game();
    let old = vec![Point::new(2, 2)];
    let off_grid = gs
        .ecs
        .create_entity()
        .with(Position { x: 25, y: 5 })
        .with(ViewShed { visible_tiles: old.clone(), range: 8, dirty: true })
        .build();
    let short = gs
        .ecs
        .create_entity()
        .with(Position { x: 5, y: 5 })
        .with(ViewShed { visible_tiles: old.clone(), range: -1, dirty: true })
        .build();
    let long = gs
        .ecs
        .create_entity()
        .with(Position { x: 5, y: 5 })
        .with(ViewShed { visible_tiles: old.clone(), range: SIGHT_LIMIT + 1, dirty: true })
        .build();
    let placeless = gs
        .ecs
        .create_entity()
        .with(ViewShed { visible_tiles: old.clone(), range: 8, dirty: true })
        .build();
    VisibilitySystem {}.run(&mut gs.ecs, &mut gs.map);
    let views = gs.ecs.read_storage::<ViewShed>();
    for e in [off_grid, short, long, placeless] {
        assert_eq!(views.get(e).unwrap().visible_tiles, old);
    }
}

#[test]
fn view_stays_on_the_grid_and_in_reach() {
    for (x, y, range) in [(5, 5, 1), (5, 5, 3), (1, 1, 8), (10, 10, 8), (9, 2, 30)] {
        let mut gs = game();
        gs.ecs.write_storage::<Position>().insert(gs.player, Position { x, y }).unwrap();
        gs.ecs.write_storage::<ViewShed>().get_mut(gs.player).unwrap().range = range;
        VisibilitySystem {}.run(&mut gs.ecs, &mut gs.map);
        let views = gs.ecs.read_storage::<ViewShed>();
        let view = views.get(gs.player).unwrap();
        assert!(view.visible_tiles.len() > 1);
        for p in view.visible_tiles.iter() {
            assert!(0 <= p.x && p.x < 20 && 0 <= p.y && p.y < 20);
            assert!((p.x - x).abs() <= range && (p.y - y).abs() <= range);
        }
    }
}

#[test]
fn looking_changes_nothing_but_views_and_revealed_tiles() {
    let mut gs = game();
    let m = gs.spawn_monster(3, 3, "Orc".to_string());
    let tiles = gs.map.tiles.clone();
    let blocked = gs.map.blocked.clone();
    let content = gs.map.tile_content.clone();
    VisibilitySystem {}.run(&mut gs.ecs, &mut gs.map);
    assert_eq!(gs.map.tiles, tiles);
    assert_eq!(gs.map.blocked, blocked);
    assert_eq!(gs.map.tile_content, content);
    let places = gs.ecs.read_storage::<Position>();
    assert_eq!((places.get(m).unwrap().x, places.get(m).unwrap().y), (3, 3));
    assert_eq!((places.get(gs.player).unwrap().x, places.get(gs.player).unwrap().y), (5, 5));
}

#[test]
fn range_zero_sees_only_its_own_tile() {
    let mut gs = game();
    gs.ecs.write_storage::<ViewShed>().get_mut(gs.player).unwrap().range = 0;
    VisibilitySystem {}.run(&mut gs.ecs, &mut gs.map);
    let views = gs.ecs.read_storage::<ViewShed>();
    assert_eq!(views.get(gs.player).unwrap().visible_tiles, vec![Point::new(5, 5)]);
}

#[test]
fn sees_finds_a_tile_in_view() {
    let view = ViewShed {
        visible_tiles: vec![Point::new(1, 2), Point::new(3, 4)],
        range: 8,
        dirty: false,
    };
    assert!(view.sees(1, 2));
    assert!(view.sees(3, 4));
    assert!(!view.sees(2, 1));
    assert!(!view.sees(1, 4));
}
