//! The player's move: a key becomes a direction, and the step in that
//! direction becomes a blow, a move, or nothing.

use crate::component::{CombatStats, Player, Position, Sight, ViewShed, WantsToMelee};
use crate::map::{cell, lemma_cell_in_grid, GameMap, HEIGHT, WIDTH};
use crate::monster_ai_system::MonsterAI;
use crate::state::{RunState, State};
use crate::store::{
    fetch, live_entities, row_or_blank, store, world_doomed, world_order, world_ready, world_rows,
    Row,
};
use rltk::{Point, VirtualKeyCode};
use specs::{Entity, World};
use vstd::prelude::*;

verus! {

/// The key codes of the `rltk` crate: an enum without fields.
#[verifier::external_type_specification]
pub struct ExVirtualKeyCode(VirtualKeyCode);

/// How far a turn of steering has come: the rows and the player's place as
/// they stand, and whether steering has stopped.
pub struct Steering {
    pub rows: Map<Entity, Row>,
    pub player_pos: Point,
    pub stopped: bool,
}

/// The direction that `key` stands for, if it stands for one: a step of one
/// tile along each axis, with `y` growing downward.
pub open spec fn key_delta(key: Option<VirtualKeyCode>) -> Option<(int, int)> {
    match key {
        Some(VirtualKeyCode::Left) | Some(VirtualKeyCode::H) | Some(VirtualKeyCode::Numpad4) | Some(
            VirtualKeyCode::Key4,
        ) => Some((-1, 0)),
        Some(VirtualKeyCode::Right) | Some(VirtualKeyCode::L) | Some(VirtualKeyCode::Numpad6)
        | Some(VirtualKeyCode::Key6) => Some((1, 0)),
        Some(VirtualKeyCode::Up) | Some(VirtualKeyCode::K) | Some(VirtualKeyCode::Numpad8) | Some(
            VirtualKeyCode::Key8,
        ) => Some((0, -1)),
        Some(VirtualKeyCode::Down) | Some(VirtualKeyCode::J) | Some(VirtualKeyCode::Numpad2) | Some(
            VirtualKeyCode::Key2,
        ) => Some((0, 1)),
        Some(VirtualKeyCode::Key9) | Some(VirtualKeyCode::Numpad9) | Some(VirtualKeyCode::U) => Some(
            (1, -1),
        ),
        Some(VirtualKeyCode::Key7) | Some(VirtualKeyCode::Numpad7) | Some(VirtualKeyCode::Y) => Some(
            (-1, -1),
        ),
        Some(VirtualKeyCode::Key3) | Some(VirtualKeyCode::Numpad3) | Some(VirtualKeyCode::N) => Some(
            (1, 1),
        ),
        Some(VirtualKeyCode::Key1) | Some(VirtualKeyCode::Numpad1) | Some(VirtualKeyCode::B) => Some(
            (-1, 1),
        ),
        _ => None,
    }
}

/// The first entity of `content` that has stats under `rows`.
pub open spec fn foe_among(content: Seq<Entity>, rows: Map<Entity, Row>) -> Option<Entity>
    decreases content.len(),
{
    if content.len() == 0 {
        None
    } else {
        match foe_among(content.drop_last(), rows) {
            Some(foe) => Some(foe),
            None => if row_or_blank(rows, content.last()).stats is Some {
                Some(content.last())
            } else {
                None
            },
        }
    }
}

/// `v`, held between `lo` and `hi`.
pub open spec fn held(v: int, lo: int, hi: int) -> int {
    if v < lo {
        lo
    } else if v > hi {
        hi
    } else {
        v
    }
}

/// Whether the entity of `row` is steered: a player with a view and a position.
pub open spec fn steered(row: Row) -> bool {
    row.viewshed is Some && row.player is Some && row.position is Some
}

/// Steering after the entity `e` had its go at a step of `dx` and `dy`.
/// An entity that is not steered does nothing. A step off the grid or onto
/// its first column or row stops steering. A step onto a tile where an
/// entity with stats is listed becomes the wish to hit the first of them,
/// and stops steering. Any other step is taken if nothing blocks the tile.
pub open spec fn steer_one(s: Steering, e: Entity, map: GameMap, dx: int, dy: int) -> Steering {
    let row = row_or_blank(s.rows, e);
    if s.stopped || !steered(row) {
        s
    } else {
        let x = row.position.unwrap().x + dx;
        let y = row.position.unwrap().y + dy;
        if x < 1 || x > map.width - 1 || y < 1 || y > map.height - 1 {
            Steering { stopped: true, ..s }
        } else {
            let idx = cell(map.width as int, x, y);
            match foe_among(map.tile_content@[idx]@, s.rows) {
                Some(foe) => Steering {
                    rows: s.rows.insert(
                        e,
                        Row { wants_to_melee: Some(WantsToMelee { target: foe }), ..row },
                    ),
                    stopped: true,
                    ..s
                },
                None => if map.blocked@[idx] {
                    s
                } else {
                    let to = Position {
                        x: held(x, 0, WIDTH - 1) as i32,
                        y: held(y, 0, HEIGHT - 1) as i32,
                    };
                    Steering {
                        rows: s.rows.insert(
                            e,
                            Row {
                                position: Some(to),
                                viewshed: Some(Sight { dirty: true, ..row.viewshed.unwrap() }),
                                ..row
                            },
                        ),
                        player_pos: Point { x: to.x, y: to.y },
                        ..s
                    }
                },
            }
        }
    }
}

/// Steering after the entities of `order` had their go in turn.
pub open spec fn steer(s: Steering, order: Seq<Entity>, map: GameMap, dx: int, dy: int) -> Steering
    decreases order.len(),
{
    if order.len() == 0 {
        s
    } else {
        steer_one(steer(s, order.drop_last(), map, dx, dy), order.last(), map, dx, dy)
    }
}

/// Steering neither makes nor loses an entity, and leaves the mark of the
/// player where it is.
pub proof fn lemma_steer_keeps_players(
    s: Steering,
    order: Seq<Entity>,
    map: GameMap,
    dx: int,
    dy: int,
    e: Entity,
)
    ensures
        steer(s, order, map, dx, dy).rows.contains_key(e) == s.rows.contains_key(e),
        s.rows.contains_key(e) ==> steer(s, order, map, dx, dy).rows[e].player
            == s.rows[e].player,
    decreases order.len(),
{
    if order.len() > 0 {
        lemma_steer_keeps_players(s, order.drop_last(), map, dx, dy, e);
    }
}

/// The first entity listed in `content` that has stats.
fn find_foe(ecs: &World, content: &Vec<Entity>) -> (foe: Option<Entity>)
    requires
        world_ready(*ecs),
    ensures
        foe == foe_among(content@, world_rows(*ecs)),
{
    let mut k: usize = 0;
    assert(content@.take(0) =~= Seq::empty());
    while k < content.len()
        invariant
            k <= content@.len(),
            world_ready(*ecs),
            foe_among(content@.take(k as int), world_rows(*ecs)) is None,
        decreases content@.len() - k,
    {
        assert(content@.take(k + 1).drop_last() =~= content@.take(k as int));
        let candidate = content[k];
        if fetch::<CombatStats>(ecs, candidate).is_some() {
            proof {
                lemma_foe_stays(content@, k + 1, world_rows(*ecs));
            }
            return Some(candidate);
        }
        k = k + 1;
    }
    assert(content@.take(k as int) =~= content@);
    None
}

/// A foe found among the first `k` entities of `content` is the foe found
/// among all of them.
proof fn lemma_foe_stays(content: Seq<Entity>, k: int, rows: Map<Entity, Row>)
    requires
        0 <= k <= content.len(),
        foe_among(content.take(k), rows) is Some,
    ensures
        foe_among(content, rows) == foe_among(content.take(k), rows),
    decreases content.len() - k,
{
    if k < content.len() {
        assert(content.take(k + 1).drop_last() =~= content.take(k));
        lemma_foe_stays(content, k + 1, rows);
    } else {
        assert(content.take(k) =~= content);
    }
}

/// Tries to move every steered entity by `delta_x` and `delta_y`. The step
/// becomes a wish to hit where an entity with stats is listed on the tile
/// stepped onto; it is taken where nothing blocks that tile; the player's
/// place follows the step taken.
pub fn try_move_player(
    delta_x: i32,
    delta_y: i32,
    ecs: &mut World,
    map: &GameMap,
    player_pos: &mut Point,
)
    requires
        world_ready(*old(ecs)),
        map.wf(),
    ensures
        world_ready(*final(ecs)),
        world_order(*final(ecs)) == world_order(*old(ecs)),
        world_doomed(*final(ecs)) == world_doomed(*old(ecs)),
        world_rows(*final(ecs)) == steer(
            (Steering { rows: world_rows(*old(ecs)), player_pos: *old(player_pos), stopped: false }),
            world_order(*old(ecs)),
            *map,
            delta_x as int,
            delta_y as int,
        ).rows,
        *final(player_pos) == steer(
            (Steering { rows: world_rows(*old(ecs)), player_pos: *old(player_pos), stopped: false }),
            world_order(*old(ecs)),
            *map,
            delta_x as int,
            delta_y as int,
        ).player_pos,
{
    let ents = live_entities(ecs);
    let ghost start = Steering {
        rows: world_rows(*ecs),
        player_pos: *player_pos,
        stopped: false,
    };
    let ghost dx = delta_x as int;
    let ghost dy = delta_y as int;
    let mut stopped = false;
    let mut i: usize = 0;
    assert(ents@.take(0) =~= Seq::empty());
    while i < ents.len()
        invariant
            i <= ents@.len(),
            world_ready(*ecs),
            map.wf(),
            world_order(*ecs) == world_order(*old(ecs)),
            world_doomed(*ecs) == world_doomed(*old(ecs)),
            ents@ == world_order(*old(ecs)),
            dx == delta_x,
            dy == delta_y,
            start == (Steering {
                rows: world_rows(*old(ecs)),
                player_pos: *old(player_pos),
                stopped: false,
            }),
            forall|e: Entity| ents@.contains(e) <==> world_rows(*ecs).contains_key(e),
            steer(start, ents@.take(i as int), *map, dx, dy) == (Steering {
                rows: world_rows(*ecs),
                player_pos: *player_pos,
                stopped,
            }),
        decreases ents@.len() - i,
    {
        let entity = ents[i];
        assert(ents@.contains(entity));
        assert(ents@.take(i + 1).drop_last() =~= ents@.take(i as int));
        assert(ents@.take(i + 1).last() == entity);
        if !stopped {
            if let Some(viewshed) = fetch::<ViewShed>(ecs, entity) {
                if fetch::<Player>(ecs, entity).is_some() {
                    if let Some(pos) = fetch::<Position>(ecs, entity) {
                        let x: i64 = pos.x as i64 + delta_x as i64;
                        let y: i64 = pos.y as i64 + delta_y as i64;
                        if x < 1 || x > map.width as i64 - 1 || y < 1 || y > map.height as i64 - 1 {
                            stopped = true;
                        } else {
                            proof {
                                lemma_cell_in_grid(
                                    map.width as int,
                                    map.height as int,
                                    x as int,
                                    y as int,
                                );
                            }
                            let dest_idx = map.xy_idx(x as i32, y as i32);
                            match find_foe(ecs, &map.tile_content[dest_idx]) {
                                Some(foe) => {
                                    MonsterAI::attack(ecs, entity, foe);
                                    stopped = true;
                                },
                                None => {
                                    if !map.blocked[dest_idx] {
                                        let to = Position {
                                            x: hold(x, WIDTH as i64 - 1),
                                            y: hold(y, HEIGHT as i64 - 1),
                                        };
                                        store(ecs, entity, to);
                                        store(
                                            ecs,
                                            entity,
                                            ViewShed {
                                                visible_tiles: viewshed.visible_tiles,
                                                range: viewshed.range,
                                                dirty: true,
                                            },
                                        );
                                        player_pos.x = to.x;
                                        player_pos.y = to.y;
                                        assert(world_rows(*ecs) =~= steer(
                                            start,
                                            ents@.take(i + 1),
                                            *map,
                                            dx,
                                            dy,
                                        ).rows);
                                    }
                                },
                            }
                        }
                    }
                }
            }
        }
        i = i + 1;
    }
    assert(ents@.take(i as int) =~= ents@);
}

/// Acts on `key` while input is awaited, and says which phase comes next:
/// the player's turn after a key that stands for a direction, in which the
/// player was steered; more waiting after any other key or none.
pub fn player_input(gs: &mut State, key: Option<VirtualKeyCode>) -> (next: RunState)
    requires
        old(gs).wf(),
    ensures
        final(gs).wf(),
        next == if key_delta(key) is Some {
            RunState::PlayerTurn
        } else {
            RunState::AwaitingInput
        },
        (State { run_state: next, ..*final(gs) }).steered(*old(gs), key),
        final(gs).run_state == old(gs).run_state,
        final(gs).keeps_players(*old(gs)),
{
    let delta: (i32, i32) = match key {
        None => {
            return RunState::AwaitingInput;
        },
        Some(k) => match k {
            VirtualKeyCode::Left | VirtualKeyCode::H | VirtualKeyCode::Numpad4
            | VirtualKeyCode::Key4 => (-1, 0),
            VirtualKeyCode::Right | VirtualKeyCode::L | VirtualKeyCode::Numpad6
            | VirtualKeyCode::Key6 => (1, 0),
            VirtualKeyCode::Up | VirtualKeyCode::K | VirtualKeyCode::Numpad8
            | VirtualKeyCode::Key8 => (0, -1),
            VirtualKeyCode::Down | VirtualKeyCode::J | VirtualKeyCode::Numpad2
            | VirtualKeyCode::Key2 => (0, 1),
            VirtualKeyCode::Key9 | VirtualKeyCode::Numpad9 | VirtualKeyCode::U => (1, -1),
            VirtualKeyCode::Key7 | VirtualKeyCode::Numpad7 | VirtualKeyCode::Y => (-1, -1),
            VirtualKeyCode::Key3 | VirtualKeyCode::Numpad3 | VirtualKeyCode::N => (1, 1),
            VirtualKeyCode::Key1 | VirtualKeyCode::Numpad1 | VirtualKeyCode::B => (-1, 1),
            _ => {
                return RunState::AwaitingInput;
            },
        },
    };
    try_move_player(delta.0, delta.1, &mut gs.ecs, &gs.map, &mut gs.player_pos);
    proof {
        let start = Steering {
            rows: world_rows(old(gs).ecs),
            player_pos: old(gs).player_pos,
            stopped: false,
        };
        assert forall|e: Entity|
            world_rows(gs.ecs).contains_key(e) && (#[trigger] world_rows(
                gs.ecs,
            )[e]).player is Some implies !world_doomed(gs.ecs).contains(e) by {
            lemma_steer_keeps_players(
                start,
                world_order(old(gs).ecs),
                gs.map,
                delta.0 as int,
                delta.1 as int,
                e,
            );
        }
        assert forall|e: Entity|
            world_rows(old(gs).ecs).contains_key(e) && (#[trigger] world_rows(
                old(gs).ecs,
            )[e]).player is Some implies world_rows(gs.ecs).contains_key(e) && world_rows(
            gs.ecs,
        )[e].player is Some by {
            lemma_steer_keeps_players(
                start,
                world_order(old(gs).ecs),
                gs.map,
                delta.0 as int,
                delta.1 as int,
                e,
            );
        }
    }
    RunState::PlayerTurn
}

/// `v`, held between 0 and `hi`.
fn hold(v: i64, hi: i64) -> (r: i32)
    requires
        0 <= hi <= i32::MAX,
    ensures
        r == held(v as int, 0, hi as int),
{
    if v < 0 {
        0
    } else if v > hi {
        hi as i32
    } else {
        v as i32
    }
}

} // verus!
