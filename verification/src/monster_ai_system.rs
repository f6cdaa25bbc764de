//! Monsters: each one next to the player wishes to hit it, and each one that
//! sees the player from farther off takes a step toward it along a route
//! that the caller has searched.

use crate::component::{Monster, Name, Position, Sight, ViewShed, WantsToMelee};
use crate::map::{cell, col_of, lemma_cell_in_grid, lemma_index_roundtrip, row_of, GameMap};
use crate::state::RunState;
use crate::store::{
    fetch, row_or_blank, store, world_doomed, world_order, world_ready, world_rows, Row,
};
use rltk::Point;
use specs::{Entity, World};
use vstd::prelude::*;

verus! {

/// The system that moves the monsters. They act one after the other over
/// the same index: a step blocks its tile at once for those that come
/// later, and the tile left is not freed before the index is built again,
/// so the order in which the monsters act shows in where they end up.
pub struct MonsterAI {}

/// What a monster does with its turn.
#[derive(Clone, Copy, Debug)]
pub enum Plan {
    /// Nothing.
    Idle,
    /// It wishes to hit the player.
    Attack,
    /// It wants a route from the tile at `start`, where it stands, to the
    /// tile at `goal`, where the player stands.
    Chase { start: usize, goal: usize },
}

/// Whether two tiles are less than one and a half tiles apart, measured in
/// a straight line: the same tile, or neighbours by an edge or a corner.
pub open spec fn adjacent(ax: int, ay: int, bx: int, by: int) -> bool {
    4 * ((ax - bx) * (ax - bx) + (ay - by) * (ay - by)) < 9
}

/// What the entity of `row` does with its turn on a grid of `width` by
/// `height` when the player stands at `player_pos`. Only a monster with a
/// position, a view and a name acts. Next to the player it attacks; farther
/// off it gives chase if it has the player's tile in view and both stand on
/// the grid.
pub open spec fn plan_of(row: Row, width: int, height: int, player_pos: Point) -> Plan {
    match (row.monster, row.position, row.viewshed, row.name) {
        (Some(_), Some(p), Some(v), Some(_)) => if adjacent(
            p.x as int,
            p.y as int,
            player_pos.x as int,
            player_pos.y as int,
        ) {
            Plan::Attack
        } else if v.visible_tiles.contains(player_pos) && 0 <= p.x < width && 0 <= p.y < height
            && 0 <= player_pos.x < width && 0 <= player_pos.y < height {
            Plan::Chase {
                start: cell(width, p.x as int, p.y as int) as usize,
                goal: cell(width, player_pos.x as int, player_pos.y as int) as usize,
            }
        } else {
            Plan::Idle
        },
        _ => Plan::Idle,
    }
}

/// The tile that a monster steps onto when its search gave `success` and
/// `steps`: the second tile of a route that was found, if it is a tile of
/// the grid that nothing blocks.
pub open spec fn next_tile(map: GameMap, success: bool, steps: Seq<usize>) -> Option<usize> {
    if success && steps.len() > 1 && steps[1] < map.blocked@.len() && !map.blocked@[steps[1] as int] {
        Some(steps[1])
    } else {
        None
    }
}

/// `row` after a step onto the tile at `idx` of a grid `width` wide: the
/// entity stands there and its view is marked dirty.
pub open spec fn moved_to(row: Row, width: int, idx: int) -> Row {
    Row {
        position: Some(Position { x: col_of(width, idx) as i32, y: row_of(width, idx) as i32 }),
        viewshed: Some(Sight { dirty: true, ..row.viewshed.unwrap() }),
        ..row
    }
}

/// Whether the entity of `row` can take a step: it has a position and a view.
pub open spec fn can_step(row: Row) -> bool {
    row.position is Some && row.viewshed is Some
}

/// A route that a monster asks for: from the tile at `start`, where it
/// stands, to the tile at `goal`.
#[derive(Clone, Copy, Debug)]
pub struct PathRequest {
    pub monster: Entity,
    pub start: usize,
    pub goal: usize,
}

/// How far the monsters' pass has come: the rows as they stand and the
/// place in the queue where the pass stopped.
pub struct March {
    pub rows: Map<Entity, Row>,
    pub stop: int,
}

/// `row` with the wish to hit `target`.
pub open spec fn wishing(row: Row, target: Entity) -> Row {
    Row { wants_to_melee: Some(WantsToMelee { target }), ..row }
}

/// The monsters' pass over `queue` from place `from` on: each entity in
/// turn does nothing or notes its wish to hit `player`, up to the first that
/// gives chase. There the pass stops, or at the end of the queue.
pub open spec fn march(
    rows: Map<Entity, Row>,
    queue: Seq<Entity>,
    from: int,
    width: int,
    height: int,
    player_pos: Point,
    player: Entity,
) -> March
    decreases queue.len() - from,
{
    if from < 0 || from >= queue.len() {
        March { rows, stop: queue.len() as int }
    } else {
        match plan_of(row_or_blank(rows, queue[from]), width, height, player_pos) {
            Plan::Chase { .. } => March { rows, stop: from },
            Plan::Attack => march(
                rows.insert(queue[from], wishing(rows[queue[from]], player)),
                queue,
                from + 1,
                width,
                height,
                player_pos,
                player,
            ),
            Plan::Idle => march(rows, queue, from + 1, width, height, player_pos, player),
        }
    }
}

/// The monsters' pass in phase `run_state`: the march in the monsters'
/// turn, and nothing at all in any other phase.
pub open spec fn pass(
    rows: Map<Entity, Row>,
    queue: Seq<Entity>,
    from: int,
    width: int,
    height: int,
    player_pos: Point,
    player: Entity,
    run_state: RunState,
) -> March {
    if run_state == RunState::MonsterTurn {
        march(rows, queue, from, width, height, player_pos, player)
    } else {
        March { rows, stop: queue.len() as int }
    }
}

/// The route that the entity at place `at` of `queue` asks for, if it gives
/// chase.
pub open spec fn request_at(
    rows: Map<Entity, Row>,
    queue: Seq<Entity>,
    at: int,
    width: int,
    height: int,
    player_pos: Point,
) -> Option<PathRequest> {
    if 0 <= at < queue.len() {
        match plan_of(row_or_blank(rows, queue[at]), width, height, player_pos) {
            Plan::Chase { start, goal } => Some(PathRequest { monster: queue[at], start, goal }),
            _ => None,
        }
    } else {
        None
    }
}

/// The monsters' pass changes no entity but for its wish to hit, and
/// neither makes nor loses one.
pub proof fn lemma_march_keeps_rows(
    rows: Map<Entity, Row>,
    queue: Seq<Entity>,
    from: int,
    width: int,
    height: int,
    player_pos: Point,
    player: Entity,
    e: Entity,
)
    ensures
        ({
            let went = march(rows, queue, from, width, height, player_pos, player).rows;
            &&& went.contains_key(e) == rows.contains_key(e)
            &&& went.contains_key(e) ==> went[e] == (Row {
                wants_to_melee: went[e].wants_to_melee,
                ..rows[e]
            })
        }),
    decreases queue.len() - from,
{
    if 0 <= from < queue.len() {
        let acting = queue[from];
        match plan_of(row_or_blank(rows, acting), width, height, player_pos) {
            Plan::Chase { .. } => {},
            Plan::Attack => {
                lemma_march_keeps_rows(
                    rows.insert(acting, wishing(rows[acting], player)),
                    queue,
                    from + 1,
                    width,
                    height,
                    player_pos,
                    player,
                    e,
                );
            },
            Plan::Idle => {
                lemma_march_keeps_rows(rows, queue, from + 1, width, height, player_pos, player, e);
            },
        }
    }
}

/// The monsters' pass changes no entity but for its wish to hit, and
/// neither makes nor loses one, whatever the phase.
pub proof fn lemma_pass_keeps_rows(
    rows: Map<Entity, Row>,
    queue: Seq<Entity>,
    from: int,
    width: int,
    height: int,
    player_pos: Point,
    player: Entity,
    run_state: RunState,
    e: Entity,
)
    ensures
        ({
            let went = pass(rows, queue, from, width, height, player_pos, player, run_state).rows;
            &&& went.contains_key(e) == rows.contains_key(e)
            &&& went.contains_key(e) ==> went[e] == (Row {
                wants_to_melee: went[e].wants_to_melee,
                ..rows[e]
            })
        }),
{
    lemma_march_keeps_rows(rows, queue, from, width, height, player_pos, player, e);
}

/// Whether two tiles are less than one and a half tiles apart.
pub fn is_adjacent(ax: i32, ay: i32, bx: i32, by: i32) -> (r: bool)
    ensures
        r == adjacent(ax as int, ay as int, bx as int, by as int),
{
    let dx: i64 = ax as i64 - bx as i64;
    let dy: i64 = ay as i64 - by as i64;
    let near = -1 <= dx && dx <= 1 && -1 <= dy && dy <= 1;
    proof {
        let sx = dx as int * dx as int;
        let sy = dy as int * dy as int;
        assert(sx >= 0 && sy >= 0) by (nonlinear_arith)
            requires
                sx == dx as int * dx as int,
                sy == dy as int * dy as int,
        ;
        assert(-1 <= dx <= 1 ==> sx <= 1) by (nonlinear_arith)
            requires
                sx == dx as int * dx as int,
        ;
        assert(-1 <= dy <= 1 ==> sy <= 1) by (nonlinear_arith)
            requires
                sy == dy as int * dy as int,
        ;
        assert(!(-1 <= dx <= 1) ==> sx >= 4) by (nonlinear_arith)
            requires
                sx == dx as int * dx as int,
        ;
        assert(!(-1 <= dy <= 1) ==> sy >= 4) by (nonlinear_arith)
            requires
                sy == dy as int * dy as int,
        ;
    }
    near
}

impl MonsterAI {
    /// What `ent` does with its turn when the player stands at `player_pos`.
    pub fn decide(ecs: &World, map: &GameMap, player_pos: Point, ent: Entity) -> (plan: Plan)
        requires
            world_ready(*ecs),
            map.wf(),
        ensures
            plan == plan_of(
                row_or_blank(world_rows(*ecs), ent),
                map.width as int,
                map.height as int,
                player_pos,
            ),
    {
        if fetch::<Monster>(ecs, ent).is_none() || fetch::<Name>(ecs, ent).is_none() {
            return Plan::Idle;
        }
        let pos = match fetch::<Position>(ecs, ent) {
            Some(pos) => pos,
            None => {
                return Plan::Idle;
            },
        };
        let viewshed = match fetch::<ViewShed>(ecs, ent) {
            Some(viewshed) => viewshed,
            None => {
                return Plan::Idle;
            },
        };
        if is_adjacent(pos.x, pos.y, player_pos.x, player_pos.y) {
            return Plan::Attack;
        }
        let on_grid = 0 <= pos.x && pos.x < map.width && 0 <= pos.y && pos.y < map.height && 0
            <= player_pos.x && player_pos.x < map.width && 0 <= player_pos.y && player_pos.y
            < map.height;
        if on_grid && viewshed.sees(player_pos.x, player_pos.y) {
            proof {
                lemma_cell_in_grid(
                    map.width as int,
                    map.height as int,
                    pos.x as int,
                    pos.y as int,
                );
                lemma_cell_in_grid(
                    map.width as int,
                    map.height as int,
                    player_pos.x as int,
                    player_pos.y as int,
                );
            }
            Plan::Chase {
                start: map.xy_idx(pos.x, pos.y),
                goal: map.xy_idx(player_pos.x, player_pos.y),
            }
        } else {
            Plan::Idle
        }
    }

    /// Runs the monsters' pass over `queue` from place `from` on. Outside
    /// the monsters' turn nothing is done. In it, each entity in turn does
    /// nothing or notes its wish to hit `player`, up to the first that gives
    /// chase: there the pass stops and asks for that monster's route, to be
    /// taken up after `follow` at the next place. Returned are the place
    /// where the pass stopped, the length of the queue if it got through,
    /// and the route asked for.
    pub fn run(
        &mut self,
        ecs: &mut World,
        map: &GameMap,
        player_pos: Point,
        player: Entity,
        run_state: RunState,
        queue: &Vec<Entity>,
        from: usize,
    ) -> (r: (usize, Option<PathRequest>))
        requires
            world_ready(*old(ecs)),
            map.wf(),
            from <= queue@.len(),
        ensures
            world_ready(*final(ecs)),
            world_order(*final(ecs)) == world_order(*old(ecs)),
            world_doomed(*final(ecs)) == world_doomed(*old(ecs)),
            world_rows(*final(ecs)) == pass(
                world_rows(*old(ecs)),
                queue@,
                from as int,
                map.width as int,
                map.height as int,
                player_pos,
                player,
                run_state,
            ).rows,
            r.0 == pass(
                world_rows(*old(ecs)),
                queue@,
                from as int,
                map.width as int,
                map.height as int,
                player_pos,
                player,
                run_state,
            ).stop,
            r.1 == request_at(
                world_rows(*final(ecs)),
                queue@,
                r.0 as int,
                map.width as int,
                map.height as int,
                player_pos,
            ),
            r.1 is Some <==> r.0 < queue@.len(),
            from <= r.0 <= queue@.len(),
            run_state != RunState::MonsterTurn ==> r.1 is None && world_rows(*final(ecs))
                == world_rows(*old(ecs)),
    {
        match run_state {
            RunState::MonsterTurn => {},
            _ => {
                return (queue.len(), None);
            },
        }
        let ghost rows0 = world_rows(*ecs);
        let mut at: usize = from;
        while at < queue.len()
            invariant
                world_ready(*ecs),
                map.wf(),
                run_state == RunState::MonsterTurn,
                rows0 == world_rows(*old(ecs)),
                from <= at <= queue@.len(),
                world_order(*ecs) == world_order(*old(ecs)),
                world_doomed(*ecs) == world_doomed(*old(ecs)),
                march(
                    rows0,
                    queue@,
                    from as int,
                    map.width as int,
                    map.height as int,
                    player_pos,
                    player,
                ) == march(
                    world_rows(*ecs),
                    queue@,
                    at as int,
                    map.width as int,
                    map.height as int,
                    player_pos,
                    player,
                ),
            decreases queue@.len() - at,
        {
            let ent = queue[at];
            match MonsterAI::decide(ecs, map, player_pos, ent) {
                Plan::Chase { start, goal } => {
                    return (at, Some(PathRequest { monster: ent, start, goal }));
                },
                Plan::Attack => {
                    MonsterAI::attack(ecs, ent, player);
                },
                Plan::Idle => {},
            }
            at = at + 1;
        }
        (at, None)
    }

    /// Notes that the live entity `ent` wishes to hit `target`. A wish that
    /// `ent` had before is replaced.
    pub fn attack(ecs: &mut World, ent: Entity, target: Entity)
        requires
            world_ready(*old(ecs)),
            world_rows(*old(ecs)).contains_key(ent),
        ensures
            world_ready(*final(ecs)),
            world_rows(*final(ecs)) == world_rows(*old(ecs)).insert(
                ent,
                (Row {
                    wants_to_melee: Some(WantsToMelee { target }),
                    ..world_rows(*old(ecs))[ent]
                }),
            ),
            world_order(*final(ecs)) == world_order(*old(ecs)),
            world_doomed(*final(ecs)) == world_doomed(*old(ecs)),
    {
        store(ecs, ent, WantsToMelee { target });
    }

    /// Moves `ent` one step along the route that its search gave. The step
    /// is taken only if a route was found, its second tile is a tile of the
    /// grid that nothing blocks, and `ent` has a position and a view. The
    /// tile stepped onto is blocked from then on; the tile left stays as it
    /// was until the index is built again.
    pub fn follow(ecs: &mut World, map: &mut GameMap, ent: Entity, success: bool, steps: &Vec<usize>)
        requires
            world_ready(*old(ecs)),
            old(map).wf(),
        ensures
            world_ready(*final(ecs)),
            world_order(*final(ecs)) == world_order(*old(ecs)),
            world_doomed(*final(ecs)) == world_doomed(*old(ecs)),
            final(map).wf(),
            final(map).tiles == old(map).tiles,
            final(map).rooms == old(map).rooms,
            final(map).width == old(map).width,
            final(map).height == old(map).height,
            final(map).revealed_tiles == old(map).revealed_tiles,
            final(map).tile_content == old(map).tile_content,
            match next_tile(*old(map), success, steps@) {
                Some(idx) if can_step(row_or_blank(world_rows(*old(ecs)), ent)) => {
                    &&& world_rows(*final(ecs)) == world_rows(*old(ecs)).insert(
                        ent,
                        moved_to(world_rows(*old(ecs))[ent], old(map).width as int, idx as int),
                    )
                    &&& final(map).blocked@ == old(map).blocked@.update(idx as int, true)
                },
                _ => {
                    &&& world_rows(*final(ecs)) == world_rows(*old(ecs))
                    &&& final(map).blocked@ == old(map).blocked@
                },
            },
    {
        if !success || steps.len() <= 1 {
            return ;
        }
        let idx = steps[1];
        if idx >= map.blocked.len() || map.blocked[idx] {
            return ;
        }
        let viewshed = match fetch::<ViewShed>(ecs, ent) {
            Some(viewshed) => viewshed,
            None => {
                return ;
            },
        };
        if fetch::<Position>(ecs, ent).is_none() {
            return ;
        }
        proof {
            lemma_index_roundtrip(map.width as int, map.height as int, idx as int);
        }
        let (x, y) = map.idx_xy(idx);
        store(ecs, ent, Position { x, y });
        store(
            ecs,
            ent,
            ViewShed { visible_tiles: viewshed.visible_tiles, range: viewshed.range, dirty: true },
        );
        map.blocked.set(idx, true);
        assert(world_rows(*ecs) =~= world_rows(*old(ecs)).insert(
            ent,
            moved_to(world_rows(*old(ecs))[ent], old(map).width as int, idx as int),
        ));
    }
}

} // verus!
