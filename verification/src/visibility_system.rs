//! Visibility: what each viewer sees, and which tiles the player has seen.

use crate::component::{Player, Position, ViewShed};
use crate::map::{cell, lemma_cell_in_grid, GameMap, TileType};
use crate::store::{
    fetch, live_entities, store, world_doomed, world_order, world_ready, world_rows, Row,
};
use rltk::Point;
use specs::{Entity, World};
use vstd::prelude::*;

verus! {

/// The system that lets the viewers look around.
pub struct VisibilitySystem {}

/// The farthest that a viewer can look. The search squares twice the range
/// in an `i32`.
pub const SIGHT_LIMIT: i32 = 23170;

/// The tiles in view from column `x` of row `y`, looking `range` tiles far
/// over a grid of `width` by `height` whose walls are those of `tiles`, as
/// the shadow casting of the `rltk` crate finds them.
pub uninterp spec fn visible_from(
    x: int,
    y: int,
    range: int,
    width: int,
    height: int,
    tiles: Seq<TileType>,
) -> Set<Point>;

/// Whether a viewer at `p` can look `range` far over `map`: it stands on
/// the grid and its range is one that the search can take.
pub open spec fn can_look(p: Position, range: i32, map: GameMap) -> bool {
    &&& map.in_bounds(p.x as int, p.y as int)
    &&& 0 <= range <= SIGHT_LIMIT
    &&& p.x + range <= i32::MAX
    &&& p.y + range <= i32::MAX
}

/// Whether the entity of `row` looks around this turn: it has a position
/// and a view that is marked dirty, and it can look.
pub open spec fn looks(row: Row, map: GameMap) -> bool {
    match (row.viewshed, row.position) {
        (Some(v), Some(p)) => v.dirty && can_look(p, v.range, map),
        _ => false,
    }
}

/// What the entity of `row` has in view over `map`.
pub open spec fn in_view(row: Row, map: GameMap) -> Set<Point> {
    visible_from(
        row.position.unwrap().x as int,
        row.position.unwrap().y as int,
        row.viewshed.unwrap().range as int,
        map.width as int,
        map.height as int,
        map.tiles@,
    )
}

/// Whether `p` is at most `range` columns and at most `range` rows away
/// from `from`.
pub open spec fn in_reach(p: Point, from: Position, range: i32) -> bool {
    &&& from.x - range <= p.x <= from.x + range
    &&& from.y - range <= p.y <= from.y + range
}

/// Whether every point of `points` is a tile of `map` in reach of a viewer
/// at `from` that looks `range` far.
pub open spec fn all_in_sight(points: Seq<Point>, map: GameMap, from: Position, range: i32) -> bool {
    forall|k: int|
        0 <= k < points.len() ==> map.in_bounds(
            (#[trigger] points[k]).x as int,
            points[k].y as int,
        ) && in_reach(points[k], from, range)
}

/// Whether `after` is `before` once the entity has looked around over
/// `map`: its view holds, each once, the tiles in view, which all lie on the
/// grid and in reach, and is still marked dirty. An entity that does not
/// look is left as it was.
pub open spec fn refreshed(before: Row, after: Row, map: GameMap) -> bool {
    if looks(before, map) {
        &&& after.viewshed is Some
        &&& after == (Row { viewshed: after.viewshed, ..before })
        &&& after.viewshed.unwrap().range == before.viewshed.unwrap().range
        &&& after.viewshed.unwrap().dirty
        &&& after.viewshed.unwrap().visible_tiles.no_duplicates()
        &&& after.viewshed.unwrap().visible_tiles.to_set() == in_view(before, map)
        &&& all_in_sight(
            after.viewshed.unwrap().visible_tiles,
            map,
            before.position.unwrap(),
            before.viewshed.unwrap().range,
        )
    } else {
        after == before
    }
}

/// Whether the entity of `row` is a player that looks around and has the
/// tile at `idx` in view.
pub open spec fn shows(row: Row, map: GameMap, idx: int) -> bool {
    &&& looks(row, map)
    &&& row.player is Some
    &&& exists|p: Point|
        #[trigger] in_view(row, map).contains(p) && map.in_bounds(p.x as int, p.y as int) && cell(
            map.width as int,
            p.x as int,
            p.y as int,
        ) == idx
}

/// Whether some player of `rows` shows the tile at `idx`.
pub open spec fn lit(rows: Map<Entity, Row>, map: GameMap, idx: int) -> bool {
    exists|e: Entity| rows.contains_key(e) && shows(#[trigger] rows[e], map, idx)
}

/// Whether `after` holds the entities of `before`, each as it is once it
/// has looked around over `map`.
pub open spec fn all_refreshed(
    before: Map<Entity, Row>,
    after: Map<Entity, Row>,
    map: GameMap,
) -> bool {
    &&& forall|e: Entity| after.contains_key(e) <==> before.contains_key(e)
    &&& forall|e: Entity|
        before.contains_key(e) ==> refreshed(before[e], #[trigger] after[e], map)
}

/// Whether `revealed` marks the tiles that `map` had revealed and those
/// that a player of `rows` shows, and no others.
pub open spec fn revealed_after(rows: Map<Entity, Row>, map: GameMap, revealed: Seq<bool>) -> bool {
    &&& revealed.len() == map.revealed_tiles@.len()
    &&& forall|i: int|
        0 <= i < revealed.len() ==> #[trigger] revealed[i] == (map.revealed_tiles@[i] || lit(
            rows,
            map,
            i,
        ))
}

/// The points of `points` that lie on a grid of `width` by `height`, in the
/// same order.
pub open spec fn within(points: Seq<Point>, width: int, height: int) -> Seq<Point>
    decreases points.len(),
{
    if points.len() == 0 {
        Seq::empty()
    } else {
        let earlier = within(points.drop_last(), width, height);
        let p = points.last();
        if 0 <= p.x < width && 0 <= p.y < height {
            earlier.push(p)
        } else {
            earlier
        }
    }
}

/// Points that all lie on the grid stay as they are.
pub proof fn lemma_within_all(points: Seq<Point>, width: int, height: int)
    requires
        forall|k: int|
            0 <= k < points.len() ==> 0 <= (#[trigger] points[k]).x < width && 0 <= points[k].y
                < height,
    ensures
        within(points, width, height) == points,
    decreases points.len(),
{
    if points.len() > 0 {
        lemma_within_all(points.drop_last(), width, height);
        assert(points.drop_last().push(points.last()) =~= points);
    }
}

/// Calls `rltk::field_of_view`, which asks the map for its size and for the
/// tiles that stop the eye. Claimed: the tiles returned are those that the
/// search finds for these arguments, in no promised order, each once, all
/// on the grid, and none more than `range` columns or `range` rows from the
/// viewer. Admitted are only viewers on the grid with a range for which the
/// search's arithmetic stays within an `i32`.
#[verifier::external_body]
pub(crate) fn field_of_view(x: i32, y: i32, range: i32, map: &GameMap) -> (r: Vec<Point>)
    requires
        map.wf(),
        can_look((Position { x, y }), range, *map),
    ensures
        r@.to_set() == visible_from(
            x as int,
            y as int,
            range as int,
            map.width as int,
            map.height as int,
            map.tiles@,
        ),
        r@.no_duplicates(),
        all_in_sight(r@, *map, (Position { x, y }), range),
{
    rltk::field_of_view(Point { x, y }, range, map)
}

/// The points of `points` that lie on the grid of `map`.
pub fn keep_in_bounds(points: Vec<Point>, map: &GameMap) -> (kept: Vec<Point>)
    ensures
        kept@ == within(points@, map.width as int, map.height as int),
{
    let mut kept: Vec<Point> = Vec::new();
    let mut k: usize = 0;
    assert(points@.take(0) =~= Seq::empty());
    while k < points.len()
        invariant
            k <= points@.len(),
            kept@ == within(points@.take(k as int), map.width as int, map.height as int),
        decreases points@.len() - k,
    {
        assert(points@.take(k + 1).drop_last() =~= points@.take(k as int));
        let p = points[k];
        if p.x >= 0 && p.x < map.width && p.y >= 0 && p.y < map.height {
            kept.push(p);
        }
        k = k + 1;
    }
    assert(points@.take(k as int) =~= points@);
    kept
}

impl GameMap {
    /// Marks as revealed every tile of the grid that is among `visible`.
    /// No tile is ever unmarked.
    pub fn mark_revealed(&mut self, visible: &Vec<Point>)
        requires
            old(self).wf(),
        ensures
            final(self).wf(),
            final(self).tiles == old(self).tiles,
            final(self).rooms == old(self).rooms,
            final(self).width == old(self).width,
            final(self).height == old(self).height,
            final(self).blocked == old(self).blocked,
            final(self).tile_content == old(self).tile_content,
            forall|i: int|
                0 <= i < final(self).revealed_tiles@.len() ==> #[trigger] final(
                    self
                ).revealed_tiles@[i] == (old(self).revealed_tiles@[i] || exists|k: int|
                    0 <= k < visible@.len() && old(self).in_bounds(
                        (#[trigger] visible@[k]).x as int,
                        visible@[k].y as int,
                    ) && cell(old(self).width as int, visible@[k].x as int, visible@[k].y as int)
                        == i),
    {
        let ghost w = self.width as int;
        let ghost h = self.height as int;
        let mut k: usize = 0;
        while k < visible.len()
            invariant
                k <= visible@.len(),
                self.wf(),
                w == self.width,
                h == self.height,
                self.tiles == old(self).tiles,
                self.rooms == old(self).rooms,
                self.width == old(self).width,
                self.height == old(self).height,
                self.blocked == old(self).blocked,
                self.tile_content == old(self).tile_content,
                forall|i: int|
                    0 <= i < self.revealed_tiles@.len() ==> #[trigger] self.revealed_tiles@[i] == (
                    old(self).revealed_tiles@[i] || exists|j: int|
                        0 <= j < k && old(self).in_bounds(
                            (#[trigger] visible@[j]).x as int,
                            visible@[j].y as int,
                        ) && cell(w, visible@[j].x as int, visible@[j].y as int) == i),
            decreases visible@.len() - k,
        {
            let p = visible[k];
            if p.x >= 0 && p.x < self.width && p.y >= 0 && p.y < self.height {
                proof {
                    lemma_cell_in_grid(w, h, p.x as int, p.y as int);
                }
                let idx = self.xy_idx(p.x, p.y);
                self.revealed_tiles.set(idx, true);
            }
            k = k + 1;
        }
    }
}

impl VisibilitySystem {
    /// Lets every entity with a position and a dirty view look around, and
    /// marks as revealed the tiles that a player has in view.
    pub fn run(&mut self, ecs: &mut World, map: &mut GameMap)
        requires
            world_ready(*old(ecs)),
            old(map).wf(),
        ensures
            world_ready(*final(ecs)),
            world_order(*final(ecs)) == world_order(*old(ecs)),
            world_doomed(*final(ecs)) == world_doomed(*old(ecs)),
            all_refreshed(world_rows(*old(ecs)), world_rows(*final(ecs)), *old(map)),
            final(map).wf(),
            final(map).tiles == old(map).tiles,
            final(map).rooms == old(map).rooms,
            final(map).width == old(map).width,
            final(map).height == old(map).height,
            final(map).blocked == old(map).blocked,
            final(map).tile_content == old(map).tile_content,
            revealed_after(world_rows(*old(ecs)), *old(map), final(map).revealed_tiles@),
    {
        let ents = live_entities(ecs);
        let ghost rows0 = world_rows(*ecs);
        let ghost map0 = *map;
        let mut i: usize = 0;
        while i < ents.len()
            invariant
                i <= ents@.len(),
                world_ready(*ecs),
                world_order(*ecs) == world_order(*old(ecs)),
                world_doomed(*ecs) == world_doomed(*old(ecs)),
                rows0 == world_rows(*old(ecs)),
                map0 == *old(map),
                ents@.no_duplicates(),
                forall|e: Entity| ents@.contains(e) <==> rows0.contains_key(e),
                forall|e: Entity| world_rows(*ecs).contains_key(e) <==> rows0.contains_key(e),
                forall|k: int|
                    0 <= k < i ==> refreshed(
                        rows0[ents@[k]],
                        world_rows(*ecs)[#[trigger] ents@[k]],
                        map0,
                    ),
                forall|k: int|
                    i <= k < ents@.len() ==> world_rows(*ecs)[#[trigger] ents@[k]]
                        == rows0[ents@[k]],
                map.wf(),
                map.tiles == map0.tiles,
                map.rooms == map0.rooms,
                map.width == map0.width,
                map.height == map0.height,
                map.blocked == map0.blocked,
                map.tile_content == map0.tile_content,
                forall|j: int|
                    0 <= j < map.revealed_tiles@.len() && map0.revealed_tiles@[j]
                        ==> #[trigger] map.revealed_tiles@[j],
                forall|j: int|
                    0 <= j < map.revealed_tiles@.len() && #[trigger] map.revealed_tiles@[j]
                        ==> map0.revealed_tiles@[j] || lit(rows0, map0, j),
                forall|k: int, j: int|
                    0 <= k < i && 0 <= j < map.revealed_tiles@.len() && shows(
                        rows0[#[trigger] ents@[k]],
                        map0,
                        j,
                    ) ==> #[trigger] map.revealed_tiles@[j],
            decreases ents@.len() - i,
        {
            let ent = ents[i];
            assert(ents@.contains(ent));
            let ghost revealed1 = map.revealed_tiles@;
            if let Some(viewshed) = fetch::<ViewShed>(ecs, ent) {
                if let Some(pos) = fetch::<Position>(ecs, ent) {
                    if viewshed.dirty && 0 <= pos.x && pos.x < map.width && 0 <= pos.y && pos.y
                        < map.height && 0 <= viewshed.range && viewshed.range <= SIGHT_LIMIT
                        && pos.x as i64 + viewshed.range as i64 <= 0x7fff_ffff && pos.y as i64
                        + viewshed.range as i64 <= 0x7fff_ffff {
                        assert(looks(rows0[ent], map0));
                        let found = field_of_view(pos.x, pos.y, viewshed.range, map);
                        proof {
                            lemma_within_all(found@, map.width as int, map.height as int);
                        }
                        let visible = keep_in_bounds(found, map);
                        assert(visible@.to_set() == in_view(rows0[ent], map0));
                        if fetch::<Player>(ecs, ent).is_some() {
                            map.mark_revealed(&visible);
                        }
                        store(
                            ecs,
                            ent,
                            ViewShed { visible_tiles: visible, range: viewshed.range, dirty: true },
                        );
                        assert(refreshed(rows0[ent], world_rows(*ecs)[ent], map0));
                        proof {
                            let ghost seen = world_rows(*ecs)[ent].viewshed.unwrap().visible_tiles;
                            assert forall|j: int|
                                0 <= j < map.revealed_tiles@.len() && #[trigger] map.revealed_tiles@[j]
                                    && !revealed1[j] implies lit(rows0, map0, j) by {
                                let k = choose|k: int|
                                    0 <= k < seen.len() && map0.in_bounds(
                                        (#[trigger] seen[k]).x as int,
                                        seen[k].y as int,
                                    ) && cell(map0.width as int, seen[k].x as int, seen[k].y as int)
                                        == j;
                                assert(seen.to_set().contains(seen[k]));
                                assert(shows(rows0[ent], map0, j));
                            }
                            assert forall|j: int|
                                0 <= j < map.revealed_tiles@.len() && shows(
                                    rows0[ent],
                                    map0,
                                    j,
                                ) implies #[trigger] map.revealed_tiles@[j] by {
                                let p = choose|p: Point|
                                    #[trigger] in_view(rows0[ent], map0).contains(p)
                                        && map0.in_bounds(p.x as int, p.y as int) && cell(
                                        map0.width as int,
                                        p.x as int,
                                        p.y as int,
                                    ) == j;
                                assert(seen.to_set().contains(p));
                                let k = choose|k: int| 0 <= k < seen.len() && seen[k] == p;
                                assert(seen[k] == p);
                            }
                        }
                    }
                }
            }
            i = i + 1;
        }
        assert forall|e: Entity| rows0.contains_key(e) implies refreshed(
            rows0[e],
            #[trigger] world_rows(*ecs)[e],
            map0,
        ) by {
            let k = choose|k: int| 0 <= k < ents@.len() && ents@[k] == e;
            assert(ents@[k] == e);
        }
        assert forall|j: int| 0 <= j < map.revealed_tiles@.len() implies #[trigger] map.revealed_tiles@[j]
            == (map0.revealed_tiles@[j] || lit(rows0, map0, j)) by {
            if lit(rows0, map0, j) {
                let e = choose|e: Entity| rows0.contains_key(e) && shows(#[trigger] rows0[e], map0, j);
                let k = choose|k: int| 0 <= k < ents@.len() && ents@[k] == e;
                assert(shows(rows0[ents@[k]], map0, j));
            }
        }
    }
}

} // verus!
