//! The spatial index: which tiles are blocked, and who stands on each tile.

use crate::component::{BlocksTile, Position};
use crate::map::{cell, lemma_cell_in_grid, GameMap, TileType};
use crate::store::{fetch, live_entities, row_or_blank, world_order, world_ready, world_rows, Row};
use specs::{Entity, World};
use vstd::prelude::*;

verus! {

/// The system that builds the index of the dungeon.
pub struct MapIndexingSystem {}

/// Whether the entity of `row` stands on the tile at `idx` of a grid
/// `width` wide and `height` high. An entity without a position, or with one
/// outside the grid, stands on no tile.
pub open spec fn stands_on(row: Row, width: int, height: int, idx: int) -> bool {
    match row.position {
        Some(p) => 0 <= p.x < width && 0 <= p.y < height && cell(width, p.x as int, p.y as int)
            == idx,
        None => false,
    }
}

/// Whether the entity of `row` stands on the tile at `idx` and blocks it.
pub open spec fn holds_tile(row: Row, width: int, height: int, idx: int) -> bool {
    stands_on(row, width, height, idx) && row.blocks_tile is Some
}

/// Whether the tile at `idx` is a wall or is held by an entity of `rows`.
pub open spec fn obstructed(
    tiles: Seq<TileType>,
    rows: Map<Entity, Row>,
    width: int,
    height: int,
    idx: int,
) -> bool {
    tiles[idx] == TileType::Wall || exists|e: Entity|
        rows.contains_key(e) && holds_tile(#[trigger] rows[e], width, height, idx)
}

/// The entities of `order` that stand on the tile at `idx`, in that order.
pub open spec fn occupants(
    order: Seq<Entity>,
    rows: Map<Entity, Row>,
    width: int,
    height: int,
    idx: int,
) -> Seq<Entity>
    decreases order.len(),
{
    if order.len() == 0 {
        Seq::empty()
    } else {
        let earlier = occupants(order.drop_last(), rows, width, height, idx);
        if stands_on(row_or_blank(rows, order.last()), width, height, idx) {
            earlier.push(order.last())
        } else {
            earlier
        }
    }
}

/// Whether the index of `map` is that of the entities of `rows`, visited in
/// `order`: a tile is blocked exactly if it is a wall or an entity that
/// blocks stands on it, and the occupants of a tile are exactly the
/// entities that stand on it.
pub open spec fn indexed(map: GameMap, rows: Map<Entity, Row>, order: Seq<Entity>) -> bool {
    &&& forall|i: int|
        0 <= i < map.blocked@.len() ==> #[trigger] map.blocked@[i] == obstructed(
            map.tiles@,
            rows,
            map.width as int,
            map.height as int,
            i,
        )
    &&& forall|i: int|
        0 <= i < map.tile_content@.len() ==> (#[trigger] map.tile_content@[i])@ == occupants(
            order,
            rows,
            map.width as int,
            map.height as int,
            i,
        )
}

impl MapIndexingSystem {
    /// Builds the index of `map` afresh from the walls and from where the
    /// entities stand now.
    pub fn run(&mut self, ecs: &World, map: &mut GameMap)
        requires
            world_ready(*ecs),
            old(map).wf(),
        ensures
            final(map).wf(),
            final(map).tiles == old(map).tiles,
            final(map).rooms == old(map).rooms,
            final(map).width == old(map).width,
            final(map).height == old(map).height,
            final(map).revealed_tiles == old(map).revealed_tiles,
            indexed(*final(map), world_rows(*ecs), world_order(*ecs)),
    {
        map.populates_blocked();
        map.clear_all_content();
        let ents = live_entities(ecs);
        let ghost rows = world_rows(*ecs);
        let ghost w = map.width as int;
        let ghost h = map.height as int;
        let mut i: usize = 0;
        assert(ents@.take(0) =~= Seq::empty());
        while i < ents.len()
            invariant
                i <= ents@.len(),
                world_ready(*ecs),
                rows == world_rows(*ecs),
                ents@ == world_order(*ecs),
                forall|e: Entity| ents@.contains(e) <==> rows.contains_key(e),
                map.wf(),
                w == map.width,
                h == map.height,
                map.tiles == old(map).tiles,
                map.rooms == old(map).rooms,
                map.width == old(map).width,
                map.height == old(map).height,
                map.revealed_tiles == old(map).revealed_tiles,
                forall|j: int|
                    0 <= j < map.blocked@.len() && map.tiles@[j] == TileType::Wall
                        ==> #[trigger] map.blocked@[j],
                forall|j: int|
                    0 <= j < map.blocked@.len() && #[trigger] map.blocked@[j] ==> obstructed(
                        map.tiles@,
                        rows,
                        w,
                        h,
                        j,
                    ),
                forall|k: int, j: int|
                    0 <= k < i && 0 <= j < map.blocked@.len() && holds_tile(
                        rows[#[trigger] ents@[k]],
                        w,
                        h,
                        j,
                    ) ==> #[trigger] map.blocked@[j],
                forall|j: int|
                    0 <= j < map.tile_content@.len() ==> (#[trigger] map.tile_content@[j])@
                        == occupants(ents@.take(i as int), rows, w, h, j),
            decreases ents@.len() - i,
        {
            let ent = ents[i];
            assert(ents@.contains(ent));
            let ghost done = ents@.take(i as int);
            let ghost next = ents@.take(i + 1);
            assert(next.drop_last() =~= done);
            assert(next.last() == ent);
            let ghost content0 = map.tile_content@;
            let mut spot: Option<usize> = None;
            if let Some(position) = fetch::<Position>(ecs, ent) {
                if 0 <= position.x && position.x < map.width && 0 <= position.y && position.y
                    < map.height {
                    proof {
                        lemma_cell_in_grid(w, h, position.x as int, position.y as int);
                    }
                    let idx = map.xy_idx(position.x, position.y);
                    if fetch::<BlocksTile>(ecs, ent).is_some() {
                        map.blocked.set(idx, true);
                        assert(holds_tile(rows[ent], w, h, idx as int));
                    }
                    map.tile_content[idx].push(ent);
                    spot = Some(idx);
                }
            }
            assert forall|j: int|
                0 <= j < map.tile_content@.len() implies (#[trigger] map.tile_content@[j])@
                == occupants(next, rows, w, h, j) by {
                assert(content0[j]@ == occupants(done, rows, w, h, j));
                if spot == Some(j as usize) {
                    assert(stands_on(rows[ent], w, h, j));
                } else {
                    assert(!stands_on(rows[ent], w, h, j));
                    assert(map.tile_content@[j] == content0[j]);
                }
            }
            i = i + 1;
        }
        assert(ents@.take(i as int) =~= ents@);
        assert forall|j: int| 0 <= j < map.blocked@.len() implies #[trigger] map.blocked@[j]
            == obstructed(map.tiles@, rows, w, h, j) by {
            if obstructed(map.tiles@, rows, w, h, j) && map.tiles@[j] != TileType::Wall {
                let e = choose|e: Entity|
                    rows.contains_key(e) && holds_tile(#[trigger] rows[e], w, h, j);
                let k = choose|k: int| 0 <= k < ents@.len() && ents@[k] == e;
                assert(holds_tile(rows[ents@[k]], w, h, j));
            }
        }
    }
}

} // verus!
