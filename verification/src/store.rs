//! The entity-component store. Entities and their components live in a
//! `specs::World`; this module says what the world holds and gives the calls
//! into it their contracts.

use crate::component::{
    BlocksTile, CombatStats, Monster, Name, Player, Position, Renderable, Sight, SufferDamage,
    ViewShed, WantsToMelee,
};
use specs::{Component, Entity, Join, World, WorldExt};
use vstd::prelude::*;

verus! {

/// The world of the `specs` crate: entities, component storages, resources.
#[verifier::external_type_specification]
#[verifier::external_body]
pub struct ExWorld(World);

/// An entity handle of the `specs` crate: an index and a generation.
#[verifier::external_type_specification]
#[verifier::external_body]
pub struct ExEntity(Entity);

/// The dense storage of the `specs` crate, in which every component is kept.
#[verifier::external_type_specification]
#[verifier::external_body]
#[verifier::reject_recursive_types(T)]
pub struct ExDenseVecStorage<T>(specs::DenseVecStorage<T>);

/// The components of one entity, each as contracts see it.
pub struct Row {
    pub position: Option<Position>,
    pub renderable: Option<Renderable>,
    pub player: Option<Player>,
    pub viewshed: Option<Sight>,
    pub monster: Option<Monster>,
    pub name: Option<Seq<char>>,
    pub blocks_tile: Option<BlocksTile>,
    pub stats: Option<CombatStats>,
    pub wants_to_melee: Option<WantsToMelee>,
    pub damage: Option<Seq<i32>>,
}

impl Row {
    /// An entity without components.
    pub open spec fn blank() -> Row {
        Row {
            position: None,
            renderable: None,
            player: None,
            viewshed: None,
            monster: None,
            name: None,
            blocks_tile: None,
            stats: None,
            wants_to_melee: None,
            damage: None,
        }
    }
}

/// The live entities of a world, each with its components. An entity that
/// was deleted has no row, whatever handle to it is still around.
pub uninterp spec fn world_rows(w: World) -> Map<Entity, Row>;

/// The live entities of a world in the order in which a join visits them.
pub uninterp spec fn world_order(w: World) -> Seq<Entity>;

/// The entities of a world that were marked for deletion and are still alive.
pub uninterp spec fn world_doomed(w: World) -> Set<Entity>;

/// Whether a world is in order: it has a storage for every component of
/// this crate, it keeps no component for an entity that is not alive, and
/// no lazy update waits in it.
pub uninterp spec fn world_ready(w: World) -> bool;

/// The row of `e`, or a blank row if `e` is not alive.
pub open spec fn row_or_blank(rows: Map<Entity, Row>, e: Entity) -> Row {
    if rows.contains_key(e) {
        rows[e]
    } else {
        Row::blank()
    }
}

/// A kind of component: where a row keeps it, and how contracts see it.
pub trait Part: Sized {
    type V;

    /// The component as contracts see it.
    spec fn seen(self) -> Self::V;

    /// The component of this kind in `row`.
    spec fn read(row: Row) -> Option<Self::V>;

    /// `row` with its component of this kind set to `v`.
    spec fn write(row: Row, v: Option<Self::V>) -> Row;
}

impl Part for Position {
    type V = Position;

    open spec fn seen(self) -> Position {
        self
    }

    open spec fn read(row: Row) -> Option<Position> {
        row.position
    }

    open spec fn write(row: Row, v: Option<Position>) -> Row {
        Row { position: v, ..row }
    }
}

impl Part for Renderable {
    type V = Renderable;

    open spec fn seen(self) -> Renderable {
        self
    }

    open spec fn read(row: Row) -> Option<Renderable> {
        row.renderable
    }

    open spec fn write(row: Row, v: Option<Renderable>) -> Row {
        Row { renderable: v, ..row }
    }
}

impl Part for Player {
    type V = Player;

    open spec fn seen(self) -> Player {
        self
    }

    open spec fn read(row: Row) -> Option<Player> {
        row.player
    }

    open spec fn write(row: Row, v: Option<Player>) -> Row {
        Row { player: v, ..row }
    }
}

impl Part for ViewShed {
    type V = Sight;

    open spec fn seen(self) -> Sight {
        self@
    }

    open spec fn read(row: Row) -> Option<Sight> {
        row.viewshed
    }

    open spec fn write(row: Row, v: Option<Sight>) -> Row {
        Row { viewshed: v, ..row }
    }
}

impl Part for Monster {
    type V = Monster;

    open spec fn seen(self) -> Monster {
        self
    }

    open spec fn read(row: Row) -> Option<Monster> {
        row.monster
    }

    open spec fn write(row: Row, v: Option<Monster>) -> Row {
        Row { monster: v, ..row }
    }
}

impl Part for Name {
    type V = Seq<char>;

    open spec fn seen(self) -> Seq<char> {
        self@
    }

    open spec fn read(row: Row) -> Option<Seq<char>> {
        row.name
    }

    open spec fn write(row: Row, v: Option<Seq<char>>) -> Row {
        Row { name: v, ..row }
    }
}

impl Part for BlocksTile {
    type V = BlocksTile;

    open spec fn seen(self) -> BlocksTile {
        self
    }

    open spec fn read(row: Row) -> Option<BlocksTile> {
        row.blocks_tile
    }

    open spec fn write(row: Row, v: Option<BlocksTile>) -> Row {
        Row { blocks_tile: v, ..row }
    }
}

impl Part for CombatStats {
    type V = CombatStats;

    open spec fn seen(self) -> CombatStats {
        self
    }

    open spec fn read(row: Row) -> Option<CombatStats> {
        row.stats
    }

    open spec fn write(row: Row, v: Option<CombatStats>) -> Row {
        Row { stats: v, ..row }
    }
}

impl Part for WantsToMelee {
    type V = WantsToMelee;

    open spec fn seen(self) -> WantsToMelee {
        self
    }

    open spec fn read(row: Row) -> Option<WantsToMelee> {
        row.wants_to_melee
    }

    open spec fn write(row: Row, v: Option<WantsToMelee>) -> Row {
        Row { wants_to_melee: v, ..row }
    }
}

impl Part for SufferDamage {
    type V = Seq<i32>;

    open spec fn seen(self) -> Seq<i32> {
        self@
    }

    open spec fn read(row: Row) -> Option<Seq<i32>> {
        row.damage
    }

    open spec fn write(row: Row, v: Option<Seq<i32>>) -> Row {
        Row { damage: v, ..row }
    }
}

/// `rows` with the component of kind `T` taken from every entity.
pub open spec fn without<T: Part>(rows: Map<Entity, Row>) -> Map<Entity, Row> {
    Map::new(|e: Entity| rows.contains_key(e), |e: Entity| T::write(rows[e], None))
}

/// The entities of `order` that are not in `doomed`, in the same order.
pub open spec fn survivors(order: Seq<Entity>, doomed: Set<Entity>) -> Seq<Entity> {
    order.filter(|e: Entity| !doomed.contains(e))
}

/// Calls `World::new` and registers every component of this crate with
/// `World::register`. Claimed: the world is in order and holds no entity.
#[verifier::external_body]
pub(crate) fn new_world() -> (w: World)
    ensures
        world_ready(w),
        world_rows(w) =~= Map::empty(),
        world_order(w) =~= Seq::empty(),
        world_doomed(w) =~= Set::empty(),
{
    let mut w = World::new();
    w.register::<Position>();
    w.register::<Renderable>();
    w.register::<Player>();
    w.register::<ViewShed>();
    w.register::<Monster>();
    w.register::<Name>();
    w.register::<BlocksTile>();
    w.register::<CombatStats>();
    w.register::<WantsToMelee>();
    w.register::<SufferDamage>();
    w
}

/// Joins over the entities of the world (`Join::join` on `World::entities`)
/// and collects them. Claimed: they come in join order, each once, and they
/// are the entities that have a row.
#[verifier::external_body]
pub(crate) fn live_entities(w: &World) -> (r: Vec<Entity>)
    requires
        world_ready(*w),
    ensures
        r@ == world_order(*w),
        r@.no_duplicates(),
        forall|e: Entity| r@.contains(e) <==> world_rows(*w).contains_key(e),
{
    w.entities().join().collect()
}

/// Reads the component of kind `T` of `e` with `Storage::get` and clones it.
/// Claimed: the result is what the row of `e` holds; an entity that is not
/// alive has no component.
#[verifier::external_body]
pub(crate) fn fetch<T: Part + Component + Clone>(w: &World, e: Entity) -> (r: Option<T>)
    requires
        world_ready(*w),
    ensures
        match r {
            Some(c) => T::read(row_or_blank(world_rows(*w), e)) == Some(c.seen()),
            None => T::read(row_or_blank(world_rows(*w), e)) is None,
        },
{
    w.read_storage::<T>().get(e).cloned()
}

/// Gives the live entity `e` the component `c` with `Storage::insert`,
/// which replaces a component of that kind that `e` had. Claimed: the row of
/// `e` holds `c` afterwards and nothing else changes.
#[verifier::external_body]
pub(crate) fn store<T: Part + Component>(w: &mut World, e: Entity, c: T)
    requires
        world_ready(*old(w)),
        world_rows(*old(w)).contains_key(e),
    ensures
        world_ready(*final(w)),
        world_rows(*final(w)) == world_rows(*old(w)).insert(
            e,
            T::write(world_rows(*old(w))[e], Some(c.seen())),
        ),
        world_order(*final(w)) == world_order(*old(w)),
        world_doomed(*final(w)) == world_doomed(*old(w)),
{
    let _ = w.write_storage::<T>().insert(e, c);
}

/// Empties the storage of kind `T` with `Storage::clear`. Claimed: no row
/// holds a component of that kind afterwards and nothing else changes.
#[verifier::external_body]
pub(crate) fn wipe<T: Part + Component>(w: &mut World)
    requires
        world_ready(*old(w)),
    ensures
        world_ready(*final(w)),
        world_rows(*final(w)) == without::<T>(world_rows(*old(w))),
        world_order(*final(w)) == world_order(*old(w)),
        world_doomed(*final(w)) == world_doomed(*old(w)),
{
    w.write_storage::<T>().clear();
}

/// Makes an entity with `World::create_entity` and `Builder::build`.
/// Claimed: the entity is new, has a blank row, and takes some place in the
/// join order; nothing else changes.
#[verifier::external_body]
pub(crate) fn spawn(w: &mut World) -> (e: Entity)
    requires
        world_ready(*old(w)),
    ensures
        world_ready(*final(w)),
        !world_rows(*old(w)).contains_key(e),
        !world_doomed(*old(w)).contains(e),
        world_rows(*final(w)) == world_rows(*old(w)).insert(e, Row::blank()),
        exists|i: int|
            0 <= i <= world_order(*old(w)).len() && world_order(*final(w)) == world_order(
                *old(w),
            ).insert(i, e),
        world_doomed(*final(w)) == world_doomed(*old(w)),
{
    specs::Builder::build(w.create_entity())
}

/// Marks the live entity `e` for deletion with `EntitiesRes::delete`.
/// Claimed: `e` is doomed afterwards and stays alive, with its components,
/// until the world is maintained.
#[verifier::external_body]
pub(crate) fn doom(w: &mut World, e: Entity)
    requires
        world_ready(*old(w)),
        world_rows(*old(w)).contains_key(e),
    ensures
        world_ready(*final(w)),
        world_rows(*final(w)) == world_rows(*old(w)),
        world_order(*final(w)) == world_order(*old(w)),
        world_doomed(*final(w)) == world_doomed(*old(w)).insert(e),
{
    let _ = w.entities().delete(e);
}

/// Calls `World::maintain`, which deletes the doomed entities with all
/// their components. Claimed: exactly the doomed entities lose their row,
/// the others keep their order, and no entity is doomed afterwards.
#[verifier::external_body]
pub(crate) fn maintain(w: &mut World)
    requires
        world_ready(*old(w)),
    ensures
        world_ready(*final(w)),
        world_rows(*final(w)) == world_rows(*old(w)).remove_keys(world_doomed(*old(w))),
        world_order(*final(w)) == survivors(world_order(*old(w)), world_doomed(*old(w))),
        world_doomed(*final(w)) =~= Set::empty(),
{
    w.maintain();
}

} // verus!
