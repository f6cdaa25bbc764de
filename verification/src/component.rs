//! The components that entities carry.

use crate::store::{fetch, store, world_doomed, world_order, world_ready, world_rows, Row};
use rltk::{FontCharType, Point, RGB};
use specs::{Component, DenseVecStorage, Entity, World};
use vstd::prelude::*;

verus! {

/// A colour of the `rltk` crate. Nothing here looks inside one.
#[verifier::external_type_specification]
#[verifier::external_body]
pub struct ExRgb(RGB);

/// Where an entity stands on the grid.
#[derive(Clone, Copy, Debug)]
pub struct Position {
    pub x: i32,
    pub y: i32,
}

/// How an entity is drawn.
#[derive(Clone, Copy)]
pub struct Renderable {
    pub glyph: FontCharType,
    pub fg: RGB,
    pub bg: RGB,
}

/// Marks the entity that the player steers.
#[derive(Clone, Copy, Debug)]
pub struct Player {}

/// What an entity sees: the tiles in view when this was last worked out,
/// how far it sees, and whether the tiles have to be worked out again.
#[derive(Clone)]
pub struct ViewShed {
    pub visible_tiles: Vec<Point>,
    pub range: i32,
    pub dirty: bool,
}

/// Marks an entity that moves by itself.
#[derive(Clone, Copy, Debug)]
pub struct Monster {}

/// What an entity is called.
#[derive(Clone, Debug)]
pub struct Name {
    pub name: String,
}

/// Marks an entity that nothing else can walk through.
#[derive(Clone, Copy, Debug)]
pub struct BlocksTile {}

/// The figures that decide a fight.
#[derive(Clone, Copy, Debug)]
pub struct CombatStats {
    pub max_hp: i32,
    pub hp: i32,
    pub defense: i32,
    pub power: i32,
}

/// The wish to hit `target` this turn.
#[derive(Clone, Copy, Debug)]
pub struct WantsToMelee {
    pub target: Entity,
}

/// The blows that an entity took this turn and that have not been taken
/// off its health yet.
#[derive(Clone, Debug)]
pub struct SufferDamage {
    pub amounts: Vec<i32>,
}

impl Component for Position {
    type Storage = DenseVecStorage<Self>;
}

impl Component for Renderable {
    type Storage = DenseVecStorage<Self>;
}

impl Component for Player {
    type Storage = DenseVecStorage<Self>;
}

impl Component for ViewShed {
    type Storage = DenseVecStorage<Self>;
}

impl Component for Monster {
    type Storage = DenseVecStorage<Self>;
}

impl Component for Name {
    type Storage = DenseVecStorage<Self>;
}

impl Component for BlocksTile {
    type Storage = DenseVecStorage<Self>;
}

impl Component for CombatStats {
    type Storage = DenseVecStorage<Self>;
}

impl Component for WantsToMelee {
    type Storage = DenseVecStorage<Self>;
}

impl Component for SufferDamage {
    type Storage = DenseVecStorage<Self>;
}

/// A `ViewShed` as contracts see it.
pub struct Sight {
    pub visible_tiles: Seq<Point>,
    pub range: i32,
    pub dirty: bool,
}

impl View for ViewShed {
    type V = Sight;

    open spec fn view(&self) -> Sight {
        Sight { visible_tiles: self.visible_tiles@, range: self.range, dirty: self.dirty }
    }
}

impl View for Name {
    type V = Seq<char>;

    open spec fn view(&self) -> Seq<char> {
        self.name@
    }
}

impl View for SufferDamage {
    type V = Seq<i32>;

    open spec fn view(&self) -> Seq<i32> {
        self.amounts@
    }
}

impl ViewShed {
    /// Whether the tile in column `x` of row `y` is among the tiles in view.
    pub fn sees(&self, x: i32, y: i32) -> (r: bool)
        ensures
            r == self@.visible_tiles.contains(Point { x, y }),
    {
        let mut i: usize = 0;
        while i < self.visible_tiles.len()
            invariant
                i <= self.visible_tiles@.len(),
                forall|k: int| 0 <= k < i ==> self.visible_tiles@[k] != (Point { x, y }),
            decreases self.visible_tiles@.len() - i,
        {
            if self.visible_tiles[i].x == x && self.visible_tiles[i].y == y {
                return true;
            }
            i = i + 1;
        }
        false
    }
}

/// The blows that `row` holds, none if it has no record of blows.
pub open spec fn pending(row: Row) -> Seq<i32> {
    match row.damage {
        Some(d) => d,
        None => Seq::empty(),
    }
}

impl SufferDamage {
    /// Adds a blow of `amount` to those that `victim` holds, starting its
    /// record of blows if it has none.
    pub fn new_damage(ecs: &mut World, victim: Entity, amount: i32)
        requires
            world_ready(*old(ecs)),
            world_rows(*old(ecs)).contains_key(victim),
        ensures
            world_ready(*final(ecs)),
            world_rows(*final(ecs)) == world_rows(*old(ecs)).insert(
                victim,
                (Row {
                    damage: Some(pending(world_rows(*old(ecs))[victim]).push(amount)),
                    ..world_rows(*old(ecs))[victim]
                }),
            ),
            world_order(*final(ecs)) == world_order(*old(ecs)),
            world_doomed(*final(ecs)) == world_doomed(*old(ecs)),
    {
        let mut suffering = match fetch::<SufferDamage>(ecs, victim) {
            Some(held) => held,
            None => SufferDamage { amounts: Vec::new() },
        };
        suffering.amounts.push(amount);
        store(ecs, victim, suffering);
    }
}

} // verus!
