//! Damage: the blows taken in a turn come off the health of those who took
//! them, and the dead are swept out of the world.

use crate::component::{CombatStats, Player, SufferDamage};
use crate::store::{
    doom, fetch, live_entities, row_or_blank, store, wipe, world_doomed, world_order, world_ready,
    world_rows, Row,
};
use specs::{Entity, World};
use vstd::prelude::*;

verus! {

/// The system that takes the blows of a turn off the health of those who
/// took them.
pub struct DamageSystem {}

/// The sum of `amounts`.
pub open spec fn total(amounts: Seq<i32>) -> int
    decreases amounts.len(),
{
    if amounts.len() == 0 {
        0
    } else {
        total(amounts.drop_last()) + amounts.last()
    }
}

/// `v`, or the nearest number that an `i32` can hold.
pub open spec fn saturate(v: int) -> i32 {
    if v < i32::MIN {
        i32::MIN
    } else if v > i32::MAX {
        i32::MAX
    } else {
        v as i32
    }
}

/// `row` with the blows it holds taken off its health. Health may fall
/// below zero; it stops only at what an `i32` can hold.
pub open spec fn hurt(row: Row) -> Row {
    Row {
        stats: match (row.stats, row.damage) {
            (Some(s), Some(d)) => Some(CombatStats { hp: saturate(s.hp - total(d)), ..s }),
            _ => row.stats,
        },
        ..row
    }
}

/// `rows` after damage: every entity hurt by the blows it held, and no
/// blows left.
pub open spec fn all_settled(rows: Map<Entity, Row>) -> Map<Entity, Row> {
    Map::new(
        |e: Entity| rows.contains_key(e),
        |e: Entity| Row { damage: None, ..hurt(rows[e]) },
    )
}

/// Whether `row` is of an entity that the sweep removes: its health is
/// below 1 and it is not the player.
pub open spec fn fallen(row: Row) -> bool {
    row.stats matches Some(s) && s.hp < 1 && row.player is None
}

/// Whether `row` is of a player whose health is below 1.
pub open spec fn player_down(row: Row) -> bool {
    row.stats matches Some(s) && s.hp < 1 && row.player is Some
}

/// Whether no player of `rows` is among `doomed`.
pub open spec fn players_safe(rows: Map<Entity, Row>, doomed: Set<Entity>) -> bool {
    forall|e: Entity|
        rows.contains_key(e) && (#[trigger] rows[e]).player is Some ==> !doomed.contains(e)
}

/// The entities of `rows` that the sweep removes.
pub open spec fn the_fallen(rows: Map<Entity, Row>) -> Set<Entity> {
    Set::new(|e: Entity| rows.contains_key(e) && fallen(rows[e]))
}

/// `v`, or the nearest number that an `i32` can hold.
pub fn clamp(v: i128) -> (r: i32)
    ensures
        r == saturate(v as int),
{
    if v < -0x8000_0000 {
        -0x8000_0000
    } else if v > 0x7fff_ffff {
        0x7fff_ffff
    } else {
        v as i32
    }
}

/// The sum of `amounts`.
pub fn sum(amounts: &Vec<i32>) -> (r: i128)
    ensures
        r == total(amounts@),
        -0x8000_0000_0000_0000_0000_0000 <= r <= 0x8000_0000_0000_0000_0000_0000,
{
    let mut acc: i128 = 0;
    let mut k: usize = 0;
    assert(amounts@.take(0) =~= Seq::empty());
    while k < amounts.len()
        invariant
            k <= amounts@.len(),
            acc == total(amounts@.take(k as int)),
            -0x8000_0000 * k <= acc <= 0x8000_0000 * k,
        decreases amounts@.len() - k,
    {
        assert(amounts@.take(k + 1).drop_last() =~= amounts@.take(k as int));
        acc = acc + amounts[k] as i128;
        k = k + 1;
    }
    assert(amounts@.take(k as int) =~= amounts@);
    acc
}

impl DamageSystem {
    /// Takes the blows that each entity holds off its health, then clears
    /// the blows of every entity.
    pub fn run(&mut self, ecs: &mut World)
        requires
            world_ready(*old(ecs)),
        ensures
            world_ready(*final(ecs)),
            world_rows(*final(ecs)) == all_settled(world_rows(*old(ecs))),
            world_order(*final(ecs)) == world_order(*old(ecs)),
            world_doomed(*final(ecs)) == world_doomed(*old(ecs)),
    {
        let ents = live_entities(ecs);
        let ghost rows0 = world_rows(*ecs);
        let mut i: usize = 0;
        while i < ents.len()
            invariant
                i <= ents@.len(),
                world_ready(*ecs),
                world_order(*ecs) == world_order(*old(ecs)),
                world_doomed(*ecs) == world_doomed(*old(ecs)),
                rows0 == world_rows(*old(ecs)),
                ents@.no_duplicates(),
                forall|e: Entity| ents@.contains(e) <==> rows0.contains_key(e),
                forall|e: Entity| world_rows(*ecs).contains_key(e) <==> rows0.contains_key(e),
                forall|k: int|
                    0 <= k < i ==> world_rows(*ecs)[#[trigger] ents@[k]] == hurt(rows0[ents@[k]]),
                forall|k: int|
                    i <= k < ents@.len() ==> world_rows(*ecs)[#[trigger] ents@[k]]
                        == rows0[ents@[k]],
            decreases ents@.len() - i,
        {
            let e = ents[i];
            assert(ents@.contains(e));
            if let Some(stats) = fetch::<CombatStats>(ecs, e) {
                if let Some(damage) = fetch::<SufferDamage>(ecs, e) {
                    let hp = clamp(stats.hp as i128 - sum(&damage.amounts));
                    store(
                        ecs,
                        e,
                        CombatStats {
                            max_hp: stats.max_hp,
                            hp,
                            defense: stats.defense,
                            power: stats.power,
                        },
                    );
                    assert(world_rows(*ecs)[e] == hurt(rows0[e]));
                }
            }
            i = i + 1;
        }
        wipe::<SufferDamage>(ecs);
        assert(world_rows(*ecs) =~= all_settled(rows0)) by {
            assert forall|e: Entity| rows0.contains_key(e) implies world_rows(*ecs)[e]
                == all_settled(rows0)[e] by {
                let k = choose|k: int| 0 <= k < ents@.len() && ents@[k] == e;
                assert(ents@[k] == e);
            }
        }
    }
}

/// Dooms every entity whose health is below 1, the player excepted, and
/// says whether a player's health is below 1. A doomed entity leaves the
/// world when the world is next maintained. No row is changed, and no
/// player is doomed that was not doomed before.
pub fn delete_the_dead(ecs: &mut World) -> (player_dead: bool)
    requires
        world_ready(*old(ecs)),
    ensures
        world_ready(*final(ecs)),
        world_rows(*final(ecs)) == world_rows(*old(ecs)),
        world_order(*final(ecs)) == world_order(*old(ecs)),
        world_doomed(*final(ecs)) == world_doomed(*old(ecs)).union(
            the_fallen(world_rows(*old(ecs))),
        ),
        player_dead == exists|e: Entity|
            world_rows(*old(ecs)).contains_key(e) && player_down(
                #[trigger] world_rows(*old(ecs))[e],
            ),
        forall|e: Entity|
            world_rows(*old(ecs)).contains_key(e) && (#[trigger] world_rows(
                *old(ecs),
            )[e]).player is Some ==> (world_doomed(*final(ecs)).contains(e) <==> world_doomed(
                *old(ecs),
            ).contains(e)),
        players_safe(world_rows(*old(ecs)), world_doomed(*old(ecs))) ==> players_safe(
            world_rows(*final(ecs)),
            world_doomed(*final(ecs)),
        ),
{
    let ents = live_entities(ecs);
    let ghost rows = world_rows(*ecs);
    let ghost doomed0 = world_doomed(*ecs);
    let mut player_dead = false;
    let mut i: usize = 0;
    while i < ents.len()
        invariant
            i <= ents@.len(),
            world_ready(*ecs),
            world_rows(*ecs) == rows,
            rows == world_rows(*old(ecs)),
            doomed0 == world_doomed(*old(ecs)),
            world_order(*ecs) == world_order(*old(ecs)),
            forall|e: Entity| ents@.contains(e) <==> rows.contains_key(e),
            forall|e: Entity|
                world_doomed(*ecs).contains(e) ==> doomed0.contains(e) || the_fallen(rows).contains(
                    e,
                ),
            forall|e: Entity| doomed0.contains(e) ==> world_doomed(*ecs).contains(e),
            forall|k: int|
                0 <= k < i && fallen(rows[#[trigger] ents@[k]]) ==> world_doomed(*ecs).contains(
                    ents@[k],
                ),
            player_dead ==> exists|e: Entity|
                rows.contains_key(e) && player_down(#[trigger] rows[e]),
            !player_dead ==> forall|k: int| 0 <= k < i ==> !player_down(rows[#[trigger] ents@[k]]),
        decreases ents@.len() - i,
    {
        let e = ents[i];
        assert(ents@.contains(e));
        if let Some(stats) = fetch::<CombatStats>(ecs, e) {
            if stats.hp < 1 {
                if is_player(ecs, e) {
                    player_dead = true;
                } else {
                    doom(ecs, e);
                }
            }
        }
        i = i + 1;
    }
    proof {
        assert(world_doomed(*ecs) =~= doomed0.union(the_fallen(rows))) by {
            assert forall|e: Entity| the_fallen(rows).contains(e) implies world_doomed(
                *ecs,
            ).contains(e) by {
                let k = choose|k: int| 0 <= k < ents@.len() && ents@[k] == e;
                assert(ents@[k] == e);
            }
        }
        if !player_dead {
            assert forall|e: Entity| rows.contains_key(e) implies !player_down(
                #[trigger] rows[e],
            ) by {
                let k = choose|k: int| 0 <= k < ents@.len() && ents@[k] == e;
                assert(ents@[k] == e);
            }
        }
    }
    player_dead
}

/// An entity that the sweep finds fallen is gone from the world once the
/// world is maintained.
pub proof fn lemma_sweep_removes_fallen(rows: Map<Entity, Row>, doomed: Set<Entity>, e: Entity)
    requires
        the_fallen(rows).contains(e),
    ensures
        !rows.remove_keys(doomed.union(the_fallen(rows))).contains_key(e),
{
}

/// The sweep never dooms a player, whatever its health: a player that was
/// not doomed before the sweep is not doomed after it, and is still in the
/// world, as it was, once the world is maintained.
pub proof fn lemma_sweep_spares_player(rows: Map<Entity, Row>, doomed: Set<Entity>, e: Entity)
    requires
        rows.contains_key(e),
        rows[e].player is Some,
        !doomed.contains(e),
    ensures
        !doomed.union(the_fallen(rows)).contains(e),
        rows.remove_keys(doomed.union(the_fallen(rows))).contains_key(e),
        rows.remove_keys(doomed.union(the_fallen(rows)))[e] == rows[e],
{
}

/// Whether `ent` carries the mark of the player.
fn is_player(ecs: &World, ent: Entity) -> (r: bool)
    requires
        world_ready(*ecs),
    ensures
        r == (row_or_blank(world_rows(*ecs), ent).player is Some),
{
    fetch::<Player>(ecs, ent).is_some()
}

} // verus!
