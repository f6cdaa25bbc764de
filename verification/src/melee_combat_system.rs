//! Melee: every wish to hit is weighed, the blows that land are noted on
//! their targets, and the wishes are cleared.

use crate::component::{pending, CombatStats, SufferDamage, WantsToMelee};
use crate::damage_system::{clamp, saturate};
use crate::store::{
    fetch, live_entities, row_or_blank, wipe, world_doomed, world_order, world_ready, world_rows,
    Row,
};
use specs::{Entity, World};
use vstd::prelude::*;

verus! {

/// The system that resolves the wishes to hit.
pub struct MeleeCombatSystem {}

/// The damage of a blow struck with `power` against `defense`: their
/// difference, and nothing if the defense is the greater.
pub open spec fn strength(power: i32, defense: i32) -> i32 {
    if power - defense > 0 {
        saturate(power - defense)
    } else {
        0
    }
}

/// The damage that `attacker` does to `target` under `rows`: the strength
/// of its blow if it wishes to hit `target` and both are in fighting
/// shape, with health above 0, and nothing otherwise.
pub open spec fn blow(rows: Map<Entity, Row>, attacker: Entity, target: Entity) -> i32 {
    let a = row_or_blank(rows, attacker);
    let t = row_or_blank(rows, target);
    match (a.wants_to_melee, a.stats, t.stats) {
        (Some(wish), Some(own), Some(other)) => if wish.target == target && own.hp > 0 && other.hp
            > 0 {
            strength(own.power, other.defense)
        } else {
            0
        },
        _ => 0,
    }
}

/// The blows that land on `target` when the entities of `order` strike in
/// turn. A blow without damage is not counted.
pub open spec fn blows_on(order: Seq<Entity>, rows: Map<Entity, Row>, target: Entity) -> Seq<i32>
    decreases order.len(),
{
    if order.len() == 0 {
        Seq::empty()
    } else {
        let earlier = blows_on(order.drop_last(), rows, target);
        if blow(rows, order.last(), target) > 0 {
            earlier.push(blow(rows, order.last(), target))
        } else {
            earlier
        }
    }
}

/// `row` with `blows` added to those it holds. Without a blow the row is
/// left as it is: no record of blows is started.
pub open spec fn struck(row: Row, blows: Seq<i32>) -> Row {
    if blows.len() == 0 {
        row
    } else {
        Row { damage: Some(pending(row) + blows), ..row }
    }
}

/// `rows` after melee among the entities of `order`: every entity struck
/// by the blows that landed on it, and no wish to hit left.
pub open spec fn after_melee(rows: Map<Entity, Row>, order: Seq<Entity>) -> Map<Entity, Row> {
    Map::new(
        |e: Entity| rows.contains_key(e),
        |e: Entity| Row { wants_to_melee: None, ..struck(rows[e], blows_on(order, rows, e)) },
    )
}

/// The damage of a blow struck with `power` against `defense`.
pub fn blow_strength(power: i32, defense: i32) -> (r: i32)
    ensures
        r == strength(power, defense),
{
    let gap: i64 = power as i64 - defense as i64;
    if gap > 0 {
        clamp(gap as i128)
    } else {
        0
    }
}

impl MeleeCombatSystem {
    /// Resolves the wishes to hit. An attacker needs stats and health above
    /// 0; so does its target. The damage of a blow is the attacker's power
    /// less the target's defense; a blow with damage is added to those the
    /// target holds. At the end every wish is cleared.
    pub fn run(&mut self, ecs: &mut World)
        requires
            world_ready(*old(ecs)),
        ensures
            world_ready(*final(ecs)),
            world_rows(*final(ecs)) == after_melee(
                world_rows(*old(ecs)),
                world_order(*old(ecs)),
            ),
            world_order(*final(ecs)) == world_order(*old(ecs)),
            world_doomed(*final(ecs)) == world_doomed(*old(ecs)),
    {
        let ents = live_entities(ecs);
        let ghost rows0 = world_rows(*ecs);
        let mut i: usize = 0;
        assert(ents@.take(0) =~= Seq::empty());
        while i < ents.len()
            invariant
                i <= ents@.len(),
                world_ready(*ecs),
                world_order(*ecs) == world_order(*old(ecs)),
                world_doomed(*ecs) == world_doomed(*old(ecs)),
                rows0 == world_rows(*old(ecs)),
                ents@ == world_order(*old(ecs)),
                forall|e: Entity| world_rows(*ecs).contains_key(e) <==> rows0.contains_key(e),
                forall|e: Entity|
                    rows0.contains_key(e) ==> #[trigger] world_rows(*ecs)[e] == struck(
                        rows0[e],
                        blows_on(ents@.take(i as int), rows0, e),
                    ),
            decreases ents@.len() - i,
        {
            let attacker = ents[i];
            let ghost rows1 = world_rows(*ecs);
            let ghost done = ents@.take(i as int);
            let ghost next = ents@.take(i + 1);
            assert(next.drop_last() =~= done);
            assert(next.last() == attacker);
            let mut landed = false;
            let ghost mut hit: Entity = attacker;
            if let Some(wish) = fetch::<WantsToMelee>(ecs, attacker) {
                if let Some(own) = fetch::<CombatStats>(ecs, attacker) {
                    if own.hp > 0 {
                        if let Some(other) = fetch::<CombatStats>(ecs, wish.target) {
                            if other.hp > 0 {
                                let damage = blow_strength(own.power, other.defense);
                                assert(damage == blow(rows0, attacker, wish.target));
                                if damage > 0 {
                                    SufferDamage::new_damage(ecs, wish.target, damage);
                                    landed = true;
                                    proof {
                                        hit = wish.target;
                                    }
                                }
                            }
                        }
                    }
                }
            }
            assert forall|e: Entity| rows0.contains_key(e) implies #[trigger] world_rows(*ecs)[e]
                == struck(rows0[e], blows_on(next, rows0, e)) by {
                assert(rows1[e] == struck(rows0[e], blows_on(done, rows0, e)));
                if landed && e == hit {
                    assert(blows_on(next, rows0, e) == blows_on(done, rows0, e).push(
                        blow(rows0, attacker, e),
                    ));
                    assert(pending(rows1[e]).push(blow(rows0, attacker, e)) =~= pending(rows0[e])
                        + blows_on(next, rows0, e));
                } else {
                    assert(blow(rows0, attacker, e) == 0);
                    assert(world_rows(*ecs)[e] == rows1[e]);
                }
            }
            i = i + 1;
        }
        assert(ents@.take(i as int) =~= ents@);
        wipe::<WantsToMelee>(ecs);
        assert(world_rows(*ecs) =~= after_melee(rows0, ents@));
    }
}

} // verus!
