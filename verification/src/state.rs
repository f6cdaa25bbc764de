//! The turn controller: the phases of a turn and the order in which the
//! systems run.

use crate::component::{
    BlocksTile, CombatStats, Monster, Name, Player, Position, Sight, ViewShed,
};
use crate::damage_system::{
    all_settled, delete_the_dead, player_down, players_safe, the_fallen, DamageSystem,
};
use crate::map::GameMap;
use crate::map_indexing_system::{indexed, MapIndexingSystem};
use crate::melee_combat_system::{after_melee, MeleeCombatSystem};
use crate::monster_ai_system::{
    can_step, lemma_pass_keeps_rows, moved_to, next_tile, pass, request_at, MonsterAI, PathRequest,
};
use crate::player::{key_delta, player_input, steer, Steering};
use crate::store::{
    live_entities, maintain, new_world, row_or_blank, spawn, store, survivors, world_doomed,
    world_order, world_ready, world_rows, Row,
};
use crate::visibility_system::{all_refreshed, revealed_after, VisibilitySystem};
use rltk::{Point, VirtualKeyCode};
use specs::{Entity, World};
use vstd::prelude::*;

verus! {

/// The phase that the game is in.
#[derive(Clone, Copy, PartialEq, Eq, Debug, Structural)]
pub enum RunState {
    AwaitingInput,
    PreRun,
    PlayerTurn,
    MonsterTurn,
}

/// The game: the world of entities, the dungeon, the player, the phase, and
/// the monsters' pass while one is under way.
pub struct State {
    pub ecs: World,
    pub map: GameMap,
    pub player_pos: Point,
    pub player: Entity,
    pub run_state: RunState,
    /// Whether the last sweep found a player with health below 1.
    pub player_dead: bool,
    /// The entities that act in the monsters' pass, in order.
    pub turn_order: Vec<Entity>,
    /// How many entities of `turn_order` have acted.
    pub cursor: usize,
    /// Whether the entity at `cursor` waits for a route.
    pub awaiting: bool,
}

/// What the stages before the monsters' pass leave behind: the rows, and of
/// the dungeon what these stages can change.
pub struct Stage {
    pub rows: Map<Entity, Row>,
    pub blocked: Seq<bool>,
    pub revealed: Seq<bool>,
}

/// The phase that follows a turn run in phase `s`.
pub open spec fn after_turn(s: RunState) -> RunState {
    match s {
        RunState::PreRun => RunState::AwaitingInput,
        RunState::PlayerTurn => RunState::MonsterTurn,
        RunState::MonsterTurn => RunState::AwaitingInput,
        RunState::AwaitingInput => RunState::AwaitingInput,
    }
}

/// The entities that act in the monsters' pass of a turn run in phase `s`:
/// all of them in the monsters' turn, none in any other phase.
pub open spec fn roster(s: RunState, order: Seq<Entity>) -> Seq<Entity> {
    if s == RunState::MonsterTurn {
        order
    } else {
        Seq::empty()
    }
}

/// `rows` after melee and damage among the entities of `order`.
pub open spec fn fought(rows: Map<Entity, Row>, order: Seq<Entity>) -> Map<Entity, Row> {
    all_settled(after_melee(rows, order))
}

/// The entities that leave the world at the end of a turn that began with
/// `rows`: those doomed before and those that fall in the fight.
pub open spec fn leaving(rows: Map<Entity, Row>, order: Seq<Entity>, doomed: Set<Entity>) -> Set<
    Entity,
> {
    doomed.union(the_fallen(fought(rows, order)))
}

/// `rows` once the turn is settled: after melee and damage, without those
/// that leave.
pub open spec fn swept(rows: Map<Entity, Row>, order: Seq<Entity>, doomed: Set<Entity>) -> Map<
    Entity,
    Row,
> {
    fought(rows, order).remove_keys(leaving(rows, order, doomed))
}

/// The row of the player when a game starts.
pub open spec fn fresh_player(x: i32, y: i32, name: Seq<char>) -> Row {
    Row {
        position: Some(Position { x, y }),
        player: Some(Player {  }),
        name: Some(name),
        viewshed: Some(Sight { visible_tiles: Seq::empty(), range: 8, dirty: true }),
        stats: Some(CombatStats { max_hp: 30, hp: 30, defense: 2, power: 5 }),
        ..Row::blank()
    }
}

/// The row of a monster when it is made.
pub open spec fn fresh_monster(x: i32, y: i32, name: Seq<char>) -> Row {
    Row {
        position: Some(Position { x, y }),
        viewshed: Some(Sight { visible_tiles: Seq::empty(), range: 8, dirty: true }),
        monster: Some(Monster {  }),
        blocks_tile: Some(BlocksTile {  }),
        name: Some(name),
        stats: Some(CombatStats { max_hp: 16, hp: 16, defense: 1, power: 4 }),
        ..Row::blank()
    }
}

/// No stage of a turn makes a player or takes the mark from one, and a
/// player leaves the world only if it was doomed before the turn: the sweep
/// never dooms it, whatever its health. In a well-formed game no player is
/// doomed, so every player outlives the turn.
pub proof fn lemma_turn_keeps_players(pre: State, post: State, seen: Map<Entity, Row>, e: Entity)
    requires
        post.ran(pre, seen),
    ensures
        pre.wf() && world_rows(pre.ecs).contains_key(e) && world_rows(pre.ecs)[e].player is Some
            ==> world_rows(post.ecs).contains_key(e),
        world_rows(post.ecs).contains_key(e) ==> world_rows(pre.ecs).contains_key(e) && world_rows(
            post.ecs,
        )[e].player == world_rows(pre.ecs)[e].player,
        world_rows(pre.ecs).contains_key(e) && world_rows(pre.ecs)[e].player is Some
            && !world_doomed(pre.ecs).contains(e) ==> world_rows(post.ecs).contains_key(e),
{
    let queue = roster(pre.run_state, world_order(pre.ecs));
    lemma_pass_keeps_rows(
        seen,
        queue,
        0,
        pre.map.width as int,
        pre.map.height as int,
        pre.player_pos,
        pre.player,
        pre.run_state,
        e,
    );
    if world_rows(pre.ecs).contains_key(e) {
        assert(seen[e].player == world_rows(pre.ecs)[e].player);
    }
}

/// The step of a monster along its route makes no player and loses none,
/// and neither does the rest of the turn.
pub proof fn lemma_route_keeps_players(
    pre: State,
    post: State,
    success: bool,
    steps: Seq<usize>,
    e: Entity,
)
    requires
        pre.awaiting,
        pre.cursor < pre.turn_order@.len(),
        post.driven(pre, State::answered(pre, success, steps), pre.turn_order@, pre.cursor + 1),
    ensures
        pre.wf() && world_rows(pre.ecs).contains_key(e) && world_rows(pre.ecs)[e].player is Some
            ==> world_rows(post.ecs).contains_key(e),
        world_rows(post.ecs).contains_key(e) ==> world_rows(pre.ecs).contains_key(e) && world_rows(
            post.ecs,
        )[e].player == world_rows(pre.ecs)[e].player,
        world_rows(pre.ecs).contains_key(e) && world_rows(pre.ecs)[e].player is Some
            && !world_doomed(pre.ecs).contains(e) ==> world_rows(post.ecs).contains_key(e),
{
    let stage = State::answered(pre, success, steps);
    lemma_pass_keeps_rows(
        stage.rows,
        pre.turn_order@,
        pre.cursor + 1,
        pre.map.width as int,
        pre.map.height as int,
        pre.player_pos,
        pre.player,
        pre.run_state,
        e,
    );
}

impl State {
    /// The world is in order and no player in it is marked for deletion,
    /// the dungeon is well formed, and the place in the monsters' pass is
    /// one of the queue.
    pub open spec fn wf(&self) -> bool {
        &&& world_ready(self.ecs)
        &&& players_safe(world_rows(self.ecs), world_doomed(self.ecs))
        &&& self.map.wf()
        &&& self.cursor <= self.turn_order@.len()
        &&& self.awaiting ==> self.cursor < self.turn_order@.len()
    }

    /// Whether every player of `pre` is still in the world, and still a
    /// player.
    pub open spec fn keeps_players(&self, pre: State) -> bool {
        forall|e: Entity|
            world_rows(pre.ecs).contains_key(e) && (#[trigger] world_rows(
                pre.ecs,
            )[e]).player is Some ==> world_rows(self.ecs).contains_key(e) && world_rows(
                self.ecs,
            )[e].player is Some
    }

    /// Whether no monsters' pass is under way.
    pub open spec fn idle(&self) -> bool {
        !self.awaiting && self.cursor == self.turn_order@.len()
    }

    /// The route that the game waits for, if it waits for one.
    pub open spec fn asked(&self) -> Option<PathRequest> {
        if self.awaiting {
            request_at(
                world_rows(self.ecs),
                self.turn_order@,
                self.cursor as int,
                self.map.width as int,
                self.map.height as int,
                self.player_pos,
            )
        } else {
            None
        }
    }

    /// Whether the parts that no stage of a turn changes are as in `pre`.
    pub open spec fn same_ground(&self, pre: State) -> bool {
        &&& self.map.tiles == pre.map.tiles
        &&& self.map.rooms == pre.map.rooms
        &&& self.map.width == pre.map.width
        &&& self.map.height == pre.map.height
        &&& self.player == pre.player
        &&& self.player_pos == pre.player_pos
    }

    /// Whether `self` is `pre` stopped in the monsters' pass at place `stop`
    /// with `rows`: the game waits for a route, in the same phase, and the
    /// index is as it was.
    pub open spec fn halted(
        &self,
        pre: State,
        rows: Map<Entity, Row>,
        blocked: Seq<bool>,
        stop: int,
    ) -> bool {
        &&& self.awaiting
        &&& self.cursor == stop
        &&& self.run_state == pre.run_state
        &&& self.player_dead == pre.player_dead
        &&& world_rows(self.ecs) == rows
        &&& world_order(self.ecs) == world_order(pre.ecs)
        &&& world_doomed(self.ecs) == world_doomed(pre.ecs)
        &&& self.map.blocked@ == blocked
        &&& self.map.tile_content == pre.map.tile_content
    }

    /// Whether `self` is `pre` after the turn was settled from `rows`: the
    /// index was built, melee and damage were worked out, the dead were
    /// swept out with the doomed, and the next phase has begun.
    pub open spec fn settled(&self, pre: State, rows: Map<Entity, Row>) -> bool {
        let order = world_order(pre.ecs);
        let doomed = world_doomed(pre.ecs);
        &&& self.idle()
        &&& self.run_state == after_turn(pre.run_state)
        &&& self.player_dead == exists|e: Entity|
            fought(rows, order).contains_key(e) && player_down(#[trigger] fought(rows, order)[e])
        &&& indexed(self.map, rows, order)
        &&& world_rows(self.ecs) == swept(rows, order, doomed)
        &&& world_order(self.ecs) == survivors(order, leaving(rows, order, doomed))
        &&& world_doomed(self.ecs) == Set::<Entity>::empty()
    }

    /// Whether `self` is what becomes of `pre`, taken at `stage`, when the
    /// monsters' pass over `queue` goes on from place `from`. Either the
    /// pass stops at a monster that gives chase, and the game waits for its
    /// route; or the pass gets through, and the turn is settled.
    pub open spec fn driven(
        &self,
        pre: State,
        stage: Stage,
        queue: Seq<Entity>,
        from: int,
    ) -> bool {
        let went = pass(
            stage.rows,
            queue,
            from,
            pre.map.width as int,
            pre.map.height as int,
            pre.player_pos,
            pre.player,
            pre.run_state,
        );
        &&& self.same_ground(pre)
        &&& self.turn_order@ == queue
        &&& self.map.revealed_tiles@ == stage.revealed
        &&& went.stop < queue.len() ==> self.halted(pre, went.rows, stage.blocked, went.stop)
        &&& went.stop >= queue.len() ==> self.settled(pre, went.rows)
    }

    /// A game on `map` in the phase before the first turn. Its world holds
    /// one entity, the player, called `player_name`, at the center of the
    /// first room.
    pub fn new(map: GameMap, player_name: String) -> (gs: State)
        requires
            map.wf(),
            map.rooms@.len() > 0,
        ensures
            gs.wf(),
            gs.idle(),
            gs.run_state == RunState::PreRun,
            !gs.player_dead,
            gs.map == map,
            (gs.player_pos.x as int, gs.player_pos.y as int) == map.rooms@[0].spec_center(),
            world_order(gs.ecs) == seq![gs.player],
            world_doomed(gs.ecs) == Set::<Entity>::empty(),
            world_rows(gs.ecs) == Map::<Entity, Row>::empty().insert(
                gs.player,
                fresh_player(gs.player_pos.x, gs.player_pos.y, player_name@),
            ),
    {
        let mut ecs = new_world();
        let (x, y) = map.rooms[0].center();
        let player = spawn(&mut ecs);
        store(&mut ecs, player, Position { x, y });
        store(&mut ecs, player, Player {  });
        store(&mut ecs, player, Name { name: player_name });
        store(&mut ecs, player, ViewShed { visible_tiles: Vec::new(), range: 8, dirty: true });
        store(&mut ecs, player, CombatStats { max_hp: 30, hp: 30, defense: 2, power: 5 });
        assert(world_rows(ecs) =~= Map::<Entity, Row>::empty().insert(
            player,
            fresh_player(x, y, player_name@),
        ));
        assert(world_order(ecs) =~= seq![player]);
        State {
            ecs,
            map,
            player_pos: Point { x, y },
            player,
            run_state: RunState::PreRun,
            player_dead: false,
            turn_order: Vec::new(),
            cursor: 0,
            awaiting: false,
        }
    }

    /// Makes a monster called `name` in column `x` of row `y`.
    pub fn spawn_monster(&mut self, x: i32, y: i32, name: String) -> (e: Entity)
        requires
            old(self).wf(),
        ensures
            final(self).wf(),
            final(self).map == old(self).map,
            final(self).player_pos == old(self).player_pos,
            final(self).player == old(self).player,
            final(self).run_state == old(self).run_state,
            final(self).player_dead == old(self).player_dead,
            final(self).turn_order == old(self).turn_order,
            final(self).cursor == old(self).cursor,
            final(self).awaiting == old(self).awaiting,
            !world_rows(old(self).ecs).contains_key(e),
            world_rows(final(self).ecs) == world_rows(old(self).ecs).insert(
                e,
                fresh_monster(x, y, name@),
            ),
            exists|i: int|
                0 <= i <= world_order(old(self).ecs).len() && world_order(final(self).ecs)
                    == world_order(old(self).ecs).insert(i, e),
            world_doomed(final(self).ecs) == world_doomed(old(self).ecs),
    {
        let e = spawn(&mut self.ecs);
        store(&mut self.ecs, e, Position { x, y });
        store(&mut self.ecs, e, ViewShed { visible_tiles: Vec::new(), range: 8, dirty: true });
        store(&mut self.ecs, e, Monster {  });
        store(&mut self.ecs, e, BlocksTile {  });
        store(&mut self.ecs, e, Name { name });
        store(&mut self.ecs, e, CombatStats { max_hp: 16, hp: 16, defense: 1, power: 4 });
        assert(world_rows(self.ecs) =~= world_rows(old(self).ecs).insert(
            e,
            fresh_monster(x, y, name@),
        ));
        e
    }

    /// What the route found for the waiting monster of `pre` leaves
    /// behind: the monster moved one step along it, if it can take the step.
    pub open spec fn answered(pre: State, success: bool, steps: Seq<usize>) -> Stage {
        let ent = pre.turn_order@[pre.cursor as int];
        let rows = world_rows(pre.ecs);
        match next_tile(pre.map, success, steps) {
            Some(idx) if can_step(row_or_blank(rows, ent)) => Stage {
                rows: rows.insert(ent, moved_to(rows[ent], pre.map.width as int, idx as int)),
                blocked: pre.map.blocked@.update(idx as int, true),
                revealed: pre.map.revealed_tiles@,
            },
            _ => Stage {
                rows,
                blocked: pre.map.blocked@,
                revealed: pre.map.revealed_tiles@,
            },
        }
    }

    /// Whether `self` is `pre` after the systems were run on it once:
    /// every viewer looked around, turning the rows into `seen`; then the
    /// monsters' pass began, which only runs in the monsters' turn.
    pub open spec fn ran(&self, pre: State, seen: Map<Entity, Row>) -> bool {
        &&& all_refreshed(world_rows(pre.ecs), seen, pre.map)
        &&& revealed_after(world_rows(pre.ecs), pre.map, self.map.revealed_tiles@)
        &&& self.driven(
            pre,
            Stage { rows: seen, blocked: pre.map.blocked@, revealed: self.map.revealed_tiles@ },
            roster(pre.run_state, world_order(pre.ecs)),
            0,
        )
    }

    /// Runs the systems in their order: visibility, the monsters' pass, the
    /// index, melee, damage, the sweep of the dead, and the upkeep of the
    /// world. If a monster gives chase the run stops there and its request
    /// is returned; `supply_route` takes the run up again.
    pub fn run_systems(&mut self) -> (r: Option<PathRequest>)
        requires
            old(self).wf(),
            old(self).idle(),
        ensures
            final(self).wf(),
            r == final(self).asked(),
            exists|seen: Map<Entity, Row>| final(self).ran(*old(self), seen),
            final(self).keeps_players(*old(self)),
            r is Some <==> final(self).awaiting,
            final(self).run_state == if final(self).awaiting {
                old(self).run_state
            } else {
                after_turn(old(self).run_state)
            },
            old(self).run_state != RunState::MonsterTurn ==> r is None,
    {
        let mut vis = VisibilitySystem {  };
        vis.run(&mut self.ecs, &mut self.map);
        self.turn_order = match self.run_state {
            RunState::MonsterTurn => live_entities(&self.ecs),
            _ => Vec::new(),
        };
        self.cursor = 0;
        let ghost mid = *self;
        let r = self.drive();
        proof {
            let seen = world_rows(mid.ecs);
            assert(mid.turn_order@ =~= roster(old(self).run_state, world_order(old(self).ecs)));
            let went = pass(
                seen,
                mid.turn_order@,
                0,
                mid.map.width as int,
                mid.map.height as int,
                mid.player_pos,
                mid.player,
                mid.run_state,
            );
            if went.stop < mid.turn_order@.len() {
                assert(self.halted(mid, went.rows, mid.map.blocked@, went.stop));
                assert(self.halted(*old(self), went.rows, old(self).map.blocked@, went.stop));
            } else {
                assert(self.settled(mid, went.rows));
                assert(self.settled(*old(self), went.rows));
            }
            assert(self.ran(*old(self), seen));
            assert forall|e: Entity|
                world_rows(old(self).ecs).contains_key(e) && (#[trigger] world_rows(
                    old(self).ecs,
                )[e]).player is Some implies world_rows(self.ecs).contains_key(e) && world_rows(
                self.ecs,
            )[e].player is Some by {
                lemma_turn_keeps_players(*old(self), *self, seen, e);
            }
        }
        r
    }

    /// Advances the game by one tick. While input is awaited, `key` is
    /// acted on: a key that stands for a direction is the player's move and
    /// begins the player's turn, any other key or none leaves the game as it
    /// is. In every other phase the systems are run and the next phase
    /// begins; if a monster gives chase the run stops there and its request
    /// is returned.
    pub fn tick(&mut self, key: Option<VirtualKeyCode>) -> (r: Option<PathRequest>)
        requires
            old(self).wf(),
            old(self).idle(),
        ensures
            final(self).wf(),
            r == final(self).asked(),
            old(self).run_state == RunState::AwaitingInput ==> r is None && final(self).steered(
                *old(self),
                key,
            ),
            old(self).run_state != RunState::AwaitingInput ==> exists|seen: Map<Entity, Row>|
                final(self).ran(*old(self), seen),
            final(self).keeps_players(*old(self)),
            old(self).run_state == RunState::PreRun ==> r is None && final(self).run_state
                == RunState::AwaitingInput,
            old(self).run_state == RunState::PlayerTurn ==> r is None && final(self).run_state
                == RunState::MonsterTurn,
            old(self).run_state == RunState::MonsterTurn && r is None ==> final(self).run_state
                == RunState::AwaitingInput,
            old(self).run_state == RunState::MonsterTurn && r is Some ==> final(self).run_state
                == RunState::MonsterTurn,
    {
        match self.run_state {
            RunState::AwaitingInput => {
                let next = player_input(self, key);
                self.run_state = next;
                None
            },
            _ => self.run_systems(),
        }
    }

    /// Takes up the run of the systems where it stopped: the waiting
    /// monster moves one step along the route found for it, and the
    /// monsters' pass goes on with the next entity.
    pub fn supply_route(&mut self, success: bool, steps: &Vec<usize>) -> (r: Option<PathRequest>)
        requires
            old(self).wf(),
            old(self).awaiting,
        ensures
            final(self).wf(),
            r == final(self).asked(),
            final(self).driven(
                *old(self),
                State::answered(*old(self), success, steps@),
                old(self).turn_order@,
                old(self).cursor + 1,
            ),
            final(self).keeps_players(*old(self)),
            r is Some <==> final(self).awaiting,
            final(self).run_state == if final(self).awaiting {
                old(self).run_state
            } else {
                after_turn(old(self).run_state)
            },
    {
        let count: usize = self.turn_order.len();
        let ent = self.turn_order[self.cursor];
        MonsterAI::follow(&mut self.ecs, &mut self.map, ent, success, steps);
        self.awaiting = false;
        self.cursor = self.cursor + 1;
        let ghost mid = *self;
        let r = self.drive();
        proof {
            let stage = State::answered(*old(self), success, steps@);
            assert(stage.rows == world_rows(mid.ecs));
            assert(stage.blocked == mid.map.blocked@);
            let went = pass(
                stage.rows,
                mid.turn_order@,
                mid.cursor as int,
                mid.map.width as int,
                mid.map.height as int,
                mid.player_pos,
                mid.player,
                mid.run_state,
            );
            if went.stop < mid.turn_order@.len() {
                assert(self.halted(mid, went.rows, mid.map.blocked@, went.stop));
                assert(self.halted(*old(self), went.rows, stage.blocked, went.stop));
            } else {
                assert(self.settled(mid, went.rows));
                assert(self.settled(*old(self), went.rows));
            }
            assert forall|e: Entity|
                world_rows(old(self).ecs).contains_key(e) && (#[trigger] world_rows(
                    old(self).ecs,
                )[e]).player is Some implies world_rows(self.ecs).contains_key(e) && world_rows(
                self.ecs,
            )[e].player is Some by {
                lemma_route_keeps_players(*old(self), *self, success, steps@, e);
            }
        }
        r
    }

    /// Whether `self` is `pre` after `key` was acted on while input was
    /// awaited. A key that stands for a direction steers the player that
    /// way and begins the player's turn; any other key, or none, changes
    /// nothing.
    pub open spec fn steered(&self, pre: State, key: Option<VirtualKeyCode>) -> bool {
        let went = match key_delta(key) {
            Some(d) => steer(
                Steering { rows: world_rows(pre.ecs), player_pos: pre.player_pos, stopped: false },
                world_order(pre.ecs),
                pre.map,
                d.0,
                d.1,
            ),
            None => Steering {
                rows: world_rows(pre.ecs),
                player_pos: pre.player_pos,
                stopped: false,
            },
        };
        &&& self.run_state == if key_delta(key) is Some {
            RunState::PlayerTurn
        } else {
            RunState::AwaitingInput
        }
        &&& world_rows(self.ecs) == went.rows
        &&& self.player_pos == went.player_pos
        &&& world_order(self.ecs) == world_order(pre.ecs)
        &&& world_doomed(self.ecs) == world_doomed(pre.ecs)
        &&& self.map == pre.map
        &&& self.player == pre.player
        &&& self.player_dead == pre.player_dead
        &&& self.turn_order == pre.turn_order
        &&& self.cursor == pre.cursor
        &&& self.awaiting == pre.awaiting
    }

    /// Ends a turn: builds the index, works out melee and damage, sweeps
    /// out the dead with the doomed, and begins the next phase.
    fn settle(&mut self)
        requires
            old(self).wf(),
            !old(self).awaiting,
        ensures
            final(self).wf(),
            final(self).driven(
                *old(self),
                (Stage {
                    rows: world_rows(old(self).ecs),
                    blocked: old(self).map.blocked@,
                    revealed: old(self).map.revealed_tiles@,
                }),
                old(self).turn_order@,
                old(self).turn_order@.len() as int,
            ),
    {
        let ghost rows0 = world_rows(self.ecs);
        let ghost order0 = world_order(self.ecs);
        let mut map_index = MapIndexingSystem {  };
        map_index.run(&self.ecs, &mut self.map);
        let mut melee = MeleeCombatSystem {  };
        melee.run(&mut self.ecs);
        let mut damage = DamageSystem {  };
        damage.run(&mut self.ecs);
        assert(world_rows(self.ecs) == fought(rows0, order0));
        self.player_dead = delete_the_dead(&mut self.ecs);
        maintain(&mut self.ecs);
        self.run_state = match self.run_state {
            RunState::PlayerTurn => RunState::MonsterTurn,
            _ => RunState::AwaitingInput,
        };
        self.cursor = self.turn_order.len();
        proof {
            let went = pass(
                rows0,
                old(self).turn_order@,
                old(self).turn_order@.len() as int,
                old(self).map.width as int,
                old(self).map.height as int,
                old(self).player_pos,
                old(self).player,
                old(self).run_state,
            );
            assert(went.rows == rows0 && went.stop == old(self).turn_order@.len());
            assert(self.settled(*old(self), rows0));
        }
    }

    /// Goes on with the monsters' pass from the place it has come to, and
    /// settles the turn if the pass gets through.
    fn drive(&mut self) -> (r: Option<PathRequest>)
        requires
            old(self).wf(),
            !old(self).awaiting,
        ensures
            final(self).wf(),
            final(self).driven(
                *old(self),
                (Stage {
                    rows: world_rows(old(self).ecs),
                    blocked: old(self).map.blocked@,
                    revealed: old(self).map.revealed_tiles@,
                }),
                old(self).turn_order@,
                old(self).cursor as int,
            ),
            r == final(self).asked(),
            r is Some <==> final(self).awaiting,
            final(self).run_state == if final(self).awaiting {
                old(self).run_state
            } else {
                after_turn(old(self).run_state)
            },
    {
        let mut mob = MonsterAI {  };
        let (stop, request) = mob.run(
            &mut self.ecs,
            &self.map,
            self.player_pos,
            self.player,
            self.run_state,
            &self.turn_order,
            self.cursor,
        );
        self.cursor = stop;
        proof {
            assert forall|e: Entity|
                world_rows(self.ecs).contains_key(e) && (#[trigger] world_rows(
                    self.ecs,
                )[e]).player is Some implies !world_doomed(self.ecs).contains(e) by {
                lemma_pass_keeps_rows(
                    world_rows(old(self).ecs),
                    old(self).turn_order@,
                    old(self).cursor as int,
                    self.map.width as int,
                    self.map.height as int,
                    self.player_pos,
                    self.player,
                    self.run_state,
                    e,
                );
            }
        }
        if request.is_some() {
            self.awaiting = true;
            proof {
                let went = pass(
                    world_rows(old(self).ecs),
                    old(self).turn_order@,
                    old(self).cursor as int,
                    old(self).map.width as int,
                    old(self).map.height as int,
                    old(self).player_pos,
                    old(self).player,
                    old(self).run_state,
                );
                assert(self.halted(*old(self), went.rows, old(self).map.blocked@, went.stop));
            }
            return request;
        }
        let ghost mid = *self;
        self.settle();
        proof {
            assert(self.settled(mid, world_rows(mid.ecs)));
            assert(self.settled(*old(self), world_rows(mid.ecs)));
        }
        None
    }
}

} // verus!
