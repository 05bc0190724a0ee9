//! The game world: entity store, score ledger, and the
//! Menu/Running/GameOver state machine.
//!
//! Transitions follow the cycle Menu → Running (a confirmed "play"
//! action), Running → GameOver (requested by the collision engine,
//! applied at the tick boundary) and GameOver → Menu (a confirmed
//! "restart" action). The score resets to zero on entering Running,
//! so it reads zero at the first tick of every Running episode.

use vstd::prelude::*;
use crate::components::{Entity, InputSnapshot, Kind};
use crate::constants::MAX_ENEMIES;
use crate::store::{count_kind, first_kind_index, EntityStore};

verus! {

/// The lifecycle state; exactly one is active.
#[derive(Clone, Copy, PartialEq, Eq, Structural, Debug)]
pub enum GameState {
    /// The title menu; the initial state.
    Menu,
    /// A run is in progress and the simulation systems execute.
    Running,
    /// The run has ended; awaiting a restart.
    GameOver,
}

/// Addition on the score, saturating at the accumulator's capacity
/// so that awarding points never wraps.
pub open spec fn sat_add(a: int, b: int) -> int {
    if a + b > u64::MAX { u64::MAX as int } else { a + b }
}

/// Folding one more non-negative award into a saturating sum is the
/// same as saturating once over the exact total.
pub proof fn lemma_sat_add_chain(a: int, b: int, c: int)
    requires
        0 <= a,
        0 <= b,
        0 <= c,
    ensures
        sat_add(sat_add(a, b), c) == sat_add(a, b + c),
{
}

/// The score ledger: a single accumulator, written only by the
/// collision engine and reset on entering Running.
#[derive(Clone, Copy, PartialEq, Eq, Structural, Debug)]
pub struct Score {
    /// The current total.
    pub value: u64,
}

impl Score {
    /// A zero score.
    pub fn new() -> (s: Score)
        ensures
            s.value == 0,
    {
        Score { value: 0 }
    }

    /// Awards `d` points; the total saturates instead of wrapping.
    pub fn add(&mut self, d: u64)
        ensures
            final(self).value == sat_add(old(self).value as int, d as int),
    {
        if self.value > u64::MAX - d {
            self.value = u64::MAX;
        } else {
            self.value = self.value + d;
        }
    }
}

/// The mathematical mirror of a `GameWorld`: the view its contracts
/// compose over, with the entity list as a sequence.
#[verifier::ext_equal]
pub ghost struct WorldView {
    /// The live entities, in spawn order.
    pub entities: Seq<Entity>,
    /// The id the next spawn will take.
    pub next_id: u64,
    /// The score total.
    pub score: u64,
    /// The active lifecycle state.
    pub state: GameState,
    /// Whether a Running → GameOver transition is requested.
    pub pending_game_over: bool,
}

/// The whole simulation state that one fixed tick advances.
pub struct GameWorld {
    /// All live entities.
    pub store: EntityStore,
    /// The score of the current Running episode.
    pub score: Score,
    /// The active lifecycle state.
    pub state: GameState,
    /// Set by the collision engine when the player was hit; the
    /// Running → GameOver transition is applied at the tick boundary.
    pub pending_game_over: bool,
}

impl View for GameWorld {
    type V = WorldView;

    open spec fn view(&self) -> WorldView {
        WorldView {
            entities: self.store.entities@,
            next_id: self.store.next_id,
            score: self.score.value,
            state: self.state,
            pending_game_over: self.pending_game_over,
        }
    }
}

impl GameWorld {
    /// World invariant: the store is well formed; outside Running the
    /// store is empty and no transition is pending; while Running at
    /// most one Player and at most one Ship (avatar) entity exist.
    pub open spec fn wf(self) -> bool {
        &&& self.store.wf()
        &&& self.state != GameState::Running ==> self.store.entities@.len() == 0
        &&& self.state != GameState::Running ==> !self.pending_game_over
        &&& count_kind(self.store.entities@, Kind::Player) <= 1
        &&& count_kind(self.store.entities@, Kind::Ship) <= 1
    }

    /// A fresh world: empty store, zero score, at the menu.
    pub fn new() -> (w: GameWorld)
        ensures
            w.wf(),
            w.state == GameState::Menu,
            w.score.value == 0,
            w.store.entities@.len() == 0,
            w.store.next_id == 0,
            !w.pending_game_over,
    {
        let w = GameWorld {
            store: EntityStore::new(),
            score: Score::new(),
            state: GameState::Menu,
            pending_game_over: false,
        };
        w
    }
}

/// Despawns every Enemy, Bullet, Ship and Player: the full,
/// unconditional sweep performed on leaving Running. Ids are never
/// reused afterwards; score, state and the pending flag are
/// untouched.
pub fn cleanup_game(world: &mut GameWorld)
    requires
        old(world).wf(),
    ensures
        final(world).wf(),
        final(world).store.entities@.len() == 0,
        final(world).store.next_id == old(world).store.next_id,
        final(world).score == old(world).score,
        final(world).state == old(world).state,
        final(world).pending_game_over == old(world).pending_game_over,
{
    world.store.entities = Vec::new();
}

/// A confirmed "play" action: from the menu, enter Running, reset
/// the score to zero and create the ship and the player hitbox.
/// In any other state nothing changes.
pub fn handle_play(world: &mut GameWorld)
    requires
        old(world).wf(),
        old(world).store.next_id + 2 <= u64::MAX,
    ensures
        final(world).wf(),
        old(world).state != GameState::Menu ==> *final(world) == *old(world),
        old(world).state == GameState::Menu ==> {
            &&& final(world).state == GameState::Running
            &&& final(world).score.value == 0
            &&& !final(world).pending_game_over
            &&& final(world).store.entities@ == old(world).store.entities@
                .push(crate::player::spawned_ship(old(world).store.next_id))
                .push(crate::player::spawned_player((old(world).store.next_id + 1) as u64))
            &&& count_kind(final(world).store.entities@, Kind::Player) == 1
            &&& count_kind(final(world).store.entities@, Kind::Ship) == 1
            &&& count_kind(final(world).store.entities@, Kind::Enemy) == 0
            &&& final(world).store.next_id == old(world).store.next_id + 2
        },
{
    if world.state == GameState::Menu {
        world.state = GameState::Running;
        world.score = Score::new();
        crate::player::spawn_player(world);
    }
}

/// A confirmed "restart" action: from GameOver, return to the menu.
/// The score is not reset here; it resets on the next Running entry.
/// In any other state nothing changes.
pub fn handle_restart(world: &mut GameWorld)
    requires
        old(world).wf(),
    ensures
        final(world).wf(),
        old(world).state != GameState::GameOver ==> *final(world) == *old(world),
        old(world).state == GameState::GameOver ==> {
            &&& final(world).state == GameState::Menu
            &&& final(world).score == old(world).score
            &&& final(world).store == old(world).store
            &&& !final(world).pending_game_over
        },
{
    if world.state == GameState::GameOver {
        world.state = GameState::Menu;
    }
}

/// Applies the collision engine's transition request at the tick
/// boundary: when one is pending, Running gives way to GameOver and
/// every entity is swept; without one, nothing changes.
pub fn apply_pending_transition(world: &mut GameWorld)
    requires
        old(world).wf(),
    ensures
        final(world).wf(),
        !old(world).pending_game_over ==> *final(world) == *old(world),
        old(world).pending_game_over ==> {
            &&& final(world).state == GameState::GameOver
            &&& final(world).store.entities@.len() == 0
            &&& final(world).store.next_id == old(world).store.next_id
            &&& final(world).score == old(world).score
            &&& !final(world).pending_game_over
        },
{
    if world.pending_game_over {
        cleanup_game(world);
        world.state = GameState::GameOver;
        world.pending_game_over = false;
    }
}

/// The spawner stage on the world's mirror: one enemy from the
/// given draws while the population is below the cap.
pub open spec fn spawner_stage(
    w: WorldView,
    x_draw: u32,
    sign_draw: u32,
    speed_draw: u32,
) -> WorldView {
    if count_kind(w.entities, Kind::Enemy) < MAX_ENEMIES as int {
        WorldView {
            entities: w.entities.push(
                crate::enemies::spawned_enemy(w.next_id, x_draw, sign_draw, speed_draw),
            ),
            next_id: (w.next_id + 1) as u64,
            ..w
        }
    } else {
        w
    }
}

/// The firing stage: on a fire action, one bullet at the first live
/// ship; without one, or without a ship, nothing.
pub open spec fn fire_stage(w: WorldView, input: InputSnapshot) -> WorldView {
    let si = first_kind_index(w.entities, Kind::Ship);
    if input.fire && si < w.entities.len() {
        WorldView {
            entities: w.entities.push(crate::player::fired_bullet(w.entities[si], w.next_id)),
            next_id: (w.next_id + 1) as u64,
            ..w
        }
    } else {
        w
    }
}

/// The mover stage: the player pass, the bullet pass, then the enemy
/// pass, each with its cull.
pub open spec fn mover_stage(w: WorldView, input: InputSnapshot) -> WorldView {
    WorldView {
        entities: crate::enemies::moved_enemies(
            crate::player::moved_bullets(crate::player::moved_players(w.entities, input)),
        ),
        ..w
    }
}

/// The collision stage: the player×enemy pass with its graze award
/// and transition request, then the bullet×enemy pass with its hit
/// award, each over its own snapshot.
pub open spec fn collision_stage(w: WorldView, input: InputSnapshot) -> WorldView {
    let after_pe = WorldView {
        entities: crate::player::pe_survivors(w.entities),
        pending_game_over: w.pending_game_over || crate::player::pe_overlap_exists(w.entities),
        score: sat_add(
            w.score as int,
            crate::player::rows_score(
                w.entities,
                Kind::Ship,
                crate::player::graze_points(input.focus),
            ),
        ) as u64,
        ..w
    };
    WorldView {
        entities: crate::player::be_survivors(after_pe.entities),
        score: sat_add(
            after_pe.score as int,
            crate::player::rows_score(
                after_pe.entities,
                Kind::Bullet,
                crate::player::bullet_hit_points(),
            ),
        ) as u64,
        ..after_pe
    }
}

/// The tick-boundary transition: a pending request leaves Running
/// for GameOver and sweeps every entity; otherwise nothing.
pub open spec fn transition_stage(w: WorldView) -> WorldView {
    if w.pending_game_over {
        WorldView {
            entities: Seq::empty(),
            state: GameState::GameOver,
            pending_game_over: false,
            ..w
        }
    } else {
        w
    }
}

/// What one Running tick makes of a world, given the three draws the
/// spawner takes from the entropy source: the five stages composed
/// in the fixed order.
pub open spec fn tick_spec(
    w: WorldView,
    input: InputSnapshot,
    x_draw: u32,
    sign_draw: u32,
    speed_draw: u32,
) -> WorldView {
    let after_spawn = spawner_stage(w, x_draw, sign_draw, speed_draw);
    let after_fire = fire_stage(after_spawn, input);
    let after_move = mover_stage(after_fire, input);
    let after_collision = collision_stage(after_move, input);
    transition_stage(after_collision)
}

/// One fixed-timestep advance. Outside Running nothing moves. While
/// Running the systems execute in the fixed order: spawner (one
/// enemy under the cap, then any fired bullet), mover (player and
/// ship, bullets, enemies), collision engine (player×enemy with its
/// graze scoring, then bullet×enemy), and finally the state machine
/// applies a requested Running → GameOver transition. The result of
/// a Running tick is exactly `tick_spec` of the old world for some
/// triple of draws; beyond that, the score never decreases over a
/// tick, and a spawner tick never lifts the enemy population above
/// the cap.
pub fn tick(world: &mut GameWorld, rng: &mut bevy_prng::ChaCha8Rng, input: &InputSnapshot)
    requires
        old(world).wf(),
        old(world).store.next_id + 2 <= u64::MAX,
    ensures
        final(world).wf(),
        old(world).state != GameState::Running ==> *final(world) == *old(world),
        final(world).score.value >= old(world).score.value,
        old(world).state == GameState::Running ==> (final(world).state == GameState::Running
            || final(world).state == GameState::GameOver),
        old(world).state == GameState::Running ==> !final(world).pending_game_over,
        old(world).state == GameState::Running
            && count_kind(old(world).store.entities@, Kind::Enemy) <= MAX_ENEMIES as int
            ==> count_kind(final(world).store.entities@, Kind::Enemy) <= MAX_ENEMIES as int,
        old(world).state == GameState::Running ==> exists|x_draw: u32, sign_draw: u32, speed_draw: u32|
            final(world)@ == #[trigger] tick_spec(old(world)@, *input, x_draw, sign_draw, speed_draw),
{
    if world.state != GameState::Running {
        return ;
    }
    let ghost v0 = world@;
    let ghost at_cap = count_kind(v0.entities, Kind::Enemy) >= MAX_ENEMIES as int;
    crate::enemies::spawn_enemy(world, rng);
    let ghost (x_draw, sign_draw, speed_draw): (u32, u32, u32) = if !at_cap {
        choose|a: u32, b: u32, c: u32|
            world.store.entities@ == v0.entities.push(
                #[trigger] crate::enemies::spawned_enemy(v0.next_id, a, b, c),
            )
    } else {
        (0u32, 0u32, 0u32)
    };
    let ghost v1 = spawner_stage(v0, x_draw, sign_draw, speed_draw);
    proof {
        assert(world@ =~= v1);
    }
    crate::player::fire_bullet(world, input);
    let ghost v2 = fire_stage(v1, *input);
    proof {
        crate::store::lemma_first_kind_index(v1.entities, Kind::Ship);
        assert(world@ =~= v2);
    }
    crate::player::move_player(world, input);
    crate::player::move_bullets(world);
    crate::enemies::move_enemy(world);
    let ghost v3 = mover_stage(v2, *input);
    proof {
        assert(world@ =~= v3);
    }
    crate::player::collide_player(world, input);
    crate::player::collide_bullets(world);
    let ghost v4 = collision_stage(v3, *input);
    proof {
        assert(world@ =~= v4);
    }
    apply_pending_transition(world);
    proof {
        assert(world@ =~= transition_stage(v4));
        assert(world@ == tick_spec(v0, *input, x_draw, sign_draw, speed_draw));
    }
}

} // verus!
