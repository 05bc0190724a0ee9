//! The enemy spawner and the enemy movement pass.
//!
//! Each tick the spawner creates exactly one enemy while the
//! population is below `MAX_ENEMIES`, and none otherwise. Its three
//! random draws pick the horizontal position (a magnitude and a sign,
//! clamped into the padded playfield) and the speed; the
//! speed-derived classification is cosmetic and computed on demand.
//! The movement pass lowers every enemy by its own speed and culls
//! the ones that left through the bottom edge; culling is applied
//! when the pass is complete, never mid-pass.

use vstd::prelude::*;
use crate::components::{Entity, Kind};
use crate::constants::{
    ENEMY_HALF_SUB, ENEMY_SPEED, FAST_SPEED, FIELD_HALF_H, FIELD_HALF_W, MAX_ENEMIES, PADDING,
    SCALE, SLOW_SPEED, SPAWN_Y, WINDOW_PADDING, WINDOW_W,
};
use crate::game::{GameState, GameWorld};
use crate::geometry::{clamp_i64, clamped};
use crate::seq_lemmas::{lemma_filter_elements, lemma_filter_push};
use crate::rng::rng_next_u32;
use crate::store::{
    all_wf, count_kind, ids_below, ids_distinct, lemma_count_kind_filter_le,
    lemma_count_kind_map_eq, lemma_count_kind_push, lemma_filter_preserves_ids,
};

verus! {

/// The cosmetic speed class of an enemy.
#[derive(Clone, Copy, PartialEq, Eq, Structural, Debug)]
pub enum Classification {
    /// Speed at least `FAST_SPEED`.
    Fast,
    /// Speed at most `SLOW_SPEED`.
    Slow,
    /// Every speed in between.
    Normal,
}

/// The class an enemy of the given speed belongs to.
pub open spec fn classification_of(speed: int) -> Classification {
    if speed >= FAST_SPEED as int {
        Classification::Fast
    } else if speed <= SLOW_SPEED as int {
        Classification::Slow
    } else {
        Classification::Normal
    }
}

/// Computes the speed class, deterministically from the speed alone.
pub fn classify(speed: i64) -> (c: Classification)
    ensures
        c == classification_of(speed as int),
{
    if speed >= FAST_SPEED {
        Classification::Fast
    } else if speed <= SLOW_SPEED {
        Classification::Slow
    } else {
        Classification::Normal
    }
}

/// The spawn x-coordinate in world units: the first draw gives a
/// magnitude below the window width, the second a sign, and the
/// result is clamped into the padded playfield.
pub open spec fn spawn_x_world(x_draw: u32, sign_draw: u32) -> int {
    let magnitude = (x_draw as int) % (WINDOW_W as int);
    let signed = if (sign_draw as int) % 2 == 0 {
        -magnitude
    } else {
        magnitude
    };
    clamped(
        signed,
        -(WINDOW_W as int) / 2 + (WINDOW_PADDING as int),
        (WINDOW_W as int) / 2 - (WINDOW_PADDING as int),
    )
}

/// The spawn speed: the third draw reduced below `ENEMY_SPEED`.
pub open spec fn spawn_speed(speed_draw: u32) -> int {
    (speed_draw as int) % (ENEMY_SPEED as int)
}

/// The enemy that the given id and draws produce: at the spawn row,
/// with the per-kind half-extents.
pub open spec fn spawned_enemy(id: u64, x_draw: u32, sign_draw: u32, speed_draw: u32) -> Entity {
    Entity {
        id,
        kind: Kind::Enemy,
        x: (spawn_x_world(x_draw, sign_draw) * (SCALE as int)) as i64,
        y: SPAWN_Y,
        half_x: ENEMY_HALF_SUB,
        half_y: ENEMY_HALF_SUB,
        speed: spawn_speed(speed_draw) as i64,
    }
}

/// For every pair of draws the spawn x-coordinate lies within the
/// padded playfield.
pub proof fn lemma_spawn_x_in_field(x_draw: u32, sign_draw: u32)
    ensures
        -(FIELD_HALF_W as int) + (PADDING as int)
            <= spawn_x_world(x_draw, sign_draw) * (SCALE as int)
            <= (FIELD_HALF_W as int) - (PADDING as int),
{
}

/// For every draw the spawn speed lies in `[0, ENEMY_SPEED)`.
pub proof fn lemma_spawn_speed_in_range(speed_draw: u32)
    ensures
        0 <= spawn_speed(speed_draw) < ENEMY_SPEED as int,
{
}

/// Spawns one enemy from the three given draws if the population is
/// below the cap, and does nothing otherwise; the cap is never
/// exceeded by a spawn.
pub fn spawn_enemy_from_draws(
    world: &mut GameWorld,
    x_draw: u32,
    sign_draw: u32,
    speed_draw: u32,
)
    requires
        old(world).wf(),
        old(world).state == GameState::Running,
        old(world).store.next_id < u64::MAX,
    ensures
        final(world).wf(),
        final(world).score == old(world).score,
        final(world).state == old(world).state,
        final(world).pending_game_over == old(world).pending_game_over,
        count_kind(old(world).store.entities@, Kind::Enemy) < MAX_ENEMIES as int ==> {
            &&& final(world).store.entities@ == old(world).store.entities@.push(
                spawned_enemy(old(world).store.next_id, x_draw, sign_draw, speed_draw),
            )
            &&& final(world).store.next_id == old(world).store.next_id + 1
        },
        count_kind(old(world).store.entities@, Kind::Enemy) >= MAX_ENEMIES as int
            ==> *final(world) == *old(world),
        count_kind(final(world).store.entities@, Kind::Enemy)
            == (if count_kind(old(world).store.entities@, Kind::Enemy) < MAX_ENEMIES as int {
                count_kind(old(world).store.entities@, Kind::Enemy) + 1
            } else {
                count_kind(old(world).store.entities@, Kind::Enemy)
            }),
        count_kind(old(world).store.entities@, Kind::Enemy) <= MAX_ENEMIES as int
            ==> count_kind(final(world).store.entities@, Kind::Enemy) <= MAX_ENEMIES as int,
{
    let count = world.store.count(Kind::Enemy);
    if count < MAX_ENEMIES {
        let magnitude: i64 = (x_draw % (WINDOW_W as u32)) as i64;
        let signed: i64 = if sign_draw % 2 == 0 {
            -magnitude
        } else {
            magnitude
        };
        let lo: i64 = -(WINDOW_W / 2) + WINDOW_PADDING;
        let hi: i64 = WINDOW_W / 2 - WINDOW_PADDING;
        let x_world: i64 = clamp_i64(signed, lo, hi);
        let x: i64 = x_world * SCALE;
        let speed: i64 = (speed_draw % (ENEMY_SPEED as u32)) as i64;
        proof {
            lemma_spawn_x_in_field(x_draw, sign_draw);
            lemma_spawn_speed_in_range(speed_draw);
            assert(x_world == spawn_x_world(x_draw, sign_draw));
            assert(speed == spawn_speed(speed_draw));
        }
        let ghost before = world.store.entities@;
        let id = world.store.spawn(
            Kind::Enemy,
            x,
            SPAWN_Y,
            ENEMY_HALF_SUB,
            ENEMY_HALF_SUB,
            speed,
        );
        proof {
            let e = spawned_enemy(id, x_draw, sign_draw, speed_draw);
            assert(world.store.entities@ =~= before.push(e));
            lemma_count_kind_push(before, e, Kind::Enemy);
            lemma_count_kind_push(before, e, Kind::Player);
            lemma_count_kind_push(before, e, Kind::Ship);
        }
    }
}

/// Runs the spawner for one tick: while the enemy population is
/// below `MAX_ENEMIES`, draws a horizontal position and a speed from
/// the entropy source and spawns exactly one enemy; at capacity it
/// draws nothing and spawns nothing. Whatever the generator yields,
/// the new enemy stands at the spawn row inside the padded
/// playfield, its speed lies in `[0, ENEMY_SPEED)`, and the cap is
/// never exceeded.
pub fn spawn_enemy(world: &mut GameWorld, rng: &mut bevy_prng::ChaCha8Rng)
    requires
        old(world).wf(),
        old(world).state == GameState::Running,
        old(world).store.next_id < u64::MAX,
    ensures
        final(world).wf(),
        final(world).score == old(world).score,
        final(world).state == old(world).state,
        final(world).pending_game_over == old(world).pending_game_over,
        count_kind(old(world).store.entities@, Kind::Enemy) >= MAX_ENEMIES as int
            ==> *final(world) == *old(world),
        count_kind(old(world).store.entities@, Kind::Enemy) < MAX_ENEMIES as int ==> {
            &&& final(world).store.next_id == old(world).store.next_id + 1
            &&& exists|x_draw: u32, sign_draw: u32, speed_draw: u32|
                final(world).store.entities@ == old(world).store.entities@.push(
                    #[trigger] spawned_enemy(
                        old(world).store.next_id, x_draw, sign_draw, speed_draw,
                    ),
                )
            &&& {
                let e = final(world).store.entities@.last();
                &&& e.kind == Kind::Enemy
                &&& e.id == old(world).store.next_id
                &&& -(FIELD_HALF_W as int) + (PADDING as int) <= e.x
                    <= (FIELD_HALF_W as int) - (PADDING as int)
                &&& e.y == SPAWN_Y
                &&& 0 <= e.speed < ENEMY_SPEED
                &&& e.half_x == ENEMY_HALF_SUB && e.half_y == ENEMY_HALF_SUB
            }
        },
        count_kind(final(world).store.entities@, Kind::Enemy)
            == (if count_kind(old(world).store.entities@, Kind::Enemy) < MAX_ENEMIES as int {
                count_kind(old(world).store.entities@, Kind::Enemy) + 1
            } else {
                count_kind(old(world).store.entities@, Kind::Enemy)
            }),
        count_kind(old(world).store.entities@, Kind::Enemy) <= MAX_ENEMIES as int
            ==> count_kind(final(world).store.entities@, Kind::Enemy) <= MAX_ENEMIES as int,
{
    let count = world.store.count(Kind::Enemy);
    if count < MAX_ENEMIES {
        let x_draw = rng_next_u32(rng);
        let sign_draw = rng_next_u32(rng);
        let speed_draw = rng_next_u32(rng);
        spawn_enemy_from_draws(world, x_draw, sign_draw, speed_draw);
        proof {
            lemma_spawn_x_in_field(x_draw, sign_draw);
            lemma_spawn_speed_in_range(speed_draw);
        }
    }
}

/// One enemy movement step: an enemy descends by its own speed; any
/// other entity is untouched.
pub open spec fn enemy_step(e: Entity) -> Entity {
    if e.kind == Kind::Enemy {
        Entity { y: (e.y - e.speed) as i64, ..e }
    } else {
        e
    }
}

/// `enemy_step` as a mapping function.
pub open spec fn enemy_step_fn() -> spec_fn(Entity) -> Entity {
    |e: Entity| enemy_step(e)
}

/// Whether an entity survives the enemy pass: every non-enemy does,
/// and an enemy does unless it lies below the bottom edge.
pub open spec fn enemy_in_field(e: Entity) -> bool {
    !(e.kind == Kind::Enemy && e.y < -(FIELD_HALF_H as int))
}

/// `enemy_in_field` as a filtering predicate.
pub open spec fn enemy_in_field_fn() -> spec_fn(Entity) -> bool {
    |e: Entity| enemy_in_field(e)
}

/// The entity list after the enemy movement pass: every enemy
/// descends by its speed, then the enemies below the bottom edge are
/// culled.
pub open spec fn moved_enemies(s: Seq<Entity>) -> Seq<Entity> {
    s.map_values(enemy_step_fn()).filter(enemy_in_field_fn())
}

/// How one more entity extends the result of the enemy pass.
proof fn lemma_moved_enemies_step(s: Seq<Entity>, i: int)
    requires
        0 <= i < s.len(),
    ensures
        moved_enemies(s.subrange(0, i + 1)) == (if enemy_in_field(enemy_step(s[i])) {
            moved_enemies(s.subrange(0, i)).push(enemy_step(s[i]))
        } else {
            moved_enemies(s.subrange(0, i))
        }),
{
    let pre = s.subrange(0, i);
    let post = s.subrange(0, i + 1);
    assert(post.map_values(enemy_step_fn())
        =~= pre.map_values(enemy_step_fn()).push(enemy_step(s[i])));
    lemma_filter_push(pre.map_values(enemy_step_fn()), enemy_step(s[i]), enemy_in_field_fn());
}

/// Advances every enemy by its own speed and culls the ones that
/// left through the bottom edge; nothing else changes, and no other
/// entity is touched.
pub fn move_enemy(world: &mut GameWorld)
    requires
        old(world).wf(),
    ensures
        final(world).wf(),
        final(world).score == old(world).score,
        final(world).state == old(world).state,
        final(world).pending_game_over == old(world).pending_game_over,
        final(world).store.next_id == old(world).store.next_id,
        final(world).store.entities@ == moved_enemies(old(world).store.entities@),
        forall|k: Kind|
            count_kind(final(world).store.entities@, k)
                <= count_kind(old(world).store.entities@, k),
{
    let ghost s = world.store.entities@;
    let ghost nid = world.store.next_id;
    let n = world.store.len();
    let mut kept: Vec<Entity> = Vec::new();
    let mut i: usize = 0;
    while i < n
        invariant
            world.store.entities@ == s,
            world.store.next_id == nid,
            all_wf(s),
            n == s.len(),
            i <= n,
            kept@ == moved_enemies(s.subrange(0, i as int)),
        decreases n - i,
    {
        let e = *world.store.get(i);
        proof {
            lemma_moved_enemies_step(s, i as int);
            assert(e.wf());
        }
        let stepped = if e.kind == Kind::Enemy {
            Entity { y: e.y - e.speed, ..e }
        } else {
            e
        };
        proof {
            assert(stepped == enemy_step(e));
        }
        if !(stepped.kind == Kind::Enemy && stepped.y < -FIELD_HALF_H) {
            kept.push(stepped);
        }
        i = i + 1;
    }
    proof {
        assert(s.subrange(0, n as int) =~= s);
        let mapped = s.map_values(enemy_step_fn());
        let pred = enemy_in_field_fn();
        let res = moved_enemies(s);
        assert(ids_distinct(mapped) && ids_below(mapped, nid)) by {
            assert(forall|k: int|
                0 <= k < s.len() ==> (#[trigger] mapped[k]).id == s[k].id);
        }
        lemma_filter_preserves_ids(mapped, pred, nid);
        lemma_filter_elements(mapped, pred);
        assert forall|k: int| 0 <= k < res.len() implies (#[trigger] res[k]).wf() by {
            mapped.lemma_filter_pred(pred, k);
            let e = res[k];
            let j = choose|j: int| 0 <= j < mapped.len() && mapped[j] == e;
            assert(e == enemy_step(s[j]));
            assert(s[j].wf());
        }
        assert(forall|e: Entity| (#[trigger] enemy_step_fn()(e)).kind == e.kind);
        assert forall|k: Kind|
            count_kind(res, k) <= count_kind(s, k) by {
            lemma_count_kind_map_eq(s, enemy_step_fn(), k);
            lemma_count_kind_filter_le(mapped, pred, k);
        }
        mapped.lemma_filter_len(pred);
    }
    world.store.entities = kept;
}

/// After the enemy pass no live enemy lies below the bottom edge
/// (the cull is part of the pass, so the next tick never sees one).
pub proof fn lemma_enemy_pass_culls(s: Seq<Entity>)
    ensures
        forall|k: int|
            0 <= k < moved_enemies(s).len()
                ==> !((#[trigger] moved_enemies(s)[k]).kind == Kind::Enemy
                    && moved_enemies(s)[k].y < -(FIELD_HALF_H as int)),
{
    let mapped = s.map_values(enemy_step_fn());
    let pred = enemy_in_field_fn();
    assert forall|k: int|
        0 <= k < moved_enemies(s).len()
            implies !((#[trigger] moved_enemies(s)[k]).kind == Kind::Enemy
                && moved_enemies(s)[k].y < -(FIELD_HALF_H as int)) by {
        mapped.lemma_filter_pred(pred, k);
    }
}

/// The enemy pass never alters an entity's id, kind, half-extents or
/// speed: every survivor is one of the old entities with at most its
/// position changed. In particular an enemy's speed is fixed at
/// spawn time.
pub proof fn lemma_enemy_pass_preserves_attributes(s: Seq<Entity>)
    ensures
        forall|k: int|
            0 <= k < moved_enemies(s).len() ==> exists|j: int|
                {
                    &&& 0 <= j < s.len()
                    &&& (#[trigger] moved_enemies(s)[k]).id == s[j].id
                    &&& moved_enemies(s)[k].kind == s[j].kind
                    &&& moved_enemies(s)[k].half_x == s[j].half_x
                    &&& moved_enemies(s)[k].half_y == s[j].half_y
                    &&& moved_enemies(s)[k].speed == s[j].speed
                    &&& moved_enemies(s)[k].x == s[j].x
                },
{
    let mapped = s.map_values(enemy_step_fn());
    let pred = enemy_in_field_fn();
    lemma_filter_elements(mapped, pred);
    assert forall|k: int|
        0 <= k < moved_enemies(s).len() implies exists|j: int|
            {
                &&& 0 <= j < s.len()
                &&& (#[trigger] moved_enemies(s)[k]).id == s[j].id
                &&& moved_enemies(s)[k].kind == s[j].kind
                &&& moved_enemies(s)[k].half_x == s[j].half_x
                &&& moved_enemies(s)[k].half_y == s[j].half_y
                &&& moved_enemies(s)[k].speed == s[j].speed
                &&& moved_enemies(s)[k].x == s[j].x
            } by {
        let e = moved_enemies(s)[k];
        let j = choose|j: int| 0 <= j < mapped.len() && mapped[j] == e;
        assert(e == enemy_step(s[j]));
        assert(0 <= j < s.len() && e.id == s[j].id && e.kind == s[j].kind
            && e.half_x == s[j].half_x && e.half_y == s[j].half_y
            && e.speed == s[j].speed && e.x == s[j].x);
    }
}

} // verus!
