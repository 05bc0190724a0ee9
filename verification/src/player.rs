//! The player's systems: movement of the player hitbox and the ship,
//! firing, bullet movement, and the collision engine.
//!
//! Movement is input-driven: each held direction key contributes the
//! current speed on its axis (diagonal input is deliberately
//! unnormalized, as a sum of unit vectors), and both the hitbox and
//! the ship are then clamped into the padded playfield. The
//! collision engine runs three independent pair-sets over one
//! snapshot of the entities — player×enemy, ship×enemy (graze) and
//! bullet×enemy — and applies all despawns only when a pass is
//! complete.

use vstd::prelude::*;
use crate::components::{Entity, InputSnapshot, Kind};
use crate::constants::{
    BULLET_HALF_SUB, BULLET_MUZZLE_OFFSET, BULLET_SPEED, COORD_LIMIT, FIELD_HALF_H, FIELD_HALF_W,
    PADDING, PLAYER_FOCUS_SPEED, PLAYER_HALF_SUB, PLAYER_SPAWN_Y, PLAYER_SPEED, SCALE,
    SHIP_HALF_SUB, SHIP_SPAWN_Y,
};
use crate::game::{lemma_sat_add_chain, sat_add, GameState, GameWorld};
use crate::geometry::{clamp_i64, clamped, ent_overlap, entities_overlap};
use crate::seq_lemmas::{lemma_filter_elements, lemma_filter_push, lemma_filter_subrange_step};
use crate::store::{
    all_wf, count_kind, first_kind_index, ids_below, ids_distinct, lemma_count_kind_filter_le,
    lemma_count_kind_map_eq, lemma_count_kind_push, lemma_filter_preserves_ids,
    lemma_filter_preserves_wf, lemma_first_kind_index,
};

verus! {

/// The ship (avatar) a play action creates: centred horizontally,
/// just above the bottom padding.
pub open spec fn spawned_ship(id: u64) -> Entity {
    Entity {
        id,
        kind: Kind::Ship,
        x: 0,
        y: SHIP_SPAWN_Y,
        half_x: SHIP_HALF_SUB,
        half_y: SHIP_HALF_SUB,
        speed: 0,
    }
}

/// The player hitbox a play action creates, five world units below
/// the ship's centre.
pub open spec fn spawned_player(id: u64) -> Entity {
    Entity {
        id,
        kind: Kind::Player,
        x: 0,
        y: PLAYER_SPAWN_Y,
        half_x: PLAYER_HALF_SUB,
        half_y: PLAYER_HALF_SUB,
        speed: 0,
    }
}

/// Creates the ship and the player hitbox on entering Running; both
/// speeds are input-derived each tick, so they are stored as zero.
pub fn spawn_player(world: &mut GameWorld)
    requires
        old(world).wf(),
        old(world).state == GameState::Running,
        count_kind(old(world).store.entities@, Kind::Player) == 0,
        count_kind(old(world).store.entities@, Kind::Ship) == 0,
        old(world).store.next_id + 2 <= u64::MAX,
    ensures
        final(world).wf(),
        final(world).score == old(world).score,
        final(world).state == old(world).state,
        final(world).pending_game_over == old(world).pending_game_over,
        final(world).store.next_id == old(world).store.next_id + 2,
        final(world).store.entities@ == old(world).store.entities@
            .push(spawned_ship(old(world).store.next_id))
            .push(spawned_player((old(world).store.next_id + 1) as u64)),
        count_kind(final(world).store.entities@, Kind::Player) == 1,
        count_kind(final(world).store.entities@, Kind::Ship) == 1,
        count_kind(final(world).store.entities@, Kind::Enemy)
            == count_kind(old(world).store.entities@, Kind::Enemy),
{
    let ghost s0 = world.store.entities@;
    let sid = world.store.spawn(Kind::Ship, 0, SHIP_SPAWN_Y, SHIP_HALF_SUB, SHIP_HALF_SUB, 0);
    proof {
        let ship = spawned_ship(sid);
        assert(world.store.entities@ =~= s0.push(ship));
        lemma_count_kind_push(s0, ship, Kind::Player);
        lemma_count_kind_push(s0, ship, Kind::Ship);
        lemma_count_kind_push(s0, ship, Kind::Enemy);
    }
    let ghost s1 = world.store.entities@;
    let pid = world.store.spawn(
        Kind::Player,
        0,
        PLAYER_SPAWN_Y,
        PLAYER_HALF_SUB,
        PLAYER_HALF_SUB,
        0,
    );
    proof {
        let player = spawned_player(pid);
        assert(world.store.entities@ =~= s1.push(player));
        lemma_count_kind_push(s1, player, Kind::Player);
        lemma_count_kind_push(s1, player, Kind::Ship);
        lemma_count_kind_push(s1, player, Kind::Enemy);
    }
}

/// The player's speed this tick: slowed while the focus modifier is
/// held.
pub open spec fn player_speed_of(input: InputSnapshot) -> int {
    if input.focus {
        PLAYER_FOCUS_SPEED as int
    } else {
        PLAYER_SPEED as int
    }
}

/// The displacement one axis contributes: the speed toward whichever
/// of the two keys is held, and nothing when both or neither is.
pub open spec fn axis_delta(pos: bool, neg: bool, sp: int) -> int {
    if pos == neg {
        0
    } else if pos {
        sp
    } else {
        -sp
    }
}

/// One player movement step: the hitbox and the ship move by the
/// input-derived displacement and are clamped into the padded
/// playfield; every other entity is untouched.
pub open spec fn player_step(e: Entity, input: InputSnapshot) -> Entity {
    if e.kind == Kind::Player || e.kind == Kind::Ship {
        Entity {
            x: clamped(
                e.x + axis_delta(input.right, input.left, player_speed_of(input)),
                -(FIELD_HALF_W as int) + (PADDING as int),
                (FIELD_HALF_W as int) - (PADDING as int),
            ) as i64,
            y: clamped(
                e.y + axis_delta(input.up, input.down, player_speed_of(input)),
                -(FIELD_HALF_H as int) + (PADDING as int),
                (FIELD_HALF_H as int) - (PADDING as int),
            ) as i64,
            ..e
        }
    } else {
        e
    }
}

/// `player_step` as a mapping function.
pub open spec fn player_step_fn(input: InputSnapshot) -> spec_fn(Entity) -> Entity {
    |e: Entity| player_step(e, input)
}

/// The entity list after the player movement pass.
pub open spec fn moved_players(s: Seq<Entity>, input: InputSnapshot) -> Seq<Entity> {
    s.map_values(player_step_fn(input))
}

/// Moves the player hitbox and the ship by the held direction keys
/// at the focus-dependent speed, clamping both into the padded
/// playfield; no entity is created or removed.
pub fn move_player(world: &mut GameWorld, input: &InputSnapshot)
    requires
        old(world).wf(),
    ensures
        final(world).wf(),
        final(world).score == old(world).score,
        final(world).state == old(world).state,
        final(world).pending_game_over == old(world).pending_game_over,
        final(world).store.next_id == old(world).store.next_id,
        final(world).store.entities@ == moved_players(old(world).store.entities@, *input),
        forall|k: Kind|
            count_kind(final(world).store.entities@, k)
                == count_kind(old(world).store.entities@, k),
{
    let ghost s = world.store.entities@;
    let ghost nid = world.store.next_id;
    let n = world.store.len();
    let mut moved: Vec<Entity> = Vec::new();
    let sp: i64 = if input.focus {
        PLAYER_FOCUS_SPEED
    } else {
        PLAYER_SPEED
    };
    let mut i: usize = 0;
    while i < n
        invariant
            world.store.entities@ == s,
            all_wf(s),
            n == s.len(),
            i <= n,
            sp == player_speed_of(*input),
            moved@ == moved_players(s.subrange(0, i as int), *input),
        decreases n - i,
    {
        let e = *world.store.get(i);
        proof {
            assert(e.wf());
        }
        let stepped = if e.kind == Kind::Player || e.kind == Kind::Ship {
            let dx: i64 = if input.right == input.left {
                0
            } else if input.right {
                sp
            } else {
                -sp
            };
            let dy: i64 = if input.up == input.down {
                0
            } else if input.up {
                sp
            } else {
                -sp
            };
            let nx = clamp_i64(e.x + dx, -FIELD_HALF_W + PADDING, FIELD_HALF_W - PADDING);
            let ny = clamp_i64(e.y + dy, -FIELD_HALF_H + PADDING, FIELD_HALF_H - PADDING);
            Entity { x: nx, y: ny, ..e }
        } else {
            e
        };
        proof {
            assert(stepped == player_step(e, *input));
            assert(s.subrange(0, i as int + 1).map_values(player_step_fn(*input))
                =~= s.subrange(0, i as int).map_values(player_step_fn(*input)).push(
                    player_step(s[i as int], *input)));
        }
        moved.push(stepped);
        i = i + 1;
    }
    proof {
        assert(s.subrange(0, n as int) =~= s);
        let res = moved_players(s, *input);
        assert(forall|k: int| 0 <= k < s.len() ==> (#[trigger] res[k]).id == s[k].id);
        assert forall|k: int| 0 <= k < res.len() implies (#[trigger] res[k]).wf() by {
            assert(res[k] == player_step(s[k], *input));
            assert(s[k].wf());
        }
        assert(forall|e: Entity|
            (#[trigger] player_step_fn(*input)(e)).kind == e.kind);
        assert forall|k: Kind|
            count_kind(res, k) == count_kind(s, k) by {
            lemma_count_kind_map_eq(s, player_step_fn(*input), k);
        }
    }
    world.store.entities = moved;
}

/// One bullet movement step: a bullet ascends by the bullet speed;
/// any other entity is untouched.
pub open spec fn bullet_step(e: Entity) -> Entity {
    if e.kind == Kind::Bullet {
        Entity { y: (e.y + BULLET_SPEED) as i64, ..e }
    } else {
        e
    }
}

/// `bullet_step` as a mapping function.
pub open spec fn bullet_step_fn() -> spec_fn(Entity) -> Entity {
    |e: Entity| bullet_step(e)
}

/// Whether an entity survives the bullet pass: every non-bullet
/// does, and a bullet does unless it lies above the top edge.
pub open spec fn bullet_in_field(e: Entity) -> bool {
    !(e.kind == Kind::Bullet && e.y > FIELD_HALF_H as int)
}

/// `bullet_in_field` as a filtering predicate.
pub open spec fn bullet_in_field_fn() -> spec_fn(Entity) -> bool {
    |e: Entity| bullet_in_field(e)
}

/// The entity list after the bullet movement pass: every bullet
/// ascends by the bullet speed, then the bullets above the top edge
/// are culled.
pub open spec fn moved_bullets(s: Seq<Entity>) -> Seq<Entity> {
    s.map_values(bullet_step_fn()).filter(bullet_in_field_fn())
}

/// How one more entity extends the result of the bullet pass.
proof fn lemma_moved_bullets_step(s: Seq<Entity>, i: int)
    requires
        0 <= i < s.len(),
    ensures
        moved_bullets(s.subrange(0, i + 1)) == (if bullet_in_field(bullet_step(s[i])) {
            moved_bullets(s.subrange(0, i)).push(bullet_step(s[i]))
        } else {
            moved_bullets(s.subrange(0, i))
        }),
{
    let pre = s.subrange(0, i);
    let post = s.subrange(0, i + 1);
    assert(post.map_values(bullet_step_fn())
        =~= pre.map_values(bullet_step_fn()).push(bullet_step(s[i])));
    lemma_filter_push(pre.map_values(bullet_step_fn()), bullet_step(s[i]), bullet_in_field_fn());
}

/// Advances every bullet upward by the bullet speed and culls the
/// ones that left through the top edge; nothing else changes.
pub fn move_bullets(world: &mut GameWorld)
    requires
        old(world).wf(),
    ensures
        final(world).wf(),
        final(world).score == old(world).score,
        final(world).state == old(world).state,
        final(world).pending_game_over == old(world).pending_game_over,
        final(world).store.next_id == old(world).store.next_id,
        final(world).store.entities@ == moved_bullets(old(world).store.entities@),
        forall|k: Kind|
            count_kind(final(world).store.entities@, k)
                <= count_kind(old(world).store.entities@, k),
{
    let ghost s = world.store.entities@;
    let ghost nid = world.store.next_id;
    let n = world.store.len();
    let mut kept: Vec<Entity> = Vec::new();
    let mut i: usize = 0;
    while i < n
        invariant
            world.store.entities@ == s,
            world.store.next_id == nid,
            all_wf(s),
            n == s.len(),
            i <= n,
            kept@ == moved_bullets(s.subrange(0, i as int)),
        decreases n - i,
    {
        let e = *world.store.get(i);
        proof {
            lemma_moved_bullets_step(s, i as int);
            assert(e.wf());
        }
        let stepped = if e.kind == Kind::Bullet {
            Entity { y: e.y + BULLET_SPEED, ..e }
        } else {
            e
        };
        proof {
            assert(stepped == bullet_step(e));
        }
        if !(stepped.kind == Kind::Bullet && stepped.y > FIELD_HALF_H) {
            kept.push(stepped);
        }
        i = i + 1;
    }
    proof {
        assert(s.subrange(0, n as int) =~= s);
        let mapped = s.map_values(bullet_step_fn());
        let pred = bullet_in_field_fn();
        let res = moved_bullets(s);
        assert(ids_distinct(mapped) && ids_below(mapped, nid)) by {
            assert(forall|k: int|
                0 <= k < s.len() ==> (#[trigger] mapped[k]).id == s[k].id);
        }
        lemma_filter_preserves_ids(mapped, pred, nid);
        lemma_filter_elements(mapped, pred);
        assert forall|k: int| 0 <= k < res.len() implies (#[trigger] res[k]).wf() by {
            mapped.lemma_filter_pred(pred, k);
            let e = res[k];
            let j = choose|j: int| 0 <= j < mapped.len() && mapped[j] == e;
            assert(e == bullet_step(s[j]));
            assert(s[j].wf());
        }
        assert(forall|e: Entity| (#[trigger] bullet_step_fn()(e)).kind == e.kind);
        assert forall|k: Kind|
            count_kind(res, k) <= count_kind(s, k) by {
            lemma_count_kind_map_eq(s, bullet_step_fn(), k);
            lemma_count_kind_filter_le(mapped, pred, k);
        }
        mapped.lemma_filter_len(pred);
    }
    world.store.entities = kept;
}

/// Where a bullet leaves the ship's nose, in sub-units: the muzzle
/// offset above the ship's centre, capped at the coordinate bound
/// (unreachable in play, since the ship is clamped into the
/// playfield every tick).
pub open spec fn bullet_spawn_y(ship_y: i64) -> int {
    let muzzle = (BULLET_MUZZLE_OFFSET as int) * (SCALE as int);
    if ship_y + muzzle > COORD_LIMIT as int {
        COORD_LIMIT as int
    } else {
        ship_y + muzzle
    }
}

/// The bullet a fire action creates at the given ship.
pub open spec fn fired_bullet(ship: Entity, id: u64) -> Entity {
    Entity {
        id,
        kind: Kind::Bullet,
        x: ship.x,
        y: bullet_spawn_y(ship.y) as i64,
        half_x: BULLET_HALF_SUB,
        half_y: BULLET_HALF_SUB,
        speed: BULLET_SPEED,
    }
}

/// On a fire action, spawns one bullet just above the ship's nose;
/// without a fire action, or without a live ship, nothing changes.
pub fn fire_bullet(world: &mut GameWorld, input: &InputSnapshot)
    requires
        old(world).wf(),
        old(world).state == GameState::Running,
        old(world).store.next_id < u64::MAX,
    ensures
        final(world).wf(),
        final(world).score == old(world).score,
        final(world).state == old(world).state,
        final(world).pending_game_over == old(world).pending_game_over,
        !input.fire ==> *final(world) == *old(world),
        input.fire && first_kind_index(old(world).store.entities@, Kind::Ship)
            == old(world).store.entities@.len() ==> *final(world) == *old(world),
        input.fire && first_kind_index(old(world).store.entities@, Kind::Ship)
            < old(world).store.entities@.len() ==> {
            &&& final(world).store.entities@ == old(world).store.entities@.push(
                fired_bullet(
                    old(world).store.entities@[
                        first_kind_index(old(world).store.entities@, Kind::Ship)
                    ],
                    old(world).store.next_id,
                ),
            )
            &&& final(world).store.next_id == old(world).store.next_id + 1
        },
        count_kind(final(world).store.entities@, Kind::Enemy)
            == count_kind(old(world).store.entities@, Kind::Enemy),
        count_kind(final(world).store.entities@, Kind::Player)
            == count_kind(old(world).store.entities@, Kind::Player),
        count_kind(final(world).store.entities@, Kind::Ship)
            == count_kind(old(world).store.entities@, Kind::Ship),
{
    if !input.fire {
        return ;
    }
    let ghost s = world.store.entities@;
    let n = world.store.len();
    let mut i: usize = 0;
    while i < n
        invariant
            *world == *old(world),
            old(world).wf(),
            old(world).state == GameState::Running,
            old(world).store.next_id < u64::MAX,
            input.fire,
            world.store.entities@ == s,
            n == s.len(),
            i <= n,
            forall|j: int| 0 <= j < i ==> (#[trigger] s[j]).kind != Kind::Ship,
        decreases n - i,
    {
        let e = *world.store.get(i);
        if e.kind == Kind::Ship {
            proof {
                assert(e.wf());
                lemma_first_kind_index(s, Kind::Ship);
                assert(first_kind_index(s, Kind::Ship) == i as int);
            }
            let muzzle: i64 = BULLET_MUZZLE_OFFSET * SCALE;
            let by: i64 = if e.y > COORD_LIMIT - muzzle {
                COORD_LIMIT
            } else {
                e.y + muzzle
            };
            let ghost before = world.store.entities@;
            let id = world.store.spawn(
                Kind::Bullet,
                e.x,
                by,
                BULLET_HALF_SUB,
                BULLET_HALF_SUB,
                BULLET_SPEED,
            );
            proof {
                let b = fired_bullet(e, id);
                assert(world.store.entities@ =~= before.push(b));
                lemma_count_kind_push(before, b, Kind::Enemy);
                lemma_count_kind_push(before, b, Kind::Player);
                lemma_count_kind_push(before, b, Kind::Ship);
            }
            return ;
        }
        i = i + 1;
    }
    proof {
        lemma_first_kind_index(s, Kind::Ship);
    }
}

/// Whether the lethal player×enemy pass dooms an entity, judged
/// against one snapshot of the entities: a player overlapping any
/// enemy, or an enemy overlapping any player.
pub open spec fn pe_doomed(s: Seq<Entity>, e: Entity) -> bool {
    ||| (e.kind == Kind::Player && exists|j: int|
        0 <= j < s.len() && (#[trigger] s[j]).kind == Kind::Enemy && ent_overlap(e, s[j]))
    ||| (e.kind == Kind::Enemy && exists|j: int|
        0 <= j < s.len() && (#[trigger] s[j]).kind == Kind::Player && ent_overlap(s[j], e))
}

/// The survivor predicate of the player×enemy pass.
pub open spec fn pe_keeps(s: Seq<Entity>) -> spec_fn(Entity) -> bool {
    |e: Entity| !pe_doomed(s, e)
}

/// The entity list after the player×enemy pass: both members of
/// every overlapping player–enemy pair are despawned, all judged
/// against the same snapshot.
pub open spec fn pe_survivors(s: Seq<Entity>) -> Seq<Entity> {
    s.filter(pe_keeps(s))
}

/// Whether any player–enemy overlap exists in the snapshot.
pub open spec fn pe_overlap_exists(s: Seq<Entity>) -> bool {
    exists|a: int, b: int|
        0 <= a < s.len() && 0 <= b < s.len() && (#[trigger] s[a]).kind == Kind::Player
            && (#[trigger] s[b]).kind == Kind::Enemy && ent_overlap(s[a], s[b])
}

/// Points one graze awards: more while the focus modifier is held.
pub open spec fn graze_points(focus: bool) -> int {
    if focus { 10 } else { 1 }
}

/// Points awarded for the enemies among the first `j` entities that
/// overlap `a`, at `pts` each.
pub open spec fn enemy_hits_upto(a: Entity, s: Seq<Entity>, j: int, pts: int) -> int
    decreases j,
{
    if j <= 0 {
        0
    } else {
        enemy_hits_upto(a, s, j - 1, pts)
            + (if s[j - 1].kind == Kind::Enemy && ent_overlap(a, s[j - 1]) { pts } else { 0int })
    }
}

/// Points awarded for every enemy overlapping `a`, at `pts` each.
pub open spec fn enemy_hits(a: Entity, s: Seq<Entity>, pts: int) -> int {
    enemy_hits_upto(a, s, s.len() as int, pts)
}

/// Points awarded over the first `i` entities of kind `ka`, each
/// paired against every overlapping enemy of the whole snapshot.
pub open spec fn rows_score_upto(s: Seq<Entity>, ka: Kind, i: int, pts: int) -> int
    decreases i,
{
    if i <= 0 {
        0
    } else {
        rows_score_upto(s, ka, i - 1, pts)
            + (if s[i - 1].kind == ka { enemy_hits(s[i - 1], s, pts) } else { 0int })
    }
}

/// Points awarded over the full cross product of the `ka`-kind
/// entities and the enemies they overlap, at `pts` a pair.
pub open spec fn rows_score(s: Seq<Entity>, ka: Kind, pts: int) -> int {
    rows_score_upto(s, ka, s.len() as int, pts)
}

/// Row scores never go negative when the award is non-negative.
pub proof fn lemma_enemy_hits_upto_nonneg(a: Entity, s: Seq<Entity>, j: int, pts: int)
    requires
        pts >= 0,
    ensures
        0 <= enemy_hits_upto(a, s, j, pts),
    decreases j,
{
    if j > 0 {
        lemma_enemy_hits_upto_nonneg(a, s, j - 1, pts);
    }
}

/// Cross-product scores never go negative when the award is
/// non-negative.
pub proof fn lemma_rows_score_upto_nonneg(s: Seq<Entity>, ka: Kind, i: int, pts: int)
    requires
        pts >= 0,
    ensures
        0 <= rows_score_upto(s, ka, i, pts),
    decreases i,
{
    if i > 0 {
        lemma_rows_score_upto_nonneg(s, ka, i - 1, pts);
        lemma_enemy_hits_upto_nonneg(s[i - 1], s, s.len() as int, pts);
    }
}

/// The player×enemy and ship×enemy (graze) pair-sets, over one
/// snapshot of the entities, after movement.
///
/// Every overlapping player–enemy pair despawns both members and
/// requests the Running → GameOver transition; the request is a
/// single flag, so however many overlaps occur at once, at most one
/// transition results. Every ship–enemy overlap awards graze points
/// (ten under focus, one otherwise) without despawning anything; an
/// enemy staying in range scores again each tick, by design.
pub fn collide_player(world: &mut GameWorld, input: &InputSnapshot)
    requires
        old(world).wf(),
    ensures
        final(world).wf(),
        final(world).state == old(world).state,
        final(world).store.next_id == old(world).store.next_id,
        final(world).store.entities@ == pe_survivors(old(world).store.entities@),
        final(world).pending_game_over == (old(world).pending_game_over
            || pe_overlap_exists(old(world).store.entities@)),
        final(world).score.value == sat_add(
            old(world).score.value as int,
            rows_score(old(world).store.entities@, Kind::Ship, graze_points(input.focus)),
        ),
        final(world).score.value >= old(world).score.value,
        forall|k: Kind|
            count_kind(final(world).store.entities@, k)
                <= count_kind(old(world).store.entities@, k),
{
    let ghost s = world.store.entities@;
    let ghost nid = world.store.next_id;
    let ghost sc0 = world.score.value;
    let ghost st0 = world.state;
    let ghost pd0 = world.pending_game_over;
    let ghost pts = graze_points(input.focus);
    let n = world.store.len();

    let mut kept: Vec<Entity> = Vec::new();
    let mut hit_any: bool = false;
    let mut i: usize = 0;
    while i < n
        invariant
            world.store.entities@ == s,
            all_wf(s),
            n == s.len(),
            i <= n,
            kept@ == s.subrange(0, i as int).filter(pe_keeps(s)),
            hit_any == exists|a: int, b: int|
                0 <= a < i && 0 <= b < s.len() && (#[trigger] s[a]).kind == Kind::Player
                    && (#[trigger] s[b]).kind == Kind::Enemy && ent_overlap(s[a], s[b]),
        decreases n - i,
    {
        let e = *world.store.get(i);
        proof {
            assert(e.wf());
        }
        let mut doomed: bool = false;
        if e.kind == Kind::Player {
            let mut j: usize = 0;
            while j < n
                invariant
                    world.store.entities@ == s,
                    all_wf(s),
                    n == s.len(),
                    j <= n,
                    i < n,
                    e == s[i as int],
                    e.wf(),
                    doomed == exists|b: int|
                        0 <= b < j && (#[trigger] s[b]).kind == Kind::Enemy
                            && ent_overlap(e, s[b]),
                decreases n - j,
            {
                let o = *world.store.get(j);
                proof {
                    assert(o.wf());
                }
                if o.kind == Kind::Enemy && entities_overlap(&e, &o) {
                    doomed = true;
                }
                j = j + 1;
            }
        } else if e.kind == Kind::Enemy {
            let mut j: usize = 0;
            while j < n
                invariant
                    world.store.entities@ == s,
                    all_wf(s),
                    n == s.len(),
                    j <= n,
                    i < n,
                    e == s[i as int],
                    e.wf(),
                    doomed == exists|b: int|
                        0 <= b < j && (#[trigger] s[b]).kind == Kind::Player
                            && ent_overlap(s[b], e),
                decreases n - j,
            {
                let o = *world.store.get(j);
                proof {
                    assert(o.wf());
                }
                if o.kind == Kind::Player && entities_overlap(&o, &e) {
                    doomed = true;
                }
                j = j + 1;
            }
        }
        proof {
            assert(doomed == pe_doomed(s, e));
            lemma_filter_subrange_step(s, pe_keeps(s), i as int);
            assert(pe_keeps(s)(e) == !pe_doomed(s, e));
        }
        if !doomed {
            kept.push(e);
        }
        let player_hit = e.kind == Kind::Player && doomed;
        if player_hit {
            hit_any = true;
        }
        proof {
            if player_hit {
                let b = choose|b: int|
                    0 <= b < s.len() && (#[trigger] s[b]).kind == Kind::Enemy
                        && ent_overlap(e, s[b]);
                assert(0 <= i < i + 1 && 0 <= b < s.len() && s[i as int].kind == Kind::Player
                    && s[b].kind == Kind::Enemy && ent_overlap(s[i as int], s[b]));
            } else {
                if exists|a: int, bb: int|
                    0 <= a < i + 1 && 0 <= bb < s.len() && (#[trigger] s[a]).kind == Kind::Player
                        && (#[trigger] s[bb]).kind == Kind::Enemy && ent_overlap(s[a], s[bb]) {
                    let (a, bb) = choose|a: int, bb: int|
                        0 <= a < i + 1 && 0 <= bb < s.len()
                            && (#[trigger] s[a]).kind == Kind::Player
                            && (#[trigger] s[bb]).kind == Kind::Enemy
                            && ent_overlap(s[a], s[bb]);
                    if a == i {
                        assert(pe_doomed(s, e));
                        assert(false);
                    }
                }
            }
        }
        i = i + 1;
    }

    let pts_exec: u64 = if input.focus {
        10
    } else {
        1
    };
    let mut gi: usize = 0;
    while gi < n
        invariant
            world.store.entities@ == s,
            world.store.next_id == nid,
            world.state == st0,
            world.pending_game_over == pd0,
            all_wf(s),
            n == s.len(),
            gi <= n,
            pts == graze_points(input.focus),
            pts_exec == pts,
            world.score.value == sat_add(
                sc0 as int,
                rows_score_upto(s, Kind::Ship, gi as int, pts),
            ),
        decreases n - gi,
    {
        let a = *world.store.get(gi);
        proof {
            assert(a.wf());
        }
        if a.kind == Kind::Ship {
            let mut gj: usize = 0;
            while gj < n
                invariant
                    world.store.entities@ == s,
                    world.store.next_id == nid,
                    world.state == st0,
                    world.pending_game_over == pd0,
                    all_wf(s),
                    n == s.len(),
                    gj <= n,
                    gi < n,
                    a == s[gi as int],
                    a.kind == Kind::Ship,
                    a.wf(),
                    pts == graze_points(input.focus),
                    pts_exec == pts,
                    world.score.value == sat_add(
                        sc0 as int,
                        rows_score_upto(s, Kind::Ship, gi as int, pts)
                            + enemy_hits_upto(a, s, gj as int, pts),
                    ),
                decreases n - gj,
            {
                let o = *world.store.get(gj);
                proof {
                    assert(o.wf());
                }
                if o.kind == Kind::Enemy && entities_overlap(&a, &o) {
                    proof {
                        lemma_rows_score_upto_nonneg(s, Kind::Ship, gi as int, pts);
                        lemma_enemy_hits_upto_nonneg(a, s, gj as int, pts);
                        lemma_sat_add_chain(
                            sc0 as int,
                            rows_score_upto(s, Kind::Ship, gi as int, pts)
                                + enemy_hits_upto(a, s, gj as int, pts),
                            pts,
                        );
                    }
                    world.score.add(pts_exec);
                }
                proof {
                    assert(enemy_hits_upto(a, s, gj as int + 1, pts)
                        == enemy_hits_upto(a, s, gj as int, pts)
                            + (if s[gj as int].kind == Kind::Enemy && ent_overlap(a, s[gj as int]) {
                                pts
                            } else {
                                0int
                            }));
                }
                gj = gj + 1;
            }
            proof {
                assert(rows_score_upto(s, Kind::Ship, gi as int + 1, pts)
                    == rows_score_upto(s, Kind::Ship, gi as int, pts) + enemy_hits(a, s, pts));
            }
        } else {
            proof {
                assert(rows_score_upto(s, Kind::Ship, gi as int + 1, pts)
                    == rows_score_upto(s, Kind::Ship, gi as int, pts));
            }
        }
        gi = gi + 1;
    }

    proof {
        assert(s.subrange(0, n as int) =~= s);
        lemma_filter_preserves_ids(s, pe_keeps(s), nid);
        lemma_filter_preserves_wf(s, pe_keeps(s));
        assert forall|k: Kind|
            count_kind(pe_survivors(s), k) <= count_kind(s, k) by {
            lemma_count_kind_filter_le(s, pe_keeps(s), k);
        }
        s.lemma_filter_len(pe_keeps(s));
        lemma_rows_score_upto_nonneg(s, Kind::Ship, n as int, pts);
    }
    world.store.entities = kept;
    world.pending_game_over = world.pending_game_over || hit_any;
}

/// Whether the bullet×enemy pass dooms an entity, judged against one
/// snapshot of the entities: a bullet overlapping any enemy, or an
/// enemy overlapping any bullet.
pub open spec fn be_doomed(s: Seq<Entity>, e: Entity) -> bool {
    ||| (e.kind == Kind::Bullet && exists|j: int|
        0 <= j < s.len() && (#[trigger] s[j]).kind == Kind::Enemy && ent_overlap(e, s[j]))
    ||| (e.kind == Kind::Enemy && exists|j: int|
        0 <= j < s.len() && (#[trigger] s[j]).kind == Kind::Bullet && ent_overlap(s[j], e))
}

/// The survivor predicate of the bullet×enemy pass.
pub open spec fn be_keeps(s: Seq<Entity>) -> spec_fn(Entity) -> bool {
    |e: Entity| !be_doomed(s, e)
}

/// The entity list after the bullet×enemy pass: both members of
/// every overlapping bullet–enemy pair are despawned, all judged
/// against the same snapshot.
pub open spec fn be_survivors(s: Seq<Entity>) -> Seq<Entity> {
    s.filter(be_keeps(s))
}

/// Points a bullet hit awards.
pub open spec fn bullet_hit_points() -> int {
    10
}

/// The bullet×enemy pair-set, over one snapshot of the entities:
/// every overlapping bullet–enemy pair despawns both members and
/// awards ten points; each entity leaves the store once, however
/// many pairs it stood in.
pub fn collide_bullets(world: &mut GameWorld)
    requires
        old(world).wf(),
    ensures
        final(world).wf(),
        final(world).state == old(world).state,
        final(world).pending_game_over == old(world).pending_game_over,
        final(world).store.next_id == old(world).store.next_id,
        final(world).store.entities@ == be_survivors(old(world).store.entities@),
        final(world).score.value == sat_add(
            old(world).score.value as int,
            rows_score(old(world).store.entities@, Kind::Bullet, bullet_hit_points()),
        ),
        final(world).score.value >= old(world).score.value,
        forall|k: Kind|
            count_kind(final(world).store.entities@, k)
                <= count_kind(old(world).store.entities@, k),
{
    let ghost s = world.store.entities@;
    let ghost nid = world.store.next_id;
    let ghost sc0 = world.score.value;
    let ghost st0 = world.state;
    let ghost pd0 = world.pending_game_over;
    let ghost pts = bullet_hit_points();
    let n = world.store.len();

    let mut kept: Vec<Entity> = Vec::new();
    let mut i: usize = 0;
    while i < n
        invariant
            world.store.entities@ == s,
            all_wf(s),
            n == s.len(),
            i <= n,
            kept@ == s.subrange(0, i as int).filter(be_keeps(s)),
        decreases n - i,
    {
        let e = *world.store.get(i);
        proof {
            assert(e.wf());
        }
        let mut doomed: bool = false;
        if e.kind == Kind::Bullet {
            let mut j: usize = 0;
            while j < n
                invariant
                    world.store.entities@ == s,
                    all_wf(s),
                    n == s.len(),
                    j <= n,
                    i < n,
                    e == s[i as int],
                    e.wf(),
                    doomed == exists|b: int|
                        0 <= b < j && (#[trigger] s[b]).kind == Kind::Enemy
                            && ent_overlap(e, s[b]),
                decreases n - j,
            {
                let o = *world.store.get(j);
                proof {
                    assert(o.wf());
                }
                if o.kind == Kind::Enemy && entities_overlap(&e, &o) {
                    doomed = true;
                }
                j = j + 1;
            }
        } else if e.kind == Kind::Enemy {
            let mut j: usize = 0;
            while j < n
                invariant
                    world.store.entities@ == s,
                    all_wf(s),
                    n == s.len(),
                    j <= n,
                    i < n,
                    e == s[i as int],
                    e.wf(),
                    doomed == exists|b: int|
                        0 <= b < j && (#[trigger] s[b]).kind == Kind::Bullet
                            && ent_overlap(s[b], e),
                decreases n - j,
            {
                let o = *world.store.get(j);
                proof {
                    assert(o.wf());
                }
                if o.kind == Kind::Bullet && entities_overlap(&o, &e) {
                    doomed = true;
                }
                j = j + 1;
            }
        }
        proof {
            assert(doomed == be_doomed(s, e));
            lemma_filter_subrange_step(s, be_keeps(s), i as int);
            assert(be_keeps(s)(e) == !be_doomed(s, e));
        }
        if !doomed {
            kept.push(e);
        }
        i = i + 1;
    }

    let mut gi: usize = 0;
    while gi < n
        invariant
            world.store.entities@ == s,
            world.store.next_id == nid,
            world.state == st0,
            world.pending_game_over == pd0,
            all_wf(s),
            n == s.len(),
            gi <= n,
            pts == bullet_hit_points(),
            world.score.value == sat_add(
                sc0 as int,
                rows_score_upto(s, Kind::Bullet, gi as int, pts),
            ),
        decreases n - gi,
    {
        let a = *world.store.get(gi);
        proof {
            assert(a.wf());
        }
        if a.kind == Kind::Bullet {
            let mut gj: usize = 0;
            while gj < n
                invariant
                    world.store.entities@ == s,
                    world.store.next_id == nid,
                    world.state == st0,
                    world.pending_game_over == pd0,
                    all_wf(s),
                    n == s.len(),
                    gj <= n,
                    gi < n,
                    a == s[gi as int],
                    a.kind == Kind::Bullet,
                    a.wf(),
                    pts == bullet_hit_points(),
                    world.score.value == sat_add(
                        sc0 as int,
                        rows_score_upto(s, Kind::Bullet, gi as int, pts)
                            + enemy_hits_upto(a, s, gj as int, pts),
                    ),
                decreases n - gj,
            {
                let o = *world.store.get(gj);
                proof {
                    assert(o.wf());
                }
                if o.kind == Kind::Enemy && entities_overlap(&a, &o) {
                    proof {
                        lemma_rows_score_upto_nonneg(s, Kind::Bullet, gi as int, pts);
                        lemma_enemy_hits_upto_nonneg(a, s, gj as int, pts);
                        lemma_sat_add_chain(
                            sc0 as int,
                            rows_score_upto(s, Kind::Bullet, gi as int, pts)
                                + enemy_hits_upto(a, s, gj as int, pts),
                            pts,
                        );
                    }
                    world.score.add(10);
                }
                proof {
                    assert(enemy_hits_upto(a, s, gj as int + 1, pts)
                        == enemy_hits_upto(a, s, gj as int, pts)
                            + (if s[gj as int].kind == Kind::Enemy && ent_overlap(a, s[gj as int]) {
                                pts
                            } else {
                                0int
                            }));
                }
                gj = gj + 1;
            }
            proof {
                assert(rows_score_upto(s, Kind::Bullet, gi as int + 1, pts)
                    == rows_score_upto(s, Kind::Bullet, gi as int, pts) + enemy_hits(a, s, pts));
            }
        } else {
            proof {
                assert(rows_score_upto(s, Kind::Bullet, gi as int + 1, pts)
                    == rows_score_upto(s, Kind::Bullet, gi as int, pts));
            }
        }
        gi = gi + 1;
    }

    proof {
        assert(s.subrange(0, n as int) =~= s);
        lemma_filter_preserves_ids(s, be_keeps(s), nid);
        lemma_filter_preserves_wf(s, be_keeps(s));
        assert forall|k: Kind|
            count_kind(be_survivors(s), k) <= count_kind(s, k) by {
            lemma_count_kind_filter_le(s, be_keeps(s), k);
        }
        s.lemma_filter_len(be_keeps(s));
        lemma_rows_score_upto_nonneg(s, Kind::Bullet, n as int, pts);
    }
    world.store.entities = kept;
}

/// After the bullet pass no live bullet lies above the top edge
/// (the cull is part of the pass, so the next tick never sees one).
pub proof fn lemma_bullet_pass_culls(s: Seq<Entity>)
    ensures
        forall|k: int|
            0 <= k < moved_bullets(s).len()
                ==> !((#[trigger] moved_bullets(s)[k]).kind == Kind::Bullet
                    && moved_bullets(s)[k].y > FIELD_HALF_H as int),
{
    let mapped = s.map_values(bullet_step_fn());
    let pred = bullet_in_field_fn();
    assert forall|k: int|
        0 <= k < moved_bullets(s).len()
            implies !((#[trigger] moved_bullets(s)[k]).kind == Kind::Bullet
                && moved_bullets(s)[k].y > FIELD_HALF_H as int) by {
        mapped.lemma_filter_pred(pred, k);
    }
}

/// The collision engine never alters a surviving entity: every
/// survivor of the player×enemy pass and of the bullet×enemy pass is
/// one of the snapshot's entities, unchanged — in particular an
/// enemy's speed is never mutated by a collision pass.
pub proof fn lemma_collisions_preserve_entities(s: Seq<Entity>)
    ensures
        forall|k: int|
            0 <= k < pe_survivors(s).len() ==> s.contains(#[trigger] pe_survivors(s)[k]),
        forall|k: int|
            0 <= k < be_survivors(s).len() ==> s.contains(#[trigger] be_survivors(s)[k]),
{
    lemma_filter_elements(s, pe_keeps(s));
    lemma_filter_elements(s, be_keeps(s));
}

/// Awards of one row of the bullet×enemy pass land in tens.
proof fn lemma_enemy_hits_upto_tens(a: Entity, s: Seq<Entity>, j: int)
    ensures
        enemy_hits_upto(a, s, j, 10) % 10 == 0,
    decreases j,
{
    if j > 0 {
        lemma_enemy_hits_upto_tens(a, s, j - 1);
    }
}

/// Awards of the first `i` rows of the bullet×enemy pass land in
/// tens.
proof fn lemma_rows_score_upto_tens(s: Seq<Entity>, ka: Kind, i: int)
    ensures
        rows_score_upto(s, ka, i, 10) % 10 == 0,
    decreases i,
{
    if i > 0 {
        lemma_rows_score_upto_tens(s, ka, i - 1);
        lemma_enemy_hits_upto_tens(s[i - 1], s, s.len() as int);
    }
}

/// The bullet×enemy pass awards points in tens: its whole award is
/// a multiple of ten, so short of the accumulator's saturation cap
/// the score moves by a multiple of ten.
pub proof fn lemma_bullet_awards_are_tens(s: Seq<Entity>)
    ensures
        rows_score(s, Kind::Bullet, bullet_hit_points()) % 10 == 0,
{
    lemma_rows_score_upto_tens(s, Kind::Bullet, s.len() as int);
}

} // verus!
