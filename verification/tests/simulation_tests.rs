//! The spawner, the movers and the collision engine over whole
//! `GameWorld` states.

use dodge::components::{InputSnapshot, Kind};
use dodge::enemies::{classify, spawn_enemy, spawn_enemy_from_draws, move_enemy, Classification};
use dodge::game::{handle_play, GameState, GameWorld};
use dodge::player::{collide_bullets, collide_player, fire_bullet, move_bullets, move_player};
use dodge::store::StoreError;
use rand_core::SeedableRng;

fn running_world() -> GameWorld {
    let mut w = GameWorld::new();
    handle_play(&mut w);
    w
}

fn no_input() -> InputSnapshot {
    InputSnapshot::none()
}

#[test]
fn spawner_respects_cap_for_any_draws() {
    let mut w = running_world();
    let mut rng = bevy_prng::ChaCha8Rng::seed_from_u64(42);
    for _ in 0..80 {
        spawn_enemy(&mut w, &mut rng);
        assert!(w.store.count(Kind::Enemy) <= 50);
    }
    assert_eq!(w.store.count(Kind::Enemy), 50);
}

#[test]
fn spawned_enemies_lie_in_the_padded_field() {
    let mut w = running_world();
    let mut rng = bevy_prng::ChaCha8Rng::seed_from_u64(7);
    for _ in 0..50 {
        spawn_enemy(&mut w, &mut rng);
    }
    for i in 0..w.store.len() {
        let e = *w.store.get(i);
        if e.kind == Kind::Enemy {
            assert!(-7500 <= e.x && e.x <= 7500);
            assert_eq!(e.y, 13800);
            assert!(0 <= e.speed && e.speed < 200);
        }
    }
}

#[test]
fn spawner_formula_on_chosen_draws() {
    let mut w = running_world();
    // magnitude 0 regardless of sign: spawn at the centre line
    spawn_enemy_from_draws(&mut w, 0, 0, 0);
    let e = *w.store.get(2);
    assert_eq!(e.kind, Kind::Enemy);
    assert_eq!((e.x, e.y, e.speed), (0, 13800, 0));
    // magnitude 299 with the positive sign clamps to 125 world units
    spawn_enemy_from_draws(&mut w, 299, 1, 199);
    let e = *w.store.get(3);
    assert_eq!((e.x, e.y, e.speed), (7500, 13800, 199));
    // the same magnitude with the negative sign clamps to -125
    spawn_enemy_from_draws(&mut w, 299, 2, 450);
    let e = *w.store.get(4);
    assert_eq!((e.x, e.y, e.speed), (-7500, 13800, 50));
}

#[test]
fn classification_thresholds() {
    assert_eq!(classify(199), Classification::Fast);
    assert_eq!(classify(150), Classification::Fast);
    assert_eq!(classify(149), Classification::Normal);
    assert_eq!(classify(51), Classification::Normal);
    assert_eq!(classify(50), Classification::Slow);
    assert_eq!(classify(0), Classification::Slow);
}

#[test]
fn fast_enemy_exits_bottom_and_is_removed() {
    // An enemy five world units above the bottom edge, falling at
    // 600 world units per second with the 1/60 s timestep, drops ten
    // units in one mover pass and is gone from the store.
    let mut w = running_world();
    let id = w.store.spawn(Kind::Enemy, 0, -14700, 420, 420, 600);
    move_enemy(&mut w);
    assert_eq!(w.store.position_of(id), Err(StoreError::NotFound));
}

#[test]
fn enemy_descends_by_its_own_speed() {
    let mut w = running_world();
    let id = w.store.spawn(Kind::Enemy, 30, 0, 420, 420, 120);
    move_enemy(&mut w);
    assert_eq!(w.store.position_of(id), Ok((30, -120)));
    // its speed is untouched by the pass
    for i in 0..w.store.len() {
        let e = *w.store.get(i);
        if e.kind == Kind::Enemy {
            assert_eq!(e.speed, 120);
        }
    }
}

#[test]
fn enemy_just_above_bottom_survives() {
    let mut w = running_world();
    let id = w.store.spawn(Kind::Enemy, 0, -14900, 420, 420, 100);
    move_enemy(&mut w);
    assert_eq!(w.store.position_of(id), Ok((0, -15000)));
}

#[test]
fn bullet_exits_top_and_is_removed() {
    let mut w = running_world();
    let keeps = w.store.spawn(Kind::Bullet, 0, 14700, 120, 120, 300);
    let leaves = w.store.spawn(Kind::Bullet, 0, 14701, 120, 120, 300);
    move_bullets(&mut w);
    assert_eq!(w.store.position_of(keeps), Ok((0, 15000)));
    assert_eq!(w.store.position_of(leaves), Err(StoreError::NotFound));
}

#[test]
fn player_moves_and_clamps() {
    let mut w = running_world();
    let pid = 1u64; // handle_play spawns the ship first, the player second
    let mut input = no_input();
    input.left = true;
    move_player(&mut w, &input);
    // one tick at 150 world units per second moves 150 sub-units
    assert_eq!(w.store.position_of(pid), Ok((-150, -13500)));
    input.focus = true;
    move_player(&mut w, &input);
    assert_eq!(w.store.position_of(pid), Ok((-200, -13500)));
    input.focus = false;
    for _ in 0..100 {
        move_player(&mut w, &input);
    }
    // clamped at the padded left edge
    assert_eq!(w.store.position_of(pid), Ok((-7500, -13500)));
}

#[test]
fn player_spawn_is_clamped_up_on_first_move() {
    // The hitbox spawns five world units below the ship and the
    // vertical clamp lifts it to the padded bottom edge on the first
    // movement pass.
    let mut w = running_world();
    assert_eq!(w.store.position_of(1), Ok((0, -13800)));
    move_player(&mut w, &no_input());
    assert_eq!(w.store.position_of(1), Ok((0, -13500)));
}

#[test]
fn fire_spawns_bullet_at_the_ships_nose() {
    let mut w = running_world();
    let mut input = no_input();
    input.fire = true;
    fire_bullet(&mut w, &input);
    assert_eq!(w.store.count(Kind::Bullet), 1);
    let b = *w.store.get(2);
    assert_eq!(b.kind, Kind::Bullet);
    assert_eq!((b.x, b.y), (0, -12300));
    assert_eq!(b.speed, 300);
    // without a fire action nothing spawns
    input.fire = false;
    fire_bullet(&mut w, &input);
    assert_eq!(w.store.count(Kind::Bullet), 1);
}

#[test]
fn player_hit_requests_one_transition() {
    let mut w = running_world();
    // two enemies on the player's hitbox at (0, -13800)
    let e1 = w.store.spawn(Kind::Enemy, 0, -13800, 420, 420, 10);
    let e2 = w.store.spawn(Kind::Enemy, 100, -13900, 420, 420, 10);
    collide_player(&mut w, &no_input());
    // however many pairs overlap, a single request is recorded
    assert!(w.pending_game_over);
    assert_eq!(w.state, GameState::Running);
    // the player and both enemies are despawned, the ship remains
    assert_eq!(w.store.count(Kind::Player), 0);
    assert_eq!(w.store.position_of(e1), Err(StoreError::NotFound));
    assert_eq!(w.store.position_of(e2), Err(StoreError::NotFound));
    assert_eq!(w.store.count(Kind::Ship), 1);
}

#[test]
fn graze_scores_without_despawning() {
    let mut w = running_world();
    // on the ship (half-extent 40) but away from the player hitbox
    let eid = w.store.spawn(Kind::Enemy, 0, -11500, 420, 420, 10);
    collide_player(&mut w, &no_input());
    assert_eq!(w.score.value, 1);
    assert!(!w.pending_game_over);
    assert!(w.store.position_of(eid).is_ok());
    // grazing again while focused awards ten
    let mut focused = no_input();
    focused.focus = true;
    collide_player(&mut w, &focused);
    assert_eq!(w.score.value, 11);
    assert!(w.store.position_of(eid).is_ok());
}

#[test]
fn bullet_hit_despawns_both_and_scores_ten() {
    let mut w = running_world();
    let bid = w.store.spawn(Kind::Bullet, 0, 2000, 120, 120, 300);
    let eid = w.store.spawn(Kind::Enemy, 100, 2100, 420, 420, 10);
    let len_before = w.store.len();
    collide_bullets(&mut w);
    assert_eq!(w.score.value, 10);
    assert_eq!(w.store.position_of(bid), Err(StoreError::NotFound));
    assert_eq!(w.store.position_of(eid), Err(StoreError::NotFound));
    // exactly one removal per entity: the store shrank by exactly two
    assert_eq!(w.store.len(), len_before - 2);
}

#[test]
fn distant_bullet_and_enemy_are_untouched() {
    let mut w = running_world();
    let bid = w.store.spawn(Kind::Bullet, 0, 2000, 120, 120, 300);
    let eid = w.store.spawn(Kind::Enemy, 5000, 9000, 420, 420, 10);
    collide_bullets(&mut w);
    assert_eq!(w.score.value, 0);
    assert!(w.store.position_of(bid).is_ok());
    assert!(w.store.position_of(eid).is_ok());
}

#[test]
fn score_saturates_instead_of_wrapping() {
    let mut w = running_world();
    w.score.value = u64::MAX - 5;
    // one enemy grazing the ship, focus held: ten points would wrap
    w.store.spawn(Kind::Enemy, 0, -11500, 420, 420, 10);
    let mut focused = no_input();
    focused.focus = true;
    collide_player(&mut w, &focused);
    assert_eq!(w.score.value, u64::MAX);
    // further awards keep it pinned at the cap
    collide_player(&mut w, &focused);
    assert_eq!(w.score.value, u64::MAX);
}
