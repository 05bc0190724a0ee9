//! The Menu → Running → GameOver → Menu cycle, score discipline and
//! whole-tick behaviour.

use dodge::components::{InputSnapshot, Kind};
use dodge::game::{
    apply_pending_transition, handle_play, handle_restart, tick, GameState, GameWorld,
};
use dodge::player::collide_player;
use rand_core::SeedableRng;

fn no_input() -> InputSnapshot {
    InputSnapshot::none()
}

#[test]
fn play_action_starts_a_run() {
    let mut w = GameWorld::new();
    assert_eq!(w.state, GameState::Menu);
    handle_play(&mut w);
    assert_eq!(w.state, GameState::Running);
    assert_eq!(w.score.value, 0);
    assert_eq!(w.store.count(Kind::Player), 1);
    assert_eq!(w.store.count(Kind::Ship), 1);
    assert_eq!(w.store.count(Kind::Enemy), 0);
}

#[test]
fn play_action_outside_menu_does_nothing() {
    let mut w = GameWorld::new();
    handle_play(&mut w);
    let len = w.store.len();
    handle_play(&mut w);
    assert_eq!(w.store.len(), len);
    assert_eq!(w.state, GameState::Running);
}

#[test]
fn player_hit_ends_the_run_at_the_tick_boundary() {
    let mut w = GameWorld::new();
    handle_play(&mut w);
    w.store.spawn(Kind::Enemy, 0, -13800, 420, 420, 10);
    collide_player(&mut w, &no_input());
    assert!(w.pending_game_over);
    apply_pending_transition(&mut w);
    assert_eq!(w.state, GameState::GameOver);
    // the sweep on leaving Running empties the store
    assert_eq!(w.store.len(), 0);
    assert!(!w.pending_game_over);
}

#[test]
fn restart_returns_to_menu_and_score_resets_on_next_run() {
    let mut w = GameWorld::new();
    handle_play(&mut w);
    // score some points, then lose
    w.store.spawn(Kind::Enemy, 0, -11500, 420, 420, 10);
    collide_player(&mut w, &no_input());
    assert_eq!(w.score.value, 1);
    // the lethal pass also grazes: the first enemy is still on the
    // ship and the new one overlaps it too, so two more points land
    w.store.spawn(Kind::Enemy, 0, -13800, 420, 420, 10);
    collide_player(&mut w, &no_input());
    assert_eq!(w.score.value, 3);
    apply_pending_transition(&mut w);
    assert_eq!(w.state, GameState::GameOver);
    // the score stands until the next run begins
    handle_restart(&mut w);
    assert_eq!(w.state, GameState::Menu);
    assert_eq!(w.score.value, 3);
    handle_play(&mut w);
    assert_eq!(w.state, GameState::Running);
    assert_eq!(w.score.value, 0);
}

#[test]
fn restart_outside_game_over_does_nothing() {
    let mut w = GameWorld::new();
    handle_restart(&mut w);
    assert_eq!(w.state, GameState::Menu);
    handle_play(&mut w);
    handle_restart(&mut w);
    assert_eq!(w.state, GameState::Running);
}

#[test]
fn tick_outside_running_changes_nothing() {
    let mut w = GameWorld::new();
    let mut rng = bevy_prng::ChaCha8Rng::seed_from_u64(1);
    tick(&mut w, &mut rng, &no_input());
    assert_eq!(w.state, GameState::Menu);
    assert_eq!(w.store.len(), 0);
    assert_eq!(w.score.value, 0);
}

#[test]
fn score_is_monotone_and_cap_holds_over_many_ticks() {
    let mut w = GameWorld::new();
    handle_play(&mut w);
    let mut rng = bevy_prng::ChaCha8Rng::seed_from_u64(2024);
    let mut input = no_input();
    input.fire = true;
    let mut last_score = w.score.value;
    for n in 0..400 {
        if w.state != GameState::Running {
            break;
        }
        input.left = n % 3 == 0;
        input.right = n % 5 == 0;
        tick(&mut w, &mut rng, &input);
        assert!(w.score.value >= last_score);
        last_score = w.score.value;
        assert!(w.store.count(Kind::Enemy) <= 50);
        assert!(w.store.count(Kind::Player) <= 1);
        assert!(w.store.count(Kind::Ship) <= 1);
    }
}

#[test]
fn same_seed_gives_the_same_run() {
    let mut a = GameWorld::new();
    let mut b = GameWorld::new();
    handle_play(&mut a);
    handle_play(&mut b);
    let mut rng_a = bevy_prng::ChaCha8Rng::seed_from_u64(99);
    let mut rng_b = bevy_prng::ChaCha8Rng::seed_from_u64(99);
    let input = no_input();
    for _ in 0..120 {
        tick(&mut a, &mut rng_a, &input);
        tick(&mut b, &mut rng_b, &input);
    }
    assert_eq!(a.state, b.state);
    assert_eq!(a.score.value, b.score.value);
    assert_eq!(a.store.len(), b.store.len());
    for i in 0..a.store.len() {
        assert_eq!(*a.store.get(i), *b.store.get(i));
    }
}

#[test]
fn different_seeds_diverge() {
    // Exercises the entropy wrapper: were the generator not consulted,
    // differently seeded runs could not differ.
    let mut a = GameWorld::new();
    let mut b = GameWorld::new();
    handle_play(&mut a);
    handle_play(&mut b);
    let mut rng_a = bevy_prng::ChaCha8Rng::seed_from_u64(1);
    let mut rng_b = bevy_prng::ChaCha8Rng::seed_from_u64(2);
    let input = no_input();
    for _ in 0..30 {
        tick(&mut a, &mut rng_a, &input);
        tick(&mut b, &mut rng_b, &input);
    }
    let mut all_equal = a.store.len() == b.store.len();
    if all_equal {
        for i in 0..a.store.len() {
            if *a.store.get(i) != *b.store.get(i) {
                all_equal = false;
            }
        }
    }
    assert!(!all_equal);
}
