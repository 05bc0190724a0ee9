//! Overlap and clamping behaviour on concrete boxes.

use dodge::components::Entity;
use dodge::components::Kind;
use dodge::geometry::{clamp_i64, entities_overlap, overlap};

fn entity(kind: Kind, x: i64, y: i64, half: i64) -> Entity {
    Entity { id: 0, kind, x, y, half_x: half, half_y: half, speed: 0 }
}

#[test]
fn overlap_player_enemy_close() {
    // Player half-extents (5,5) at the origin, enemy half-extents
    // (7,7) at (5,5), in sub-units (60 per world unit): both axis
    // distances are 300, below the 720 the half-extents reach.
    assert!(overlap(0, 0, 300, 300, 300, 300, 420, 420));
}

#[test]
fn overlap_player_enemy_far() {
    // The same boxes at world distance (20,20): 1200 >= 720.
    assert!(!overlap(0, 0, 300, 300, 1200, 1200, 420, 420));
}

#[test]
fn overlap_boundary_is_exclusive() {
    // Touching boxes do not overlap: distance exactly the sum of
    // half-extents.
    assert!(!overlap(0, 0, 300, 300, 720, 0, 420, 420));
    assert!(overlap(0, 0, 300, 300, 719, 0, 420, 420));
}

#[test]
fn overlap_is_symmetric_on_samples() {
    let cases: [(i64, i64, i64, i64, i64, i64, i64, i64); 4] = [
        (0, 0, 300, 300, 300, 300, 420, 420),
        (0, 0, 300, 300, 1200, 1200, 420, 420),
        (-500, 200, 100, 700, -450, -300, 50, 60),
        (9000, -9000, 1, 1, -9000, 9000, 1, 1),
    ];
    for (ax, ay, ahx, ahy, bx, by, bhx, bhy) in cases {
        assert_eq!(
            overlap(ax, ay, ahx, ahy, bx, by, bhx, bhy),
            overlap(bx, by, bhx, bhy, ax, ay, ahx, ahy),
        );
    }
}

#[test]
fn entity_overlap_matches_raw_overlap() {
    let a = entity(Kind::Player, 0, 0, 300);
    let b = entity(Kind::Enemy, 300, 300, 420);
    assert!(entities_overlap(&a, &b));
    assert!(entities_overlap(&b, &a));
    let c = entity(Kind::Enemy, 1200, 1200, 420);
    assert!(!entities_overlap(&a, &c));
}

#[test]
fn clamp_behaviour() {
    assert_eq!(clamp_i64(-10_000, -7500, 7500), -7500);
    assert_eq!(clamp_i64(10_000, -7500, 7500), 7500);
    assert_eq!(clamp_i64(123, -7500, 7500), 123);
    assert_eq!(clamp_i64(-7500, -7500, 7500), -7500);
}
