use punchball::collision::{insert_collision, Collision};
use punchball::vector::Vec2;

fn collision(id1: usize, id2: usize, p1: (i64, i64), p2: (i64, i64), v1: (i64, i64), v2: (i64, i64)) -> Collision {
    Collision {
        player_id1: id1,
        player_id2: id2,
        pos1: Vec2::new(p1.0, p1.1),
        pos2: Vec2::new(p2.0, p2.1),
        vel1: Vec2::new(v1.0, v1.1),
        vel2: Vec2::new(v2.0, v2.1),
    }
}

#[test]
fn head_on_collision_swaps_velocities() {
    // Ten units apart, closing at one unit each.
    let c = collision(0, 1, (0, 0), (10_000, 0), (1000, 0), (-1000, 0));
    assert_eq!(c.new_velocity(0), Some(Vec2::new(-1000, 0)));
    assert_eq!(c.new_velocity(1), Some(Vec2::new(1000, 0)));
    assert_eq!(c.new_velocity(2), None);
}

#[test]
fn glancing_collision_conserves_momentum_and_energy() {
    let c = collision(0, 1, (0, 0), (30_000, 40_000), (3000, 0), (0, -1000));
    let a = c.new_velocity(0).unwrap();
    let b = c.new_velocity(1).unwrap();
    assert_eq!(a, Vec2::new(1440, -2080));
    assert_eq!(b, Vec2::new(1560, 1080));
    assert_eq!(a.x + b.x, 3000);
    assert_eq!(a.y + b.y, -1000);
    let before = 3000i64 * 3000 + 1000 * 1000;
    let after = a.x * a.x + a.y * a.y + b.x * b.x + b.y * b.y;
    assert_eq!(before, after);
}

#[test]
fn coincident_bodies_keep_their_velocities() {
    let c = collision(2, 3, (5000, 5000), (5000, 5000), (100, 200), (-300, 0));
    assert_eq!(c.new_velocity(2), Some(Vec2::new(100, 200)));
    assert_eq!(c.new_velocity(3), Some(Vec2::new(-300, 0)));
}

#[test]
fn symmetric_pairs_are_one_collision() {
    let mut set = Vec::new();
    let ab = collision(1, 2, (0, 0), (1000, 0), (0, 0), (0, 0));
    let ba = collision(2, 1, (1000, 0), (0, 0), (0, 0), (0, 0));
    assert!(insert_collision(&mut set, ab));
    assert!(!insert_collision(&mut set, ba));
    assert_eq!(set.len(), 1);
    assert_eq!(set[0].player_id1, 1);
    assert_eq!(ab.key(), ba.key());
    assert_eq!(ab.key(), (1, 2));
    let other = collision(1, 3, (0, 0), (1000, 0), (0, 0), (0, 0));
    assert!(insert_collision(&mut set, other));
    assert_eq!(set.len(), 2);
}
