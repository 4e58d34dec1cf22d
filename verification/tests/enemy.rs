use dungeon_core::animation::{FacingDirection, Sprite};
use dungeon_core::character_stats::{Damage, Health, MaxHealth, WalkSpeed};
use dungeon_core::enemy::{
    alert, animate_sprite, handle_alerted, pursue, random_walking, roam, spawn_enemies,
    spawn_enemy, spawn_enemy_at, AggroStatus, Enemy, WalkDirection,
};
use dungeon_core::geometry::{direction_toward, Delta, Movement, Position};
use dungeon_core::health::{Bar, HealthBar};
use dungeon_core::player::spawn_dungeon_player;
use dungeon_core::timer::TimerMode;
use dungeon_core::world::World;

const TICK: u64 = 16_000_000;

fn walker() -> Enemy {
    Enemy { facing_direction: FacingDirection::Right, finished_move: false }
}

#[test]
fn alerted_enemy_moves_toward_target_on_x_only() {
    let enemy = Position { x: 0, y: 0 };
    let target = Position { x: 10000, y: 0 };
    let delta = pursue(enemy, target, WalkSpeed(5000), TICK);
    assert_eq!(delta, Delta { x: 5000 * TICK as i128, y: 0 });
}

#[test]
fn pursuit_goes_by_sign_on_each_axis() {
    let way = 5000 * TICK as i128;
    let from = Position { x: 3, y: 3 };
    let speed = WalkSpeed(5000);
    assert_eq!(pursue(from, Position { x: 9, y: 9 }, speed, TICK), Delta { x: way, y: way });
    assert_eq!(pursue(from, Position { x: 0, y: 9 }, speed, TICK), Delta { x: -way, y: way });
    assert_eq!(pursue(from, Position { x: 3, y: -9 }, speed, TICK), Delta { x: 0, y: -way });
    assert_eq!(pursue(from, from, speed, TICK), Delta { x: 0, y: 0 });
}

#[test]
fn pursuit_over_the_whole_plane_does_not_overflow() {
    let from = Position { x: i32::MIN, y: i32::MAX };
    let to = Position { x: i32::MAX, y: i32::MIN };
    let way = i32::MIN as i128 * u64::MAX as i128;
    assert_eq!(pursue(from, to, WalkSpeed(i32::MIN), u64::MAX), Delta { x: way, y: -way });
    assert_eq!(direction_toward(i32::MIN, i32::MAX), 1);
    assert_eq!(direction_toward(i32::MAX, i32::MIN), -1);
    assert_eq!(direction_toward(7, 7), 0);
}

#[test]
fn wandering_enemy_faces_the_way_it_goes() {
    let mut enemy = walker();
    let delta = enemy.wander(&WalkDirection(-2000, 3000), TICK);
    assert_eq!(delta, Delta { x: -2000 * TICK as i128, y: 3000 * TICK as i128 });
    assert_eq!(enemy.facing_direction, FacingDirection::Left);
    let delta = enemy.wander(&WalkDirection(0, -3000), TICK);
    assert_eq!(delta, Delta { x: 0, y: -3000 * TICK as i128 });
    assert_eq!(enemy.facing_direction, FacingDirection::Right);
    enemy.facing_direction = FacingDirection::Left;
    enemy.wander(&WalkDirection(-2000, 0), 0);
    assert_eq!(enemy.facing_direction, FacingDirection::Right);
}

#[test]
fn enemy_is_spawned_with_full_health_and_bar() {
    let mut world = World::new();
    let id = spawn_enemy_at(&mut world, -7000, 9000);
    assert_eq!(id, 0);
    assert_eq!(world.len(), 25);
    let c = world.get(id).unwrap();
    assert_eq!(c.position, Some(Position { x: -7000, y: 9000 }));
    assert_eq!(c.health, Some(Health(50000)));
    assert_eq!(c.max_health, Some(MaxHealth(50000)));
    assert_eq!(c.health_bar, Some(HealthBar { segments: 24 }));
    assert_eq!(c.walk_speed, Some(WalkSpeed(5000)));
    assert_eq!(c.walk_direction, Some(WalkDirection(1000, 0)));
    assert_eq!(c.aggro, Some(AggroStatus::Neutral));
    assert_eq!(c.enemy, Some(walker()));
    assert_eq!(c.sprite, Some(Sprite { index: 55, flip_x: false }));
    assert_eq!(c.damage, None::<Damage>);
    assert!(c.kinematic && c.collider);
    assert_eq!(c.walk_time.unwrap().0.duration(), 4_000_000_000);
    assert_eq!(c.walk_time.unwrap().0.mode(), TimerMode::Repeating);
    assert_eq!(c.animation.unwrap().0.duration(), 100_000_000);
    for k in 0..24 {
        let segment = world.get(id + 1 + k).unwrap();
        assert_eq!(segment.parent, Some(id));
        assert_eq!(segment.bar, Some(Bar(k)));
        assert_eq!(segment.sprite, Some(Sprite { index: k + 5, flip_x: false }));
    }
}

#[test]
fn random_spawn_lies_within_the_bound_and_varies() {
    let mut world = World::new();
    let mut varied = false;
    for k in 0..40 {
        let id = spawn_enemy(&mut world);
        assert_eq!(id, 25 * k);
        let place = world.get(id).unwrap().position.unwrap();
        assert!(-100000 <= place.x && place.x < 100000);
        assert!(-100000 <= place.y && place.y < 100000);
        if place.x != -100000 || place.y != -100000 {
            varied = true;
        }
    }
    assert!(varied);
}

#[test]
fn a_game_starts_with_five_enemies() {
    let mut world = World::new();
    let player = spawn_dungeon_player(&mut world);
    let ids = spawn_enemies(&mut world);
    assert_eq!(ids, vec![2, 27, 52, 77, 102]);
    assert_eq!(world.len(), 2 + 5 * 25);
    for id in ids {
        assert!(world.get(id).unwrap().enemy.is_some());
        assert_eq!(world.get(id + 24).unwrap().bar, Some(Bar(23)));
    }
    assert!(world.get(player).unwrap().player.is_some());
}

#[test]
fn roam_moves_a_neutral_enemy_and_ticks_its_timer() {
    let mut world = World::new();
    let id = spawn_enemy_at(&mut world, 0, 0);
    let c = world.get(id).unwrap();
    let (after, delta, redraw) = roam(c, TICK);
    assert_eq!(delta, Some(Delta { x: 1000 * TICK as i128, y: 0 }));
    assert!(!redraw);
    assert_eq!(after.walk_time.unwrap().0.elapsed(), TICK);
    assert_eq!(after.walk_direction, c.walk_direction);
    let (_, _, redraw) = roam(c, 4_000_000_000);
    assert!(redraw);
}

#[test]
fn roam_leaves_an_alerted_enemy_in_place() {
    let mut world = World::new();
    let id = spawn_enemy_at(&mut world, 0, 0);
    let mut c = world.get(id).unwrap();
    c.aggro = Some(AggroStatus::Alerted(9));
    let (after, delta, redraw) = roam(c, 4_000_000_000);
    assert_eq!(delta, None);
    assert!(!redraw);
    assert!(after.walk_time.unwrap().0.just_finished());
    assert_eq!(after.enemy, c.enemy);
}

#[test]
fn roam_ignores_what_is_no_enemy() {
    let mut world = World::new();
    let id = spawn_dungeon_player(&mut world);
    let c = world.get(id).unwrap();
    assert_eq!(roam(c, TICK), (c, None, false));
}

#[test]
fn wandering_pass_moves_with_the_old_direction_and_redraws_within_bound() {
    let mut world = World::new();
    let id = spawn_enemy_at(&mut world, 0, 0);
    let mut varied = false;
    let mut direction = WalkDirection(1000, 0);
    for _ in 0..40 {
        let moves = random_walking(&mut world, 4_000_000_000);
        assert_eq!(
            moves,
            vec![Movement {
                entity: id,
                delta: Delta {
                    x: direction.0 as i128 * 4_000_000_000,
                    y: direction.1 as i128 * 4_000_000_000
                }
            }]
        );
        let c = world.get(id).unwrap();
        let expected = if direction.0 >= 0 { FacingDirection::Right } else { FacingDirection::Left };
        assert_eq!(c.enemy.unwrap().facing_direction, expected);
        direction = c.walk_direction.unwrap();
        assert!(-10000 <= direction.0 && direction.0 < 10000);
        assert!(-10000 <= direction.1 && direction.1 < 10000);
        if direction.0 != -10000 || direction.1 != -10000 {
            varied = true;
        }
    }
    assert!(varied);
}

#[test]
fn wandering_pass_keeps_the_direction_between_signals() {
    let mut world = World::new();
    let id = spawn_enemy_at(&mut world, 0, 0);
    for _ in 0..3 {
        let moves = random_walking(&mut world, 1_000_000_000);
        assert_eq!(moves.len(), 1);
        assert_eq!(world.get(id).unwrap().walk_direction, Some(WalkDirection(1000, 0)));
    }
    assert_eq!(world.get(id).unwrap().walk_time.unwrap().0.elapsed(), 3_000_000_000);
}

#[test]
fn alert_is_terminal() {
    let mut world = World::new();
    let player = spawn_dungeon_player(&mut world);
    let enemy = spawn_enemy_at(&mut world, 0, 0);
    alert(&mut world, enemy, player);
    assert_eq!(world.get(enemy).unwrap().aggro, Some(AggroStatus::Alerted(player)));
    alert(&mut world, enemy, 77);
    assert_eq!(world.get(enemy).unwrap().aggro, Some(AggroStatus::Alerted(player)));
    alert(&mut world, player, enemy);
    assert_eq!(world.get(player).unwrap().aggro, None);
    alert(&mut world, 999, player);
    assert!(random_walking(&mut world, TICK).is_empty());
}

#[test]
fn pursuit_pass_follows_the_player() {
    let mut world = World::new();
    let player = spawn_dungeon_player(&mut world);
    let near = spawn_enemy_at(&mut world, -10000, 0);
    let idle = spawn_enemy_at(&mut world, 5000, 5000);
    world.set_position(player, Position { x: 0, y: 0 });
    assert!(handle_alerted(&world, TICK).is_empty());
    alert(&mut world, near, player);
    let moves = handle_alerted(&world, TICK);
    assert_eq!(
        moves,
        vec![Movement { entity: near, delta: Delta { x: 5000 * TICK as i128, y: 0 } }]
    );
    world.set_position(player, Position { x: -20000, y: 1 });
    let moves = handle_alerted(&world, TICK);
    assert_eq!(
        moves,
        vec![Movement {
            entity: near,
            delta: Delta { x: -5000 * TICK as i128, y: 5000 * TICK as i128 }
        }]
    );
    assert_eq!(world.get(idle).unwrap().aggro, Some(AggroStatus::Neutral));
}

#[test]
fn pursuit_of_a_dead_or_wrong_target_does_nothing() {
    let mut world = World::new();
    let player = spawn_dungeon_player(&mut world);
    let first = spawn_enemy_at(&mut world, 1, 1);
    let second = spawn_enemy_at(&mut world, 2, 2);
    alert(&mut world, first, second);
    alert(&mut world, second, player);
    world.despawn_recursive(player);
    assert!(handle_alerted(&world, TICK).is_empty());
}

#[test]
fn enemy_animation_turns_and_cycles_on_signal() {
    let mut world = World::new();
    let id = spawn_enemy_at(&mut world, 0, 0);
    let mut c = world.get(id).unwrap();
    c.enemy = Some(Enemy { facing_direction: FacingDirection::Left, finished_move: false });
    world.update(id, c);
    animate_sprite(&mut world, 99_999_999);
    assert_eq!(world.get(id).unwrap().sprite, Some(Sprite { index: 55, flip_x: false }));
    let mut seen = Vec::new();
    for _ in 0..8 {
        animate_sprite(&mut world, 100_000_000);
        let sprite = world.get(id).unwrap().sprite.unwrap();
        assert!(sprite.flip_x);
        seen.push(sprite.index);
    }
    assert_eq!(seen, vec![56, 57, 58, 59, 60, 61, 55, 56]);
}
