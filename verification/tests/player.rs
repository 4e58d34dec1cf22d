use dungeon_core::animation::{cycle, AnimationTimer, FacingDirection, FrameBand, Sprite};
use dungeon_core::geometry::{displacement, Delta, Movement};
use dungeon_core::player::{
    animate_sprite, handle_cooldown, handle_idle, handle_sprite_change, player_movement,
    spawn_dungeon_player, Keyboard, Player,
};
use dungeon_core::projectile::spawn_fireball;
use dungeon_core::skills::{recharge, Cooldown};
use dungeon_core::timer::{Timer, TimerMode};
use dungeon_core::world::World;

const TICK: u64 = 16_000_000;

fn no_keys() -> Keyboard {
    Keyboard {
        up_pressed: false,
        down_pressed: false,
        left_pressed: false,
        right_pressed: false,
        up_released: false,
        down_released: false,
        left_released: false,
        right_released: false,
        action_released: false,
    }
}

fn hero() -> Player {
    Player {
        speed: 50000,
        facing_direction: FacingDirection::Right,
        idle: true,
        can_recast: true,
        spell_speed: 150000,
    }
}

fn player_of(world: &World, id: usize) -> Player {
    world.get(id).unwrap().player.unwrap()
}

#[test]
fn displacement_is_speed_times_time() {
    assert_eq!(displacement(50000, TICK), 800_000_000_000);
    assert_eq!(displacement(-3, 7), -21);
    assert_eq!(displacement(0, u64::MAX), 0);
    assert_eq!(displacement(i32::MIN, u64::MAX), i32::MIN as i128 * u64::MAX as i128);
    assert_eq!(displacement(i32::MAX, u64::MAX), i32::MAX as i128 * u64::MAX as i128);
}

#[test]
fn no_keys_no_movement() {
    let mut player = hero();
    assert_eq!(player.steer(&no_keys(), TICK), None);
    assert_eq!(player, hero());
}

#[test]
fn each_key_moves_along_its_axis() {
    let way = 50000 * TICK as i128;
    let mut keys = no_keys();
    keys.up_pressed = true;
    let mut player = hero();
    assert_eq!(player.steer(&keys, TICK), Some(Delta { x: 0, y: way }));
    assert_eq!(player.facing_direction, FacingDirection::Up);
    assert!(!player.idle);

    let mut keys = no_keys();
    keys.down_pressed = true;
    let mut player = hero();
    assert_eq!(player.steer(&keys, TICK), Some(Delta { x: 0, y: -way }));
    assert_eq!(player.facing_direction, FacingDirection::Down);

    let mut keys = no_keys();
    keys.left_pressed = true;
    let mut player = hero();
    assert_eq!(player.steer(&keys, TICK), Some(Delta { x: -way, y: 0 }));
    assert_eq!(player.facing_direction, FacingDirection::Left);

    let mut keys = no_keys();
    keys.right_pressed = true;
    let mut player = hero();
    assert_eq!(player.steer(&keys, TICK), Some(Delta { x: way, y: 0 }));
    assert_eq!(player.facing_direction, FacingDirection::Right);
}

#[test]
fn two_axes_give_a_diagonal() {
    let way = 50000 * TICK as i128;
    let mut keys = no_keys();
    keys.up_pressed = true;
    keys.left_pressed = true;
    let mut player = hero();
    assert_eq!(player.steer(&keys, TICK), Some(Delta { x: -way, y: way }));
    assert_eq!(player.facing_direction, FacingDirection::Left);
}

#[test]
fn opposite_keys_honour_one_per_axis() {
    let way = 50000 * TICK as i128;
    let mut keys = no_keys();
    keys.up_pressed = true;
    keys.down_pressed = true;
    keys.left_pressed = true;
    keys.right_pressed = true;
    let mut player = hero();
    assert_eq!(player.steer(&keys, TICK), Some(Delta { x: way, y: -way }));
    assert_eq!(player.facing_direction, FacingDirection::Right);
}

#[test]
fn release_makes_idle_and_press_makes_busy() {
    let mut player = hero();
    player.idle = false;
    let mut keys = no_keys();
    keys.left_released = true;
    assert_eq!(player.steer(&keys, TICK), None);
    assert!(player.idle);
    keys.up_pressed = true;
    assert!(player.steer(&keys, TICK).is_some());
    assert!(!player.idle);
    assert!(player.steer(&no_keys(), TICK).is_none());
    assert!(!player.idle);
}

#[test]
fn extreme_speed_does_not_overflow() {
    let mut player = hero();
    player.speed = i32::MIN;
    let mut keys = no_keys();
    keys.left_pressed = true;
    keys.down_pressed = true;
    let way = -(i32::MIN as i128 * u64::MAX as i128);
    assert_eq!(player.steer(&keys, u64::MAX), Some(Delta { x: way, y: way }));
}

#[test]
fn cast_uses_up_the_availability() {
    let mut player = hero();
    assert!(!player.cast(false));
    assert!(player.can_recast);
    assert!(player.cast(true));
    assert!(!player.can_recast);
    assert!(!player.cast(true));
    assert!(!player.can_recast);
}

#[test]
fn cast_returns_only_when_the_cooldown_fires() {
    let mut player = hero();
    let mut cooldown = Cooldown(Timer::new(2_000_000_000, TimerMode::Repeating).unwrap());
    assert!(player.cast(true));
    recharge(&mut player, &mut cooldown, 1_999_999_999);
    assert!(!player.can_recast);
    assert!(!player.cast(true));
    recharge(&mut player, &mut cooldown, 1);
    assert!(player.can_recast);
    recharge(&mut player, &mut cooldown, 1);
    assert!(player.can_recast);
    assert!(player.cast(true));
}

#[test]
fn player_is_spawned_with_its_camera() {
    let mut world = World::new();
    let id = spawn_dungeon_player(&mut world);
    assert_eq!(id, 0);
    assert_eq!(world.len(), 2);
    let c = world.get(id).unwrap();
    assert_eq!(c.player, Some(hero()));
    assert!(c.kinematic);
    assert!(!c.collider);
    assert_eq!(c.health, None);
    assert_eq!(c.sprite, Some(Sprite { index: 0, flip_x: false }));
    assert_eq!(c.cooldown.unwrap().0.duration(), 2_000_000_000);
    assert_eq!(c.cooldown.unwrap().0.mode(), TimerMode::Repeating);
    assert_eq!(c.animation.unwrap().0.duration(), 100_000_000);
    let camera = world.get(1).unwrap();
    assert!(camera.camera);
    assert_eq!(camera.parent, Some(id));
}

#[test]
fn movement_pass_reports_the_player() {
    let mut world = World::new();
    let id = spawn_dungeon_player(&mut world);
    let mut keys = no_keys();
    keys.right_pressed = true;
    let moves = player_movement(&mut world, &keys, TICK);
    assert_eq!(
        moves,
        vec![Movement { entity: id, delta: Delta { x: 50000 * TICK as i128, y: 0 } }]
    );
    assert!(!player_of(&world, id).idle);
    assert!(player_movement(&mut world, &no_keys(), TICK).is_empty());
}

#[test]
fn idle_player_rests_on_frame_88() {
    let mut world = World::new();
    let id = spawn_dungeon_player(&mut world);
    handle_idle(&mut world);
    assert_eq!(world.get(id).unwrap().sprite.unwrap().index, 88);
    animate_sprite(&mut world, 1_000_000_000);
    assert_eq!(world.get(id).unwrap().sprite.unwrap().index, 88);
    assert_eq!(world.get(id).unwrap().animation.unwrap().0.elapsed(), 0);
}

#[test]
fn walking_player_cycles_frames_88_to_95() {
    let mut world = World::new();
    let id = spawn_dungeon_player(&mut world);
    handle_idle(&mut world);
    let mut keys = no_keys();
    keys.up_pressed = true;
    player_movement(&mut world, &keys, TICK);
    let mut seen = Vec::new();
    for _ in 0..9 {
        animate_sprite(&mut world, 100_000_000);
        handle_idle(&mut world);
        seen.push(world.get(id).unwrap().sprite.unwrap().index);
    }
    assert_eq!(seen, vec![89, 90, 91, 92, 93, 94, 95, 88, 89]);
}

#[test]
fn sprite_is_mirrored_for_left_only() {
    let mut world = World::new();
    let id = spawn_dungeon_player(&mut world);
    let mut keys = no_keys();
    keys.left_pressed = true;
    player_movement(&mut world, &keys, TICK);
    handle_sprite_change(&mut world);
    assert!(world.get(id).unwrap().sprite.unwrap().flip_x);
    let mut keys = no_keys();
    keys.up_pressed = true;
    player_movement(&mut world, &keys, TICK);
    handle_sprite_change(&mut world);
    assert!(world.get(id).unwrap().sprite.unwrap().flip_x);
    let mut keys = no_keys();
    keys.right_pressed = true;
    player_movement(&mut world, &keys, TICK);
    handle_sprite_change(&mut world);
    assert!(!world.get(id).unwrap().sprite.unwrap().flip_x);
}

#[test]
fn cooldown_pass_restores_the_cast() {
    let mut world = World::new();
    let id = spawn_dungeon_player(&mut world);
    assert_eq!(spawn_fireball(&mut world, true).len(), 1);
    handle_cooldown(&mut world, 1_000_000_000);
    assert!(!player_of(&world, id).can_recast);
    assert!(spawn_fireball(&mut world, true).is_empty());
    handle_cooldown(&mut world, 1_000_000_000);
    assert!(player_of(&world, id).can_recast);
    assert_eq!(spawn_fireball(&mut world, true).len(), 1);
}

#[test]
fn facing_table() {
    assert_eq!(FacingDirection::Up.axis_sign(), (0, 1));
    assert_eq!(FacingDirection::Down.axis_sign(), (0, -1));
    assert_eq!(FacingDirection::Left.axis_sign(), (-1, 0));
    assert_eq!(FacingDirection::Right.axis_sign(), (1, 0));
    assert_eq!(FacingDirection::Up.flip_flag(), None);
    assert_eq!(FacingDirection::Down.flip_flag(), None);
    assert_eq!(FacingDirection::Left.flip_flag(), Some(true));
    assert_eq!(FacingDirection::Right.flip_flag(), Some(false));
}

#[test]
fn band_wraps_at_its_end() {
    let band = FrameBand { first: 5, last: 8 };
    assert_eq!(band.advance(0), 1);
    assert_eq!(band.advance(7), 8);
    assert_eq!(band.advance(8), 5);
    assert_eq!(band.advance(usize::MAX), 5);
}

#[test]
fn cycle_moves_on_signal_only() {
    let mut timer = AnimationTimer(Timer::new(100, TimerMode::Repeating).unwrap());
    let mut sprite = Sprite { index: 61, flip_x: true };
    let band = FrameBand { first: 55, last: 61 };
    cycle(&mut timer, &mut sprite, band, 99);
    assert_eq!(sprite, Sprite { index: 61, flip_x: true });
    cycle(&mut timer, &mut sprite, band, 1);
    assert_eq!(sprite, Sprite { index: 55, flip_x: true });
}
