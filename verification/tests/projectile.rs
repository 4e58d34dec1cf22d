use dungeon_core::animation::{FacingDirection, Sprite};
use dungeon_core::character_stats::{Damage, Health, MaxHealth};
use dungeon_core::contact::Contacts;
use dungeon_core::enemy::spawn_enemy_at;
use dungeon_core::geometry::{Position, Velocity};
use dungeon_core::health::handle_bars;
use dungeon_core::player::spawn_dungeon_player;
use dungeon_core::projectile::{
    animate_fireball, create_fireball, destroy_on_characters, destroy_on_solid_wall,
    spawn_fireball,
};
use dungeon_core::skills::{launch, velocity, Launch, FIREBALL_DAMAGE};
use dungeon_core::timer::TimerMode;
use dungeon_core::world::{Components, World};

fn wall(world: &mut World) -> usize {
    let mut c = Components::empty();
    c.wall = true;
    world.spawn(c).unwrap()
}

fn character(world: &mut World, health: i32) -> usize {
    let mut c = Components::empty();
    c.health = Some(Health(health));
    c.max_health = Some(MaxHealth(50000));
    c.kinematic = true;
    c.collider = true;
    world.spawn(c).unwrap()
}

fn fireball(world: &mut World) -> usize {
    create_fireball(world, 0, 0, 0, FacingDirection::Right, 150000)
}

fn health_of(world: &World, id: usize) -> i32 {
    world.get(id).unwrap().health.unwrap().0
}

#[test]
fn launch_starts_in_front_of_the_caster() {
    let origin = Position { x: 1000, y: -2000 };
    assert_eq!(
        launch(origin, FacingDirection::Up, 150000),
        Launch { x: 1000, y: 20000, rotation: 0, speed: 150000, facing: FacingDirection::Up }
    );
    assert_eq!(
        launch(origin, FacingDirection::Down, 150000),
        Launch {
            x: 1000,
            y: -24000,
            rotation: 3140,
            speed: -150000,
            facing: FacingDirection::Down
        }
    );
    assert_eq!(
        launch(origin, FacingDirection::Left, 150000),
        Launch {
            x: -17000,
            y: -2000,
            rotation: 1570,
            speed: -150000,
            facing: FacingDirection::Left
        }
    );
    assert_eq!(
        launch(origin, FacingDirection::Right, 150000),
        Launch {
            x: 19000,
            y: -2000,
            rotation: -1570,
            speed: 150000,
            facing: FacingDirection::Right
        }
    );
}

#[test]
fn launch_at_the_edge_of_the_plane_does_not_overflow() {
    let far = Position { x: i32::MAX, y: i32::MIN };
    assert_eq!(launch(far, FacingDirection::Right, i32::MIN).x, i32::MAX as i64 + 18000);
    assert_eq!(launch(far, FacingDirection::Down, i32::MIN).y, i32::MIN as i64 - 22000);
    assert_eq!(launch(far, FacingDirection::Down, i32::MIN).speed, 1i64 << 31);
}

#[test]
fn velocity_lies_along_the_axis_of_facing() {
    assert_eq!(velocity(FacingDirection::Up, 7), Velocity { x: 0, y: 7 });
    assert_eq!(velocity(FacingDirection::Down, -7), Velocity { x: 0, y: -7 });
    assert_eq!(velocity(FacingDirection::Left, -7), Velocity { x: -7, y: 0 });
    assert_eq!(velocity(FacingDirection::Right, 7), Velocity { x: 7, y: 0 });
}

#[test]
fn fireball_is_spawned_with_its_collider() {
    let mut world = World::new();
    let id = create_fireball(&mut world, 19000, -2000, -1570, FacingDirection::Right, 150000);
    assert_eq!(id, 0);
    assert_eq!(world.len(), 2);
    let body = world.get(id).unwrap();
    assert!(body.fireball);
    assert_eq!(body.parent, None);
    assert_eq!(body.damage, Some(Damage(10000)));
    assert_eq!(FIREBALL_DAMAGE, 10000);
    assert_eq!(body.sprite, Some(Sprite { index: 0, flip_x: false }));
    assert_eq!(body.velocity, Some(Velocity { x: 150000, y: 0 }));
    assert_eq!(body.launch.unwrap().x, 19000);
    let grace = body.cooldown.unwrap().0;
    assert_eq!(grace.duration(), 2_000_000_000);
    assert_eq!(grace.mode(), TimerMode::Once);
    let pace = body.animation.unwrap().0;
    assert_eq!(pace.duration(), 100_000_000);
    assert_eq!(pace.mode(), TimerMode::Repeating);
    let collider = world.get(id + 1).unwrap();
    assert_eq!(collider.parent, Some(id));
    assert!(collider.collider);
    assert!(!collider.fireball);
}

#[test]
fn wall_contact_removes_projectile_and_collider() {
    let mut world = World::new();
    let w = wall(&mut world);
    let hit = fireball(&mut world);
    let free = fireball(&mut world);
    let mut contacts = Contacts::new();
    contacts.report(w, hit + 1);
    let removed = destroy_on_solid_wall(&mut world, &contacts);
    assert_eq!(removed, vec![hit, hit + 1]);
    assert!(!world.is_alive(hit));
    assert!(!world.is_alive(hit + 1));
    assert!(world.is_alive(free));
    assert!(world.is_alive(free + 1));
    assert!(world.is_alive(w));
}

#[test]
fn wall_contact_is_found_in_either_order() {
    let mut world = World::new();
    let w = wall(&mut world);
    let hit = fireball(&mut world);
    let mut contacts = Contacts::new();
    contacts.report(hit + 1, w);
    assert_eq!(destroy_on_solid_wall(&mut world, &contacts), vec![hit, hit + 1]);
}

#[test]
fn redundant_wall_contacts_destroy_once() {
    let mut world = World::new();
    let first = wall(&mut world);
    let second = wall(&mut world);
    let hit = fireball(&mut world);
    let mut contacts = Contacts::new();
    contacts.report(first, hit + 1);
    contacts.report(second, hit + 1);
    contacts.report(first, hit + 1);
    assert_eq!(destroy_on_solid_wall(&mut world, &contacts), vec![hit, hit + 1]);
    assert!(destroy_on_solid_wall(&mut world, &contacts).is_empty());
}

#[test]
fn contact_with_the_projectile_itself_is_not_a_wall_hit() {
    let mut world = World::new();
    let w = wall(&mut world);
    let ball = fireball(&mut world);
    let mut contacts = Contacts::new();
    // Only the child collider is asked about, never the projectile itself.
    contacts.report(w, ball);
    assert!(destroy_on_solid_wall(&mut world, &contacts).is_empty());
    assert!(world.is_alive(ball));
}

#[test]
fn stale_contact_is_ignored() {
    let mut world = World::new();
    let w = wall(&mut world);
    let ball = fireball(&mut world);
    let mut contacts = Contacts::new();
    contacts.report(w, ball + 1);
    destroy_on_solid_wall(&mut world, &contacts);
    contacts.report(w, 999);
    contacts.report(998, 999);
    assert!(destroy_on_solid_wall(&mut world, &contacts).is_empty());
    assert!(destroy_on_characters(&mut world, &contacts).is_empty());
    assert!(world.is_alive(w));
}

#[test]
fn damaging_contact_takes_damage_off_health() {
    let mut world = World::new();
    let target = character(&mut world, 50000);
    let ball = fireball(&mut world);
    let mut contacts = Contacts::new();
    contacts.report(target, ball + 1);
    let removed = destroy_on_characters(&mut world, &contacts);
    assert_eq!(removed, vec![ball, ball + 1]);
    assert_eq!(health_of(&world, target), 40000);
    assert!(world.is_alive(target));
}

#[test]
fn character_without_health_left_is_destroyed_with_its_bar() {
    let mut world = World::new();
    let enemy = spawn_enemy_at(&mut world, 0, 0);
    let mut c = world.get(enemy).unwrap();
    c.health = Some(Health(10000));
    world.update(enemy, c);
    let ball = fireball(&mut world);
    let mut contacts = Contacts::new();
    contacts.report(enemy, ball + 1);
    let removed = destroy_on_characters(&mut world, &contacts);
    assert_eq!(removed.len(), 25 + 2);
    for id in 0..world.len() {
        assert!(!world.is_alive(id));
    }
    assert!(handle_bars(&mut world).is_empty());
}

#[test]
fn health_just_above_zero_survives() {
    let mut world = World::new();
    let target = character(&mut world, 10001);
    let ball = fireball(&mut world);
    let mut contacts = Contacts::new();
    contacts.report(ball + 1, target);
    destroy_on_characters(&mut world, &contacts);
    assert_eq!(health_of(&world, target), 1);
}

#[test]
fn two_projectiles_on_one_character_both_count() {
    let mut world = World::new();
    let target = character(&mut world, 50000);
    let first = fireball(&mut world);
    let second = fireball(&mut world);
    let mut contacts = Contacts::new();
    contacts.report(target, first + 1);
    contacts.report(target, second + 1);
    let removed = destroy_on_characters(&mut world, &contacts);
    assert_eq!(removed, vec![first, first + 1, second, second + 1]);
    assert_eq!(health_of(&world, target), 30000);
}

#[test]
fn one_projectile_on_two_characters_hurts_both() {
    let mut world = World::new();
    let first = character(&mut world, 50000);
    let second = character(&mut world, 5000);
    let ball = fireball(&mut world);
    let mut contacts = Contacts::new();
    contacts.report(first, ball + 1);
    contacts.report(second, ball + 1);
    let removed = destroy_on_characters(&mut world, &contacts);
    assert_eq!(removed, vec![second, ball, ball + 1]);
    assert_eq!(health_of(&world, first), 40000);
}

#[test]
fn projectile_without_damage_is_spent_without_harm() {
    let mut world = World::new();
    let target = character(&mut world, -5);
    let owner = world.spawn(Components::empty()).unwrap();
    let mut collider = Components::empty();
    collider.parent = Some(owner);
    collider.collider = true;
    let collider = world.spawn(collider).unwrap();
    let mut contacts = Contacts::new();
    contacts.report(target, collider);
    assert_eq!(destroy_on_characters(&mut world, &contacts), vec![owner, collider]);
    assert_eq!(health_of(&world, target), -5);
}

#[test]
fn entity_without_kinematic_control_is_not_hurt() {
    let mut world = World::new();
    let mut c = Components::empty();
    c.health = Some(Health(50000));
    c.collider = true;
    let bystander = world.spawn(c).unwrap();
    let ball = fireball(&mut world);
    let mut contacts = Contacts::new();
    contacts.report(bystander, ball + 1);
    assert!(destroy_on_characters(&mut world, &contacts).is_empty());
    assert_eq!(health_of(&world, bystander), 50000);
    assert!(world.is_alive(ball));
}

#[test]
fn extreme_damage_does_not_overflow() {
    let mut world = World::new();
    let target = character(&mut world, i32::MIN);
    let mut owners = Vec::new();
    let mut contacts = Contacts::new();
    for _ in 0..3 {
        let mut owner = Components::empty();
        owner.damage = Some(Damage(u32::MAX));
        let owner = world.spawn(owner).unwrap();
        let mut collider = Components::empty();
        collider.parent = Some(owner);
        collider.collider = true;
        let collider = world.spawn(collider).unwrap();
        contacts.report(target, collider);
        owners.push(owner);
    }
    let removed = destroy_on_characters(&mut world, &contacts);
    assert_eq!(removed.len(), 7);
    assert!(!world.is_alive(target));
}

#[test]
fn damage_comes_before_the_bar_pass() {
    let mut world = World::new();
    let enemy = spawn_enemy_at(&mut world, 0, 0);
    let ball = fireball(&mut world);
    let mut contacts = Contacts::new();
    contacts.report(enemy, ball + 1);
    destroy_on_characters(&mut world, &contacts);
    assert_eq!(health_of(&world, enemy), 40000);
    let removed = handle_bars(&mut world);
    // 40 / (50/23) = 18.4, which rounds to 18: segments 18 to 23 go.
    assert_eq!(removed, (enemy + 19..enemy + 25).collect::<Vec<usize>>());
}

#[test]
fn cast_spawns_a_fireball_in_front_of_the_player() {
    let mut world = World::new();
    let player = spawn_dungeon_player(&mut world);
    let ids = spawn_fireball(&mut world, true);
    assert_eq!(ids, vec![2]);
    assert_eq!(world.len(), 4);
    assert!(!world.get(player).unwrap().player.unwrap().can_recast);
    let ball = world.get(2).unwrap();
    assert!(ball.fireball);
    assert_eq!(
        ball.launch,
        Some(Launch {
            x: 18000,
            y: 0,
            rotation: -1570,
            speed: 150000,
            facing: FacingDirection::Right
        })
    );
    assert_eq!(ball.velocity, Some(Velocity { x: 150000, y: 0 }));
    assert_eq!(world.get(3).unwrap().parent, Some(2));
}

#[test]
fn cast_without_the_key_spawns_nothing() {
    let mut world = World::new();
    let player = spawn_dungeon_player(&mut world);
    assert!(spawn_fireball(&mut world, false).is_empty());
    assert_eq!(world.len(), 2);
    assert!(world.get(player).unwrap().player.unwrap().can_recast);
}

#[test]
fn cast_while_unavailable_spawns_nothing() {
    let mut world = World::new();
    spawn_dungeon_player(&mut world);
    assert_eq!(spawn_fireball(&mut world, true).len(), 1);
    assert!(spawn_fireball(&mut world, true).is_empty());
    assert_eq!(world.len(), 4);
}

#[test]
fn fireball_runs_in_and_then_cycles_its_band() {
    let mut world = World::new();
    let ball = fireball(&mut world);
    let mut seen = Vec::new();
    for _ in 0..14 {
        animate_fireball(&mut world, 100_000_000);
        seen.push(world.get(ball).unwrap().sprite.unwrap().index);
    }
    assert_eq!(seen, vec![1, 2, 3, 4, 5, 6, 7, 8, 5, 6, 7, 8, 5, 6]);
}

#[test]
fn fireball_keeps_its_frame_between_signals() {
    let mut world = World::new();
    let ball = fireball(&mut world);
    animate_fireball(&mut world, 99_999_999);
    assert_eq!(world.get(ball).unwrap().sprite.unwrap().index, 0);
    animate_fireball(&mut world, 1);
    assert_eq!(world.get(ball).unwrap().sprite.unwrap().index, 1);
}
