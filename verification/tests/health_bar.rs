use dungeon_core::character_stats::{Health, MaxHealth, UNIT};
use dungeon_core::enemy::spawn_enemy_at;
use dungeon_core::health::{
    create_bar_sprite, depletion_threshold, handle_bars, is_depleted, Bar, HealthBar, SEGMENTS,
};
use dungeon_core::world::{Components, World};

fn health(units: i32) -> Health {
    Health(units * UNIT)
}

fn max_health(units: u32) -> MaxHealth {
    MaxHealth(units * 1000)
}

fn set_health(world: &mut World, id: usize, value: Health) {
    let mut c = world.get(id).unwrap();
    c.health = Some(value);
    world.update(id, c);
}

fn living_bars(world: &World, owner: usize) -> Vec<usize> {
    let mut found = Vec::new();
    for id in 0..world.len() {
        if let Some(c) = world.get(id) {
            if c.parent == Some(owner) {
                if let Some(Bar(index)) = c.bar {
                    found.push(index);
                }
            }
        }
    }
    found
}

#[test]
fn half_health_of_fifty_has_threshold_twelve() {
    // 23 chunks of 50/23 each; 25 / (50/23) = 11.5, which rounds to 12.
    assert_eq!(depletion_threshold(health(25), max_health(50), 24), Some(12));
    for index in 0..12 {
        assert!(!is_depleted(health(25), max_health(50), 24, index));
    }
    for index in 12..24 {
        assert!(is_depleted(health(25), max_health(50), 24, index));
    }
}

#[test]
fn half_health_leaves_segments_zero_to_eleven() {
    let mut world = World::new();
    let enemy = spawn_enemy_at(&mut world, 0, 0);
    assert_eq!(living_bars(&world, enemy), (0..24).collect::<Vec<usize>>());
    set_health(&mut world, enemy, health(25));
    let removed = handle_bars(&mut world);
    assert_eq!(living_bars(&world, enemy), (0..12).collect::<Vec<usize>>());
    // Segment k has identity enemy + 1 + k.
    assert_eq!(removed, (enemy + 13..enemy + 25).collect::<Vec<usize>>());
    assert!(world.is_alive(enemy));
}

#[test]
fn full_health_keeps_the_whole_bar() {
    let mut world = World::new();
    let enemy = spawn_enemy_at(&mut world, 0, 0);
    let removed = handle_bars(&mut world);
    assert!(removed.is_empty());
    assert_eq!(living_bars(&world, enemy).len(), SEGMENTS);
}

#[test]
fn segments_do_not_come_back_when_health_rises() {
    let mut world = World::new();
    let enemy = spawn_enemy_at(&mut world, 0, 0);
    set_health(&mut world, enemy, health(10));
    handle_bars(&mut world);
    let low = living_bars(&world, enemy);
    // 10 / (50/23) = 4.6, which rounds to 5.
    assert_eq!(low, vec![0, 1, 2, 3, 4]);
    set_health(&mut world, enemy, health(40));
    let removed = handle_bars(&mut world);
    assert!(removed.is_empty());
    assert_eq!(living_bars(&world, enemy), low);
}

#[test]
fn bar_pass_is_idempotent() {
    let mut world = World::new();
    let enemy = spawn_enemy_at(&mut world, 0, 0);
    set_health(&mut world, enemy, health(30));
    let first = handle_bars(&mut world);
    // 30 / (50/23) = 13.8, which rounds to 14.
    assert_eq!(first.len(), 10);
    let second = handle_bars(&mut world);
    assert!(second.is_empty());
    assert_eq!(living_bars(&world, enemy).len(), 14);
}

#[test]
fn threshold_rounds_halves_up() {
    // 2 chunks of 5: 2.5 / 5 rounds to 1, 7.5 / 5 rounds to 2.
    assert_eq!(depletion_threshold(Health(2500), MaxHealth(10000), 3), Some(1));
    assert_eq!(depletion_threshold(Health(2499), MaxHealth(10000), 3), Some(0));
    assert_eq!(depletion_threshold(Health(7500), MaxHealth(10000), 3), Some(2));
    assert_eq!(depletion_threshold(Health(7499), MaxHealth(10000), 3), Some(1));
    assert_eq!(depletion_threshold(Health(10000), MaxHealth(10000), 3), Some(2));
}

#[test]
fn spent_health_empties_the_bar() {
    assert_eq!(depletion_threshold(health(0), max_health(50), 24), Some(0));
    assert_eq!(depletion_threshold(health(-3), max_health(50), 24), Some(0));
    assert!(is_depleted(health(0), max_health(50), 24, 0));
    assert!(is_depleted(health(-3), max_health(50), 24, 23));
}

#[test]
fn zero_maximum_has_no_chunk() {
    assert_eq!(depletion_threshold(health(5), max_health(0), 24), None);
    assert!(!is_depleted(health(5), max_health(0), 24, 0));
    assert_eq!(depletion_threshold(health(-5), max_health(0), 24), Some(0));
    assert!(is_depleted(health(-5), max_health(0), 24, 7));
    assert_eq!(depletion_threshold(health(-5), max_health(0), 1), None);
}

#[test]
fn threshold_and_predicate_agree() {
    for h in -3..=60 {
        for n in 0..6usize {
            let t = depletion_threshold(health(h), max_health(50), n);
            for index in 0..8usize {
                let expected = match t {
                    Some(t) => index as u128 >= t,
                    None => false,
                };
                assert_eq!(is_depleted(health(h), max_health(50), n, index), expected);
            }
        }
    }
}

#[test]
fn visible_count_is_the_capped_threshold() {
    for h in [0, 1, 10, 25, 40, 49, 50, 80] {
        let mut world = World::new();
        let enemy = spawn_enemy_at(&mut world, 0, 0);
        set_health(&mut world, enemy, health(h));
        handle_bars(&mut world);
        let left = living_bars(&world, enemy).len() as u128;
        let expected = if h == 50 {
            24
        } else {
            depletion_threshold(health(h), max_health(50), 24).unwrap().min(24)
        };
        assert_eq!(left, expected);
    }
}

#[test]
fn extreme_values_do_not_overflow() {
    assert!(is_depleted(Health(i32::MIN), MaxHealth(u32::MAX), usize::MAX, usize::MAX));
    assert!(!is_depleted(Health(i32::MAX), MaxHealth(1), usize::MAX, 0));
    assert_eq!(
        depletion_threshold(Health(i32::MAX), MaxHealth(1), usize::MAX),
        Some(i32::MAX as u128 * (usize::MAX as u128 - 1))
    );
}

#[test]
fn bar_of_a_character_without_a_bar_component_is_left_alone() {
    let mut world = World::new();
    let mut owner = Components::empty();
    owner.health = Some(health(1));
    owner.max_health = Some(max_health(50));
    let owner = world.spawn(owner).unwrap();
    let mut segment = Components::empty();
    segment.parent = Some(owner);
    segment.bar = Some(Bar(3));
    let segment = world.spawn(segment).unwrap();
    assert!(handle_bars(&mut world).is_empty());
    let mut c = world.get(owner).unwrap();
    c.health_bar = Some(HealthBar { segments: 4 });
    world.update(owner, c);
    assert_eq!(handle_bars(&mut world), vec![segment]);
}

#[test]
fn bar_sprite_is_laid_out_by_index() {
    let first = create_bar_sprite(5);
    assert_eq!(first.index, 5);
    assert_eq!(first.x, 5 * 750 - 12500);
    assert_eq!(first.y, 16000);
    assert_eq!(first.scale_x, 250);
    let last = create_bar_sprite(28);
    assert_eq!(last.x, 8500);
}
