use game_engine::swarm::{despawn_list, side_from_roll, spawn_side, spear_damage, strike_enemy, HitResult, SpawnSide, ENEMY_HP};

#[test]
fn test_spear_damage() {
    assert_eq!(spear_damage(false), 1);
    assert_eq!(spear_damage(true), 2);
    assert_eq!(ENEMY_HP, 2);
}

#[test]
fn test_side_from_roll() {
    assert_eq!(side_from_roll(0), SpawnSide::Top);
    assert_eq!(side_from_roll(1), SpawnSide::Bottom);
    assert_eq!(side_from_roll(2), SpawnSide::Left);
    assert_eq!(side_from_roll(3), SpawnSide::Right);
}

#[test]
fn test_spawn_side_covers_edges() {
    let mut seen = [false; 4];
    for _ in 0..400 {
        let i = match spawn_side() {
            SpawnSide::Top => 0,
            SpawnSide::Bottom => 1,
            SpawnSide::Left => 2,
            SpawnSide::Right => 3,
        };
        seen[i] = true;
    }
    assert!(seen[0] && seen[3]);
}

#[test]
fn test_strike_enemy() {
    let near = vec![false, true, true];
    let damages = vec![2, 1, 2];
    assert_eq!(strike_enemy(2, true, &near, &damages), HitResult { hp: 1, hit: true, killed: false });
    assert_eq!(strike_enemy(1, true, &near, &damages), HitResult { hp: 0, hit: true, killed: true });
    assert_eq!(strike_enemy(2, false, &near, &damages), HitResult { hp: 2, hit: false, killed: false });
    assert_eq!(strike_enemy(2, true, &vec![false, false], &vec![2, 2]), HitResult { hp: 2, hit: false, killed: false });
    assert_eq!(strike_enemy(2, true, &vec![true], &vec![2]), HitResult { hp: 0, hit: true, killed: true });
}

#[test]
fn test_despawn_list() {
    assert_eq!(despawn_list(&vec![7, 3, 7, 9, 3, 1]), vec![1, 3, 7, 9]);
    assert_eq!(despawn_list(&vec![]), Vec::<u64>::new());
    assert_eq!(despawn_list(&vec![5, 5, 5]), vec![5]);
    // entities sort by index first, then generation, as `hecs::Entity` does
    let gen1_id5 = (1u64 << 32) | 5;
    let gen2_id3 = (2u64 << 32) | 3;
    let gen3_id5 = (3u64 << 32) | 5;
    assert_eq!(despawn_list(&vec![gen1_id5, gen3_id5, gen2_id3, gen1_id5]), vec![gen2_id3, gen1_id5, gen3_id5]);
}

#[test]
fn test_despawn_list_follows_entity_order() {
    let mut world = hecs::World::new();
    let a = world.spawn((1u32,));
    let b = world.spawn((2u32,));
    world.despawn(a).unwrap();
    let c = world.spawn((3u32,));
    let mut entities = vec![b, c, b];
    entities.sort();
    entities.dedup();
    let expected: Vec<u64> = entities.iter().map(|e| e.to_bits().get()).collect();
    let bits = vec![b.to_bits().get(), c.to_bits().get(), b.to_bits().get()];
    assert_eq!(despawn_list(&bits), expected);
}
