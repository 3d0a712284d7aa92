use castle_game::cadence::Cooldown;
use castle_game::geom::BoundingBox;
use castle_game::physics::{DeltaTime, Gravity, Position, Velocity};
use castle_game::projectile::{Damage, IgnoreCollision, Projectile};
use castle_game::schedule::{Schedule, System};
use castle_game::store::{Storage, ID_LIMIT};
use castle_game::systems::IGNORED_FRAMES;
use castle_game::terrain::Terrain;
use castle_game::turret::{Turret, TurretOffset};
use castle_game::unit::{Destination, Faction, Health, Melee, UnitState, Walk};
use castle_game::world::{Spawn, TerrainCollapse, TerrainMask, World};

fn flat(width: usize, height: usize, ground: usize) -> Terrain {
    let mut t = Terrain::new(width, height).unwrap();
    for x in 0..width {
        for y in ground..height {
            t.set_solid(x as i64, y as i64, true);
        }
    }
    t
}

fn world(width: usize, height: usize, ground: usize) -> World {
    World::new(flat(width, height, ground), Gravity(98_100), DeltaTime::new(16))
}

fn unit(x: i64, y: i64, faction: Faction) -> Spawn {
    Spawn::Unit {
        position: Position::new(x, y),
        faction,
        health: Health::new(100),
        walk: Walk { speed: 50_000 },
        destination: Destination(x),
        shape: BoundingBox::new(-5_000, -20_000, 5_000, 0),
        melee: Melee { damage: 30, cooldown: Cooldown::new(500_000_000) },
    }
}

fn shot(x: i64, y: i64, vx: i64, vy: i64) -> Spawn {
    Spawn::Projectile {
        position: Position::new(x, y),
        velocity: Velocity::new(vx, vy),
        damage: Damage(40),
        blast: 3,
        ignore: IgnoreCollision(0),
    }
}

#[test]
fn a_storage_keeps_components_by_id() {
    let mut s: Storage<u32> = Storage::new();
    assert_eq!(s.get(0), None);
    assert!(!s.contains(3));
    assert!(s.insert(3, 30));
    assert!(s.insert(1, 10));
    assert_eq!(s.get(3), Some(30));
    assert_eq!(s.get(1), Some(10));
    assert_eq!(s.get(0), None);
    assert_eq!(s.get(2), None);
    assert_eq!(s.get(4), None);
    assert!(s.contains(1));
    assert_eq!(s.first_from(0), Some(1));
    assert_eq!(s.first_from(2), Some(3));
    assert_eq!(s.first_from(4), None);
    assert!(!s.is_empty());
    assert!(s.insert(3, 31));
    assert_eq!(s.get(3), Some(31));
    assert!(s.set(1, 11));
    assert_eq!(s.get(1), Some(11));
    assert!(!s.set(2, 22));
    assert!(!s.set(700, 22));
    assert_eq!(s.get(2), None);
    assert_eq!(s.get(700), None);
    assert_eq!(s.remove(3), Some(31));
    assert_eq!(s.remove(3), None);
    assert_eq!(s.remove(99), None);
    assert_eq!(s.get(3), None);
    assert_eq!(s.get(1), Some(11));
}

#[test]
fn a_storage_refuses_ids_at_the_limit() {
    let mut s: Storage<u8> = Storage::new();
    assert!(!s.insert(ID_LIMIT, 1));
    assert!(!s.insert(usize::MAX, 1));
    assert_eq!(s.get(ID_LIMIT), None);
    assert_eq!(s.get(usize::MAX), None);
    assert!(s.is_empty());
    assert_eq!(s.first_from(usize::MAX), None);
}

#[test]
fn spawned_entities_get_rising_ids_and_their_components() {
    let mut w = world(20, 20, 10);
    assert_eq!(w.spawn(unit(5_500, 9_500, Faction::Ally)), Some(0));
    assert_eq!(w.spawn(shot(1_000, 2_000, 3, 4)), Some(1));
    assert_eq!(w.spawn(Spawn::Carve { request: TerrainMask { x: 1, y: 2, radius: 3 } }), Some(2));
    assert_eq!(w.spawn(Spawn::Collapse), Some(3));
    assert_eq!(
        w.spawn(Spawn::Debris { position: Position::new(1, 2), velocity: Velocity::new(3, 0) }),
        Some(4)
    );
    let gun = Turret {
        cooldown: Cooldown::ready(1_000),
        range_x: 10,
        range_y: 20,
        damage: 5,
        blast: 2,
    };
    assert_eq!(
        w.spawn(Spawn::Turret {
            position: Position::new(7, 8),
            offset: TurretOffset(1, -1),
            turret: gun
        }),
        Some(5)
    );
    assert_eq!(w.next_id, 6);
    assert_eq!(w.positions.get(0), Some(Position::new(5_500, 9_500)));
    assert_eq!(w.velocities.get(0), Some(Velocity::new(0, 0)));
    assert_eq!(w.states.get(0), Some(UnitState::Walking));
    assert_eq!(w.factions.get(0), Some(Faction::Ally));
    assert_eq!(w.healths.get(0), Some(Health { current: 100, max: 100 }));
    assert_eq!(w.destinations.get(0), Some(Destination(5_500)));
    assert_eq!(w.walks.get(0), Some(Walk { speed: 50_000 }));
    assert_eq!(w.boxes.get(0), Some(BoundingBox::new(-5_000, -20_000, 5_000, 0)));
    assert!(w.melees.contains(0));
    assert_eq!(w.projectiles.get(1), Some(Projectile { blast: 3, from: Position::new(1_000, 2_000) }));
    assert_eq!(w.damages.get(1), Some(Damage(40)));
    assert_eq!(w.ignores.get(1), Some(IgnoreCollision(0)));
    assert_eq!(w.boxes.get(1), Some(BoundingBox::new(-500, -500, 500, 500)));
    assert!(w.arrows.contains(1));
    assert!(!w.states.contains(1));
    assert_eq!(w.masks.get(2), Some(TerrainMask { x: 1, y: 2, radius: 3 }));
    assert_eq!(w.collapses.get(3), Some(TerrainCollapse));
    assert!(w.particles.contains(4));
    assert_eq!(w.velocities.get(4), Some(Velocity::new(3, 0)));
    assert_eq!(w.turrets.get(5), Some(gun));
    assert_eq!(w.turret_offsets.get(5), Some(TurretOffset(1, -1)));
    assert_eq!(w.positions.get(5), Some(Position::new(7, 8)));
}

#[test]
fn no_entity_is_made_once_the_ids_are_used_up() {
    let mut w = world(4, 4, 2);
    w.next_id = ID_LIMIT;
    assert_eq!(w.spawn(Spawn::Collapse), None);
    assert_eq!(w.next_id, ID_LIMIT);
    assert!(w.collapses.is_empty());
    w.next_id = ID_LIMIT - 1;
    assert_eq!(w.spawn(Spawn::Collapse), Some(ID_LIMIT - 1));
    assert_eq!(w.next_id, ID_LIMIT);
}

#[test]
fn an_erased_entity_has_no_component_left() {
    let mut w = world(20, 20, 10);
    w.spawn(unit(5_500, 9_500, Faction::Ally));
    w.spawn(unit(8_500, 9_500, Faction::Enemy));
    w.erase(0);
    assert!(!w.positions.contains(0));
    assert!(!w.states.contains(0));
    assert!(!w.healths.contains(0));
    assert!(!w.boxes.contains(0));
    assert!(!w.factions.contains(0));
    assert!(!w.melees.contains(0));
    assert!(w.positions.contains(1));
    assert_eq!(w.factions.get(1), Some(Faction::Enemy));
    assert_eq!(w.next_id, 2);
    w.erase(7);
    assert!(w.positions.contains(1));
}

#[test]
fn the_buffer_is_applied_at_the_end_of_the_frame_only() {
    let mut w = world(20, 20, 10);
    w.spawn(unit(5_500, 9_500, Faction::Ally));
    w.spawn(unit(8_500, 9_500, Faction::Ally));
    w.queue_removal(0);
    w.queue_spawn(Spawn::Collapse);
    w.queue_spawn(shot(1, 2, 3, 4));
    w.queue_removal(0);
    assert!(w.positions.contains(0));
    assert_eq!(w.next_id, 2);
    assert_eq!(w.spawns.len(), 2);
    assert_eq!(w.removals, vec![0, 0]);
    w.maintain();
    assert!(!w.positions.contains(0));
    assert!(w.positions.contains(1));
    assert!(w.collapses.contains(2));
    assert!(w.projectiles.contains(3));
    assert_eq!(w.next_id, 4);
    assert!(w.spawns.is_empty());
    assert!(w.removals.is_empty());
    w.maintain();
    assert_eq!(w.next_id, 4);
}

#[test]
fn a_removal_does_not_touch_what_is_made_in_the_same_frame() {
    let mut w = world(20, 20, 10);
    w.queue_spawn(Spawn::Collapse);
    w.queue_removal(0);
    w.maintain();
    assert!(w.collapses.contains(0));
}

#[test]
fn a_projectile_moves_and_remembers_where_it_was() {
    let mut w = world(20, 20, 10);
    w.spawn(shot(1_000, 2_000, 62_500, 0));
    w.step(System::Projectile, 0);
    assert_eq!(w.velocities.get(0), Some(Velocity::new(62_500, 1_569)));
    assert_eq!(w.positions.get(0), Some(Position::new(2_000, 2_025)));
    assert_eq!(w.projectiles.get(0), Some(Projectile { blast: 3, from: Position::new(1_000, 2_000) }));
    w.step(System::Projectile, 0);
    assert_eq!(w.projectiles.get(0), Some(Projectile { blast: 3, from: Position::new(2_000, 2_025) }));
}

#[test]
fn the_projectile_system_leaves_other_bodies_alone() {
    let mut w = world(20, 20, 10);
    w.spawn(unit(5_500, 9_500, Faction::Ally));
    w.spawn(Spawn::Debris { position: Position::new(1, 2), velocity: Velocity::new(3, 0) });
    w.sweep(System::Projectile);
    assert_eq!(w.positions.get(0), Some(Position::new(5_500, 9_500)));
    assert_eq!(w.positions.get(1), Some(Position::new(1, 2)));
}

#[test]
fn a_fresh_projectile_ignores_collisions_for_its_first_frames() {
    let mut w = world(20, 20, 10);
    w.spawn(unit(5_500, 9_500, Faction::Enemy));
    w.spawn(Spawn::Projectile {
        position: Position::new(5_500, 5_000),
        velocity: Velocity::new(0, 0),
        damage: Damage(40),
        blast: 3,
        ignore: IgnoreCollision(2),
    });
    w.step(System::ProjectileCollision, 1);
    assert_eq!(w.ignores.get(1), Some(IgnoreCollision(1)));
    assert!(w.removals.is_empty());
    w.step(System::ProjectileCollision, 1);
    assert_eq!(w.ignores.get(1), Some(IgnoreCollision(0)));
    assert!(w.removals.is_empty());
    assert_eq!(w.healths.get(0), Some(Health { current: 100, max: 100 }));
    w.step(System::ProjectileCollision, 1);
    assert_eq!(w.removals, vec![1]);
    assert_eq!(w.healths.get(0), Some(Health { current: 60, max: 100 }));
}

#[test]
fn a_projectile_hits_the_body_with_the_lowest_id() {
    let mut w = world(40, 20, 10);
    w.spawn(unit(30_500, 9_500, Faction::Enemy));
    w.spawn(unit(8_500, 9_500, Faction::Enemy));
    w.spawn(unit(8_000, 9_500, Faction::Ally));
    w.spawn(shot(8_200, 5_000, 0, 0));
    w.step(System::ProjectileCollision, 3);
    assert_eq!(w.healths.get(0), Some(Health { current: 100, max: 100 }));
    assert_eq!(w.healths.get(1), Some(Health { current: 60, max: 100 }));
    assert_eq!(w.healths.get(2), Some(Health { current: 100, max: 100 }));
    assert_eq!(w.removals, vec![3]);
    assert!(w.spawns.is_empty());
}

#[test]
fn a_blow_that_takes_the_last_health_destroys_the_body() {
    let mut w = world(40, 20, 10);
    w.spawn(unit(8_500, 9_500, Faction::Enemy));
    w.strike(0, 99);
    assert_eq!(w.healths.get(0), Some(Health { current: 1, max: 100 }));
    assert!(w.removals.is_empty());
    w.strike(0, 1);
    assert_eq!(w.healths.get(0), Some(Health { current: 0, max: 100 }));
    assert_eq!(w.removals, vec![0]);
    w.strike(5, 1);
    assert_eq!(w.removals, vec![0]);
    w.maintain();
    assert!(!w.healths.contains(0));
    assert!(!w.positions.contains(0));
}

#[test]
fn a_projectile_that_meets_the_terrain_asks_for_a_crater() {
    let mut w = world(40, 20, 10);
    w.spawn(shot(20_500, 12_500, 0, 0));
    w.projectiles.set(0, Projectile { blast: 3, from: Position::new(20_500, 7_500) });
    w.step(System::ProjectileCollision, 0);
    assert_eq!(w.removals, vec![0]);
    assert_eq!(
        w.spawns,
        vec![Spawn::Carve { request: TerrainMask { x: 20, y: 10, radius: 3 } }]
    );
}

#[test]
fn a_projectile_in_the_open_hits_nothing() {
    let mut w = world(40, 20, 10);
    w.spawn(unit(30_500, 9_500, Faction::Enemy));
    w.spawn(shot(20_500, 5_500, 0, 0));
    w.sweep(System::ProjectileCollision);
    w.sweep(System::ProjectileRemovalFromMask);
    assert!(w.removals.is_empty());
    assert!(w.spawns.is_empty());
    assert_eq!(w.healths.get(0), Some(Health { current: 100, max: 100 }));
}

#[test]
fn a_projectile_inside_solid_terrain_is_removed() {
    let mut w = world(40, 20, 10);
    w.spawn(shot(20_500, 15_500, 0, 0));
    w.spawn(shot(20_500, 9_999, 0, 0));
    w.spawn(unit(20_500, 15_500, Faction::Ally));
    w.sweep(System::ProjectileRemovalFromMask);
    assert_eq!(w.removals, vec![0]);
}

#[test]
fn a_walking_unit_heads_for_its_destination() {
    let mut w = world(40, 20, 10);
    w.spawn(unit(5_500, 9_500, Faction::Ally));
    w.destinations.set(0, Destination(7_000));
    w.step(System::Walk, 0);
    assert_eq!(w.positions.get(0), Some(Position::new(6_300, 9_500)));
    w.step(System::Walk, 0);
    assert_eq!(w.positions.get(0), Some(Position::new(7_000, 9_500)));
    w.step(System::Walk, 0);
    assert_eq!(w.positions.get(0), Some(Position::new(7_000, 9_500)));
    w.destinations.set(0, Destination(0));
    w.step(System::Walk, 0);
    assert_eq!(w.positions.get(0), Some(Position::new(6_200, 9_500)));
}

#[test]
fn only_walking_units_walk() {
    let mut w = world(40, 20, 10);
    w.spawn(unit(5_500, 9_500, Faction::Ally));
    w.spawn(unit(5_500, 9_500, Faction::Ally));
    w.destinations.set(0, Destination(7_000));
    w.destinations.set(1, Destination(7_000));
    w.states.set(0, UnitState::Melee);
    w.states.set(1, UnitState::Falling);
    w.sweep(System::Walk);
    assert_eq!(w.positions.get(0), Some(Position::new(5_500, 9_500)));
    assert_eq!(w.positions.get(1), Some(Position::new(5_500, 9_500)));
}

#[test]
fn a_unit_falls_when_the_ground_is_gone_and_walks_again_when_it_lands() {
    let mut w = world(40, 20, 10);
    w.spawn(unit(5_500, 7_500, Faction::Ally));
    assert!(!w.supports(Position::new(5_500, 7_500)));
    assert!(w.supports(Position::new(5_500, 9_500)));
    assert!(w.supports(Position::new(5_500, 9_000)));
    assert!(!w.supports(Position::new(5_500, 8_999)));
    w.step(System::UnitResumeWalking, 0);
    assert_eq!(w.states.get(0), Some(UnitState::Walking));
    w.step(System::UnitFall, 0);
    assert_eq!(w.states.get(0), Some(UnitState::Falling));
    assert_eq!(w.positions.get(0), Some(Position::new(5_500, 7_500)));
    let mut frames = 0;
    while w.states.get(0) == Some(UnitState::Falling) {
        w.step(System::UnitFall, 0);
        w.step(System::UnitResumeWalking, 0);
        frames += 1;
        assert!(frames < 100);
    }
    assert_eq!(w.states.get(0), Some(UnitState::Walking));
    assert_eq!(w.velocities.get(0), Some(Velocity::new(0, 0)));
    let landed = w.positions.get(0).unwrap();
    assert_eq!(landed.x, 5_500);
    assert!(landed.y >= 9_000 && landed.y < 10_000, "{:?}", landed);
    w.step(System::UnitFall, 0);
    assert_eq!(w.states.get(0), Some(UnitState::Walking));
    assert_eq!(w.positions.get(0), Some(landed));
}

#[test]
fn units_of_opposite_sides_fight_where_they_meet() {
    let mut w = world(60, 20, 10);
    w.spawn(unit(10_500, 9_500, Faction::Ally));
    w.spawn(unit(19_500, 9_500, Faction::Enemy));
    w.spawn(unit(12_500, 9_500, Faction::Ally));
    w.spawn(unit(40_500, 9_500, Faction::Enemy));
    w.sweep(System::UnitCollide);
    assert_eq!(w.states.get(0), Some(UnitState::Melee));
    assert_eq!(w.states.get(1), Some(UnitState::Melee));
    assert_eq!(w.states.get(2), Some(UnitState::Melee));
    assert_eq!(w.states.get(3), Some(UnitState::Walking));
    w.positions.set(1, Position::new(20_500, 9_500));
    w.sweep(System::UnitCollide);
    assert_eq!(w.states.get(0), Some(UnitState::Walking));
    assert_eq!(w.states.get(1), Some(UnitState::Melee));
    assert_eq!(w.states.get(2), Some(UnitState::Melee));
    w.positions.set(1, Position::new(22_500, 9_500));
    w.sweep(System::UnitCollide);
    assert_eq!(w.states.get(1), Some(UnitState::Walking));
    assert_eq!(w.states.get(2), Some(UnitState::Walking));
}

#[test]
fn a_fighting_unit_deals_a_blow_once_per_interval() {
    let mut w = world(60, 20, 10);
    w.spawn(unit(10_500, 9_500, Faction::Ally));
    w.spawn(unit(12_500, 9_500, Faction::Enemy));
    w.melees.set(1, Melee { damage: 1, cooldown: Cooldown::new(u64::MAX) });
    w.sweep(System::UnitCollide);
    w.delta = DeltaTime::new(100);
    let mut health = Vec::new();
    for _ in 0..20 {
        w.sweep(System::Melee);
        health.push(w.healths.get(1).unwrap().current);
    }
    assert_eq!(
        health,
        vec![100, 100, 100, 100, 70, 70, 70, 70, 70, 40, 40, 40, 40, 40, 10, 10, 10, 10, 10, 0]
    );
    assert_eq!(w.healths.get(0), Some(Health { current: 100, max: 100 }));
    assert_eq!(w.removals, vec![1]);
    w.maintain();
    assert!(!w.positions.contains(1));
    w.sweep(System::UnitCollide);
    assert_eq!(w.states.get(0), Some(UnitState::Walking));
}

#[test]
fn a_turret_fires_at_the_nearest_living_enemy_in_range() {
    let mut w = world(120, 40, 30);
    let gun = Turret {
        cooldown: Cooldown::ready(1_000_000_000),
        range_x: 60_000,
        range_y: 20_000,
        damage: 40,
        blast: 12,
    };
    w.spawn(Spawn::Turret {
        position: Position::new(10_500, 29_500),
        offset: TurretOffset(0, -10_000),
        turret: gun,
    });
    w.spawn(unit(90_500, 29_500, Faction::Enemy));
    w.spawn(unit(20_500, 29_500, Faction::Ally));
    w.spawn(unit(60_500, 29_500, Faction::Enemy));
    w.spawn(unit(30_500, 29_500, Faction::Enemy));
    w.healths.set(4, Health { current: 0, max: 100 });
    w.step(System::Turret, 0);
    assert_eq!(
        w.spawns,
        vec![Spawn::Projectile {
            position: Position::new(10_500, 19_500),
            velocity: Velocity::new(50_000, 10_000 - 49_050),
            damage: Damage(40),
            blast: 12,
            ignore: IgnoreCollision(IGNORED_FRAMES),
        }]
    );
    assert_eq!(w.turrets.get(0).unwrap().cooldown, Cooldown { interval: 1_000_000_000, elapsed: 0 });
    w.step(System::Turret, 0);
    assert_eq!(w.spawns.len(), 1);
    assert_eq!(w.turrets.get(0).unwrap().cooldown.elapsed, 16_000_000);
}

#[test]
fn a_turret_without_a_target_waits_with_its_shot() {
    let mut w = world(120, 40, 30);
    let gun = Turret {
        cooldown: Cooldown::new(32_000_000),
        range_x: 10_000,
        range_y: 10_000,
        damage: 40,
        blast: 12,
    };
    w.spawn(Spawn::Turret {
        position: Position::new(10_500, 29_500),
        offset: TurretOffset(0, 0),
        turret: gun,
    });
    w.spawn(unit(90_500, 29_500, Faction::Enemy));
    for _ in 0..10 {
        w.sweep(System::Turret);
    }
    assert!(w.spawns.is_empty());
    assert_eq!(w.turrets.get(0).unwrap().cooldown.elapsed, 160_000_000);
    w.positions.set(1, Position::new(15_500, 29_500));
    w.sweep(System::Turret);
    assert_eq!(w.spawns.len(), 1);
    w.sweep(System::Turret);
    assert_eq!(w.spawns.len(), 1);
    w.sweep(System::Turret);
    assert_eq!(w.spawns.len(), 2);
}

#[test]
fn debris_falls_until_it_is_done_with() {
    let mut w = world(20, 20, 10);
    w.spawn(Spawn::Debris { position: Position::new(5_500, 8_500), velocity: Velocity::new(0, 0) });
    w.spawn(Spawn::Debris { position: Position::new(-1_500, 8_500), velocity: Velocity::new(0, 0) });
    w.spawn(Spawn::Debris { position: Position::new(5_500, 20_500), velocity: Velocity::new(0, 0) });
    w.spawn(Spawn::Debris { position: Position::new(20_500, 2_000), velocity: Velocity::new(0, 0) });
    w.spawn(Spawn::Debris { position: Position::new(5_500, -8_500), velocity: Velocity::new(0, 0) });
    w.sweep(System::Particle);
    assert_eq!(w.removals, vec![1, 2, 3]);
    assert_eq!(w.positions.get(0), Some(Position::new(5_500, 8_525)));
    assert_eq!(w.velocities.get(0), Some(Velocity::new(0, 1_569)));
    w.removals.clear();
    let mut frames = 0;
    while w.removals.is_empty() {
        w.step(System::Particle, 0);
        frames += 1;
        assert!(frames < 100);
    }
    assert_eq!(w.removals, vec![0]);
    assert!(w.positions.get(0).unwrap().y >= 10_000);
}

#[test]
fn a_request_to_carve_is_served_once() {
    let mut w = world(20, 20, 10);
    w.spawn(Spawn::Carve { request: TerrainMask { x: 5, y: 10, radius: 2 } });
    assert!(w.wants_collapse());
    w.run(System::TerrainCollapse);
    assert!(!w.terrain.is_solid(5, 10));
    assert!(!w.terrain.is_solid(5, 12));
    assert!(!w.terrain.is_solid(3, 10));
    assert!(w.terrain.is_solid(5, 13));
    assert!(w.terrain.is_solid(2, 10));
    assert_eq!(w.removals, vec![0]);
    assert!(w.spawns.is_empty());
    w.maintain();
    assert!(!w.masks.contains(0));
    assert!(!w.wants_collapse());
    w.terrain.set_solid(5, 10, true);
    w.run(System::TerrainCollapse);
    assert!(w.terrain.is_solid(5, 10));
    assert!(w.removals.is_empty());
}

#[test]
fn terrain_collapses_only_on_request() {
    let mut w = world(20, 20, 10);
    w.terrain.set_solid(5, 3, true);
    w.run(System::TerrainCollapse);
    assert!(w.terrain.is_solid(5, 3));
    assert!(w.spawns.is_empty());
    w.spawn(Spawn::Collapse);
    w.run(System::TerrainCollapse);
    assert!(!w.terrain.is_solid(5, 3));
    assert_eq!(w.removals, vec![0]);
    assert_eq!(w.spawns.len(), 1);
    match w.spawns[0] {
        Spawn::Debris { position, velocity } => {
            assert_eq!(position, Position::new(5_500, 3_500));
            assert_eq!(velocity.y, 0);
            assert!(velocity.x.abs() <= 20_000);
        }
        other => panic!("{:?}", other),
    }
}

#[test]
fn a_crater_under_an_overhang_turns_it_into_debris() {
    let mut w = world(30, 30, 20);
    for x in 10..20 {
        w.terrain.set_solid(x, 15, true);
    }
    for y in 16..20 {
        w.terrain.set_solid(14, y, true);
    }
    w.spawn(Spawn::Collapse);
    w.run(System::TerrainCollapse);
    assert!(w.spawns.is_empty());
    assert!(w.terrain.is_solid(10, 15));
    w.maintain();
    w.spawn(Spawn::Carve { request: TerrainMask { x: 14, y: 18, radius: 1 } });
    w.run(System::TerrainCollapse);
    assert_eq!(w.spawns.len(), 11);
    let mut seen = Vec::new();
    for spawn in w.spawns.iter() {
        match spawn {
            Spawn::Debris { position, .. } => seen.push(position.as_i32()),
            other => panic!("{:?}", other),
        }
    }
    let mut expected: Vec<(i32, i32)> = (10..20).map(|x| (x, 15)).collect();
    expected.push((14, 16));
    assert_eq!(seen, expected);
    for x in 10..20 {
        assert!(!w.terrain.is_solid(x, 15));
    }
    assert!(!w.terrain.is_solid(14, 16));
    assert!(w.terrain.is_solid(14, 20));
    w.maintain();
    assert_eq!(w.next_id, 13);
    for id in 2..13 {
        assert!(w.particles.contains(id));
    }
    w.run(System::TerrainCollapse);
    assert!(w.spawns.is_empty());
}

fn game_schedule() -> Schedule {
    let after = |list: &[&str]| -> Vec<String> { list.iter().map(|n| n.to_string()).collect() };
    let mut s = Schedule::new();
    s.add("projectile".to_string(), System::Projectile, &after(&[])).unwrap();
    s.add("projectile_collision".to_string(), System::ProjectileCollision, &after(&["projectile"]))
        .unwrap();
    s.add(
        "projectile_removal_from_mask".to_string(),
        System::ProjectileRemovalFromMask,
        &after(&["projectile"]),
    )
    .unwrap();
    s.add("terrain_collapse".to_string(), System::TerrainCollapse, &after(&["projectile"]))
        .unwrap();
    s.add("walk".to_string(), System::Walk, &after(&[])).unwrap();
    s.add("unit_fall".to_string(), System::UnitFall, &after(&["walk"])).unwrap();
    s.add("unit_resume_walking".to_string(), System::UnitResumeWalking, &after(&["walk"]))
        .unwrap();
    s.add("unit_collide".to_string(), System::UnitCollide, &after(&["walk"])).unwrap();
    s.add("melee".to_string(), System::Melee, &after(&["walk"])).unwrap();
    s.add("turret".to_string(), System::Turret, &after(&["walk"])).unwrap();
    s.add("particle".to_string(), System::Particle, &after(&[])).unwrap();
    s
}

#[test]
fn a_frame_runs_every_system_once_and_then_applies_the_buffer() {
    let schedule = game_schedule();
    assert_eq!(schedule.len(), 11);
    let mut w = world(60, 40, 30);
    w.spawn(unit(10_500, 29_500, Faction::Ally));
    w.destinations.set(0, Destination(50_500));
    w.spawn(shot(30_500, 5_000, 0, 0));
    w.spawn(Spawn::Debris { position: Position::new(40_500, 5_000), velocity: Velocity::new(0, 0) });
    w.queue_removal(2);
    w.frame(&schedule, DeltaTime::new(100));
    assert_eq!(w.delta.as_nanos(), 100_000_000);
    assert_eq!(w.positions.get(0), Some(Position::new(15_500, 29_500)));
    assert_eq!(w.velocities.get(1), Some(Velocity::new(0, 9_810)));
    assert_eq!(w.positions.get(1), Some(Position::new(30_500, 5_981)));
    assert!(!w.positions.contains(2));
    assert!(w.spawns.is_empty());
    assert!(w.removals.is_empty());
    w.dispatch(&schedule);
    assert_eq!(w.positions.get(0), Some(Position::new(20_500, 29_500)));
    assert_eq!(w.velocities.get(1), Some(Velocity::new(0, 19_620)));
}

#[test]
fn a_frame_of_an_empty_schedule_only_applies_the_buffer() {
    let mut w = world(20, 20, 10);
    w.spawn(unit(5_500, 5_500, Faction::Ally));
    w.queue_spawn(Spawn::Collapse);
    w.dispatch(&Schedule::new());
    assert_eq!(w.positions.get(0), Some(Position::new(5_500, 5_500)));
    assert_eq!(w.states.get(0), Some(UnitState::Walking));
    assert!(w.collapses.contains(1));
}

#[test]
fn a_unit_walks_to_its_destination_and_stays() {
    let schedule = game_schedule();
    let mut w = world(600, 40, 30);
    let id = w
        .spawn(Spawn::Unit {
            position: Position::new(100_000, 29_500),
            faction: Faction::Ally,
            health: Health::new(100),
            walk: Walk { speed: 50_000 },
            destination: Destination(500_000),
            shape: BoundingBox::new(-5_000, -20_000, 5_000, 0),
            melee: Melee { damage: 30, cooldown: Cooldown::new(500_000_000) },
        })
        .unwrap();
    let millis = 1000 / 60;
    let mut elapsed = 0;
    let mut last = 100_000;
    while elapsed < 8_000 {
        w.frame(&schedule, DeltaTime::new(millis));
        elapsed += millis;
        assert_eq!(w.states.get(id), Some(UnitState::Walking));
        let p = w.positions.get(id).unwrap();
        assert_eq!(p.y, 29_500);
        assert!(p.x >= last && p.x <= 500_000);
        if elapsed < 8_000 {
            assert_eq!(p.x, 100_000 + 50 * elapsed as i64);
        }
        last = p.x;
    }
    assert_eq!(w.positions.get(id), Some(Position::new(500_000, 29_500)));
    for _ in 0..60 {
        w.frame(&schedule, DeltaTime::new(millis));
        assert_eq!(w.positions.get(id), Some(Position::new(500_000, 29_500)));
        assert_eq!(w.states.get(id), Some(UnitState::Walking));
    }
}

#[test]
fn a_shot_lands_where_it_should_and_undermines_the_unit_beside() {
    let schedule = game_schedule();
    let mut w = world(300, 140, 100);
    let walker = w.spawn(unit(118_500, 99_500, Faction::Ally)).unwrap();
    let fired = w.spawn(shot(10_500, 50_500, 100_000, 0)).unwrap();
    w.projectiles.set(fired, Projectile { blast: 12, from: Position::new(10_500, 50_500) });
    let g = 98.1_f64;
    let fall = 100.0 - 50.5;
    let flight = (2.0 * fall / g).sqrt();
    let predicted_x = 10.5 + 100.0 * flight;
    let mut frames = 0;
    while w.masks.is_empty() {
        w.frame(&schedule, DeltaTime::new(16));
        frames += 1;
        assert!(frames < 200);
        assert_eq!(w.states.get(walker), Some(UnitState::Walking));
    }
    let time = frames as f64 * 0.016;
    assert!((time - flight).abs() < 0.05, "{} against {}", time, flight);
    assert!(!w.positions.contains(fired));
    let request = w.masks.get(fired + 1).unwrap();
    assert_eq!(request.radius, 12);
    assert_eq!(request.y, 100);
    assert!((request.x as f64 - predicted_x).abs() <= 2.0, "{} against {}", request.x, predicted_x);
    assert!(w.terrain.is_solid(request.x, 100));
    assert!(w.terrain.is_solid(118, 100));
    w.frame(&schedule, DeltaTime::new(16));
    for x in 0..300_i64 {
        for y in 0..140_i64 {
            let dx = x - request.x;
            let dy = y - 100;
            let solid = y >= 100 && dx * dx + dy * dy > 144;
            assert_eq!(w.terrain.is_solid(x, y), solid, "cell {} {}", x, y);
        }
    }
    assert!(!w.masks.contains(fired + 1));
    assert_eq!(w.states.get(walker), Some(UnitState::Falling));
    assert_eq!(w.healths.get(walker), Some(Health { current: 100, max: 100 }));
    let mut more = 0;
    while w.states.get(walker) == Some(UnitState::Falling) {
        w.frame(&schedule, DeltaTime::new(16));
        more += 1;
        assert!(more < 200);
    }
    assert_eq!(w.states.get(walker), Some(UnitState::Walking));
    let landed = w.positions.get(walker).unwrap();
    assert_eq!(landed.x, 118_500);
    assert!(landed.y > 99_500);
    assert!(w.supports(landed));
}

#[test]
fn a_turret_keeps_its_cadence_at_any_frame_rate() {
    let schedule = game_schedule();
    let mut counts = Vec::new();
    for millis in [10_u64, 20, 50] {
        let mut w = world(200, 60, 50);
        w.spawn(Spawn::Turret {
            position: Position::new(10_500, 49_500),
            offset: TurretOffset(0, -10_000),
            turret: Turret {
                cooldown: Cooldown::new(500_000_000),
                range_x: 300_000,
                range_y: 300_000,
                damage: 0,
                blast: 0,
            },
        });
        w.spawn(unit(150_500, 49_500, Faction::Enemy));
        let mut shots = 0;
        let mut elapsed = 0;
        while elapsed < 5_000 {
            let before = w.next_id;
            w.frame(&schedule, DeltaTime::new(millis));
            elapsed += millis;
            let made = (before..w.next_id).filter(|id| w.projectiles.contains(*id)).count();
            assert!(made <= 1);
            shots += made;
        }
        counts.push(shots);
    }
    assert_eq!(counts, vec![10, 10, 10]);
}

#[test]
fn a_world_made_by_spawning_is_coherent() {
    let mut w = world(40, 20, 10);
    assert!(w.is_coherent());
    w.spawn(unit(5_500, 9_500, Faction::Ally));
    w.spawn(shot(1_000, 2_000, 3, 4));
    w.spawn(Spawn::Collapse);
    w.spawn(Spawn::Debris { position: Position::new(1, 2), velocity: Velocity::new(3, 0) });
    assert!(w.is_coherent());
    w.erase(1);
    assert!(w.is_coherent());
    let schedule = game_schedule();
    for _ in 0..30 {
        w.frame(&schedule, DeltaTime::new(16));
        assert!(w.is_coherent());
    }
}

#[test]
fn a_component_without_an_entity_is_found() {
    let mut w = world(40, 20, 10);
    w.spawn(Spawn::Collapse);
    w.masks.insert(1, TerrainMask { x: 0, y: 0, radius: 0 });
    assert!(!w.is_coherent());
    w.next_id = 2;
    assert!(w.is_coherent());
    w.arrows.insert(900, castle_game::projectile::Arrow);
    assert!(!w.is_coherent());
}

#[test]
fn a_body_without_a_place_is_found() {
    let mut w = world(40, 20, 10);
    w.spawn(unit(5_500, 9_500, Faction::Ally));
    w.positions.remove(0);
    assert!(!w.is_coherent());
    w.positions.insert(0, Position::new(0, 0));
    assert!(w.is_coherent());
    w.spawn(Spawn::Collapse);
    w.velocities.insert(1, Velocity::new(1, 1));
    assert!(!w.is_coherent());
    w.velocities.remove(1);
    w.boxes.insert(1, BoundingBox::new(0, 0, 1, 1));
    assert!(!w.is_coherent());
    w.boxes.remove(1);
    w.turrets.insert(1, Turret {
        cooldown: Cooldown::new(1),
        range_x: 1,
        range_y: 1,
        damage: 1,
        blast: 1,
    });
    assert!(!w.is_coherent());
    w.turrets.remove(1);
    w.particles.insert(1, castle_game::world::PixelParticle);
    assert!(!w.is_coherent());
    w.particles.remove(1);
    w.projectiles.insert(1, Projectile { blast: 1, from: Position::new(0, 0) });
    assert!(!w.is_coherent());
    w.projectiles.remove(1);
    assert!(w.is_coherent());
}

#[test]
fn a_unit_without_health_or_a_side_is_found() {
    let mut w = world(40, 20, 10);
    w.spawn(unit(5_500, 9_500, Faction::Enemy));
    w.healths.remove(0);
    assert!(!w.is_coherent());
    w.healths.insert(0, Health::new(1));
    w.factions.remove(0);
    assert!(!w.is_coherent());
    w.factions.insert(0, Faction::Ally);
    assert!(w.is_coherent());
}

#[test]
fn the_lists_hold_the_right_entities_by_rising_id() {
    let mut w = world(60, 20, 10);
    w.spawn(unit(10_500, 9_500, Faction::Ally));
    w.spawn(shot(1_000, 2_000, 0, 0));
    w.spawn(unit(30_500, 9_500, Faction::Enemy));
    w.spawn(unit(40_500, 8_500, Faction::Enemy));
    w.spawn(Spawn::Turret {
        position: Position::new(7, 8),
        offset: TurretOffset(0, 0),
        turret: Turret {
            cooldown: Cooldown::new(1),
            range_x: 1,
            range_y: 1,
            damage: 1,
            blast: 1,
        },
    });
    w.healths.set(3, Health { current: 0, max: 100 });
    let ids = |list: Vec<castle_game::projectile::Target>| -> Vec<usize> {
        list.iter().map(|t| t.id).collect()
    };
    assert_eq!(ids(w.bodies()), vec![0, 2, 3]);
    assert_eq!(ids(w.opponents(Faction::Ally)), vec![2, 3]);
    assert_eq!(ids(w.opponents(Faction::Enemy)), vec![0]);
    assert_eq!(w.bodies()[1].bounds, BoundingBox::new(25_500, -10_500, 35_500, 9_500));
    assert_eq!(w.body_box(3), Some(BoundingBox::new(35_500, -11_500, 45_500, 8_500)));
    assert_eq!(w.body_box(1), None);
    assert_eq!(w.body_box(4), None);
    assert_eq!(w.body_box(99), None);
    let prey = w.prey();
    assert_eq!(prey.len(), 1);
    assert_eq!(prey[0].id, 2);
    assert_eq!(prey[0].position, Position::new(30_500, 9_500));
    w.next_id = 2;
    assert_eq!(ids(w.bodies()), vec![0]);
    assert!(w.prey().is_empty());
}

#[test]
fn debris_is_done_with_inside_beside_and_below_the_terrain() {
    let w = world(20, 20, 10);
    assert!(!w.spent(Position::new(5_500, 9_999)));
    assert!(w.spent(Position::new(5_500, 10_000)));
    assert!(w.spent(Position::new(-1_000, 0)));
    assert!(!w.spent(Position::new(-999, 0)));
    assert!(w.spent(Position::new(20_000, 0)));
    assert!(!w.spent(Position::new(19_999, 0)));
    assert!(!w.spent(Position::new(5_500, -50_000)));
    assert!(w.spent(Position::new(5_500, 20_000)));
}
