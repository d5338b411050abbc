use sand3d::material::{MaterialProperties, VoxelMaterial};
use sand3d::model::{World, WORLD_VOLUME};
use sand3d::simulator::VoxelSimulator;
use sand3d::tracker::ChangeTracker;

fn count_material(world: &World, material: VoxelMaterial) -> usize {
    let mut n = 0;
    for i in 0..WORLD_VOLUME {
        if world.get_index(i) == material {
            n += 1;
        }
    }
    n
}

fn find_material(world: &World, material: VoxelMaterial) -> Option<(usize, usize, usize)> {
    for i in 0..WORLD_VOLUME {
        if world.get_index(i) == material {
            return Some(World::index_to_coordinates(i));
        }
    }
    None
}

#[test]
fn single_sand_voxel_falls_one_cell_per_tick() {
    let mut world = World::new();
    let mut tracker = ChangeTracker::new();
    let mut sim = VoxelSimulator::new();
    world.set(VoxelMaterial::Sand, 5, 10, 5);
    for tick in 0..10 {
        assert_eq!(world.get(5, 10 - tick, 5), VoxelMaterial::Sand);
        sim.next_step(&mut world, &mut tracker);
        assert_eq!(world.get(5, 10 - tick, 5), VoxelMaterial::Air);
        assert_eq!(world.get(5, 9 - tick, 5), VoxelMaterial::Sand);
    }
    for _ in 0..5 {
        sim.next_step(&mut world, &mut tracker);
        assert_eq!(world.get(5, 0, 5), VoxelMaterial::Sand);
    }
    assert_eq!(count_material(&world, VoxelMaterial::Sand), 1);
}

#[test]
fn metal_never_changes_across_ticks() {
    let mut world = World::new();
    let mut tracker = ChangeTracker::new();
    let mut sim = VoxelSimulator::new();
    world.set(VoxelMaterial::Metal, 7, 3, 7);
    world.set(VoxelMaterial::Sand, 7, 8, 7);
    world.set(VoxelMaterial::Water, 8, 8, 8);
    for _ in 0..20 {
        sim.next_step(&mut world, &mut tracker);
        assert_eq!(world.get(7, 3, 7), VoxelMaterial::Metal);
    }
    assert_eq!(count_material(&world, VoxelMaterial::Metal), 1);
    assert_eq!(count_material(&world, VoxelMaterial::Sand), 1);
    assert_eq!(count_material(&world, VoxelMaterial::Water), 1);
}

#[test]
fn swap_into_empty_space_moves_the_material() {
    let mut world = World::new();
    let mut tracker = ChangeTracker::new();
    world.set(VoxelMaterial::Sand, 5, 5, 5);
    let props = MaterialProperties::new(&VoxelMaterial::Sand);
    let mut mask = vec![false; WORLD_VOLUME];
    let swapped = VoxelSimulator::swap(
        &mut world,
        &mut tracker,
        VoxelMaterial::Sand,
        &props,
        5,
        5,
        5,
        5,
        4,
        5,
        &mut mask,
    );
    assert!(swapped);
    assert_eq!(world.get(5, 5, 5), VoxelMaterial::Air);
    assert_eq!(world.get(5, 4, 5), VoxelMaterial::Sand);
    // moving into empty space locks only the destination
    assert!(mask[World::coordiantes_to_index(5, 4, 5)]);
    assert!(!mask[World::coordiantes_to_index(5, 5, 5)]);
}

#[test]
fn swap_displacement_exchanges_the_two_cells() {
    let mut world = World::new();
    let mut tracker = ChangeTracker::new();
    world.set(VoxelMaterial::Water, 5, 5, 5);
    world.set(VoxelMaterial::Oil, 5, 4, 5);
    let props = MaterialProperties::new(&VoxelMaterial::Water);
    let mut mask = vec![false; WORLD_VOLUME];
    let swapped = VoxelSimulator::swap(
        &mut world,
        &mut tracker,
        VoxelMaterial::Water,
        &props,
        5,
        5,
        5,
        5,
        4,
        5,
        &mut mask,
    );
    assert!(swapped);
    // the multiset of the two cells is unchanged: just exchanged
    assert_eq!(world.get(5, 5, 5), VoxelMaterial::Oil);
    assert_eq!(world.get(5, 4, 5), VoxelMaterial::Water);
    // displacement locks both cells
    assert!(mask[World::coordiantes_to_index(5, 4, 5)]);
    assert!(mask[World::coordiantes_to_index(5, 5, 5)]);
}

#[test]
fn swap_refuses_solid_heavier_locked_and_out_of_bounds_destinations() {
    let mut world = World::new();
    let mut tracker = ChangeTracker::new();
    world.set(VoxelMaterial::Water, 5, 5, 5);
    world.set(VoxelMaterial::Metal, 5, 4, 5);
    let props = MaterialProperties::new(&VoxelMaterial::Water);
    let mut mask = vec![false; WORLD_VOLUME];
    // a solid destination is never displaced
    assert!(!VoxelSimulator::swap(
        &mut world,
        &mut tracker,
        VoxelMaterial::Water,
        &props,
        5,
        5,
        5,
        5,
        4,
        5,
        &mut mask,
    ));
    assert_eq!(world.get(5, 5, 5), VoxelMaterial::Water);
    assert_eq!(world.get(5, 4, 5), VoxelMaterial::Metal);
    // a heavier neighbour is not displaced either
    world.set(VoxelMaterial::Lava, 6, 5, 5);
    assert!(!VoxelSimulator::swap(
        &mut world,
        &mut tracker,
        VoxelMaterial::Water,
        &props,
        5,
        5,
        5,
        6,
        5,
        5,
        &mut mask,
    ));
    // a weight tie never swaps
    world.set(VoxelMaterial::Water, 4, 5, 5);
    assert!(!VoxelSimulator::swap(
        &mut world,
        &mut tracker,
        VoxelMaterial::Water,
        &props,
        5,
        5,
        5,
        4,
        5,
        5,
        &mut mask,
    ));
    // an out-of-bounds destination declines
    assert!(!VoxelSimulator::swap(
        &mut world,
        &mut tracker,
        VoxelMaterial::Water,
        &props,
        5,
        5,
        5,
        30,
        5,
        5,
        &mut mask,
    ));
    // a locked destination declines
    world.set(VoxelMaterial::Air, 7, 5, 5);
    mask[World::coordiantes_to_index(7, 5, 5)] = true;
    assert!(!VoxelSimulator::swap(
        &mut world,
        &mut tracker,
        VoxelMaterial::Water,
        &props,
        5,
        5,
        5,
        7,
        5,
        5,
        &mut mask,
    ));
    assert_eq!(world.get(5, 5, 5), VoxelMaterial::Water);
}

#[test]
fn denser_powder_displaces_lighter_liquid_below_within_one_step() {
    let mut world = World::new();
    let mut tracker = ChangeTracker::new();
    let mut sim = VoxelSimulator::new();
    world.set(VoxelMaterial::Sand, 5, 5, 5);
    world.set(VoxelMaterial::Water, 5, 4, 5);
    let props = MaterialProperties::new(&VoxelMaterial::Sand);
    let mut mask = vec![false; WORLD_VOLUME];
    sim.simulate_powder(
        &mut world,
        &mut tracker,
        VoxelMaterial::Sand,
        props,
        5,
        5,
        5,
        &mut mask,
    );
    assert_eq!(world.get(5, 4, 5), VoxelMaterial::Sand);
    assert_eq!(world.get(5, 5, 5), VoxelMaterial::Water);
}

#[test]
fn denser_liquid_displaces_lighter_liquid_below_within_one_step() {
    let mut world = World::new();
    let mut tracker = ChangeTracker::new();
    let mut sim = VoxelSimulator::new();
    world.set(VoxelMaterial::Water, 5, 5, 5);
    world.set(VoxelMaterial::Oil, 5, 4, 5);
    let props = MaterialProperties::new(&VoxelMaterial::Water);
    let mut mask = vec![false; WORLD_VOLUME];
    sim.simulate_liquid(
        &mut world,
        &mut tracker,
        VoxelMaterial::Water,
        props,
        5,
        5,
        5,
        &mut mask,
    );
    assert_eq!(world.get(5, 4, 5), VoxelMaterial::Water);
    assert_eq!(world.get(5, 5, 5), VoxelMaterial::Oil);
}

#[test]
fn powder_above_solid_never_displaces_it() {
    let mut world = World::new();
    let mut tracker = ChangeTracker::new();
    let mut sim = VoxelSimulator::new();
    world.set(VoxelMaterial::Sand, 5, 5, 5);
    world.set(VoxelMaterial::Metal, 5, 4, 5);
    let props = MaterialProperties::new(&VoxelMaterial::Sand);
    let mut mask = vec![false; WORLD_VOLUME];
    sim.simulate_powder(
        &mut world,
        &mut tracker,
        VoxelMaterial::Sand,
        props,
        5,
        5,
        5,
        &mut mask,
    );
    assert_eq!(world.get(5, 4, 5), VoxelMaterial::Metal);
    assert_eq!(count_material(&world, VoxelMaterial::Sand), 1);
}

#[test]
fn lava_beside_water_reacts_to_stone_and_steam() {
    let mut world = World::new();
    let mut tracker = ChangeTracker::new();
    let mut sim = VoxelSimulator::new();
    world.set(VoxelMaterial::Lava, 10, 10, 10);
    world.set(VoxelMaterial::Water, 10, 11, 10);
    sim.check_reaction(&mut world, &mut tracker, 10, 10, 10);
    // the lava reaction with probability one fires: exactly one cell
    // becomes Stone and the other Steam
    assert_eq!(world.get(10, 10, 10), VoxelMaterial::Stone);
    assert_eq!(world.get(10, 11, 10), VoxelMaterial::Steam);
    assert_eq!(count_material(&world, VoxelMaterial::Lava), 0);
    assert_eq!(count_material(&world, VoxelMaterial::Water), 0);
}

#[test]
fn at_most_one_reaction_fires_per_cell_per_pass() {
    let mut world = World::new();
    let mut tracker = ChangeTracker::new();
    let mut sim = VoxelSimulator::new();
    // two certain partners adjacent: exactly one of the two reacts
    world.set(VoxelMaterial::Lava, 10, 10, 10);
    world.set(VoxelMaterial::Water, 10, 11, 10);
    world.set(VoxelMaterial::SaltWater, 10, 9, 10);
    sim.check_reaction(&mut world, &mut tracker, 10, 10, 10);
    assert_eq!(world.get(10, 10, 10), VoxelMaterial::Stone);
    let water_left = count_material(&world, VoxelMaterial::Water);
    let salt_water_left = count_material(&world, VoxelMaterial::SaltWater);
    assert_eq!(count_material(&world, VoxelMaterial::Steam), 1);
    assert_eq!(water_left + salt_water_left, 1);
}

#[test]
fn gas_always_leaves_its_cell_in_open_air() {
    let mut world = World::new();
    let mut tracker = ChangeTracker::new();
    let mut sim = VoxelSimulator::new();
    world.set(VoxelMaterial::Steam, 5, 5, 5);
    let props = MaterialProperties::new(&VoxelMaterial::Steam);
    let mut mask = vec![false; WORLD_VOLUME];
    sim.simulate_gas(
        &mut world,
        &mut tracker,
        VoxelMaterial::Steam,
        props,
        5,
        5,
        5,
        &mut mask,
    );
    assert_eq!(world.get(5, 5, 5), VoxelMaterial::Air);
    assert_eq!(count_material(&world, VoxelMaterial::Steam), 1);
    let (x, y, z) = find_material(&world, VoxelMaterial::Steam).unwrap();
    assert!(x.abs_diff(5) <= 1 && y.abs_diff(5) <= 1 && z.abs_diff(5) <= 1);
}

#[test]
fn next_step_conserves_mass_of_a_sand_pile() {
    let mut world = World::new();
    let mut tracker = ChangeTracker::new();
    let mut sim = VoxelSimulator::new();
    for y in 5..10 {
        world.set(VoxelMaterial::Sand, 15, y, 15);
    }
    for _ in 0..30 {
        sim.next_step(&mut world, &mut tracker);
    }
    assert_eq!(count_material(&world, VoxelMaterial::Sand), 5);
    // everything has settled onto the bottom layer by now
    for i in 0..WORLD_VOLUME {
        if world.get_index(i) == VoxelMaterial::Sand {
            let (_, y, _) = World::index_to_coordinates(i);
            assert_eq!(y, 0);
        }
    }
}

#[test]
fn next_step_marks_moved_cells_in_the_tracker() {
    let mut world = World::new();
    let mut tracker = ChangeTracker::new();
    let mut sim = VoxelSimulator::new();
    tracker.drain();
    world.set(VoxelMaterial::Sand, 5, 10, 5);
    sim.next_step(&mut world, &mut tracker);
    let drained = tracker.drain();
    assert!(drained.contains(&World::coordiantes_to_index(5, 10, 5)));
    assert!(drained.contains(&World::coordiantes_to_index(5, 9, 5)));
}

#[test]
fn bottom_layer_liquid_spreads_laterally() {
    let mut world = World::new();
    let mut tracker = ChangeTracker::new();
    let mut sim = VoxelSimulator::new();
    world.set(VoxelMaterial::Water, 5, 0, 5);
    let props = MaterialProperties::new(&VoxelMaterial::Water);
    let mut mask = vec![false; WORLD_VOLUME];
    sim.simulate_liquid(
        &mut world,
        &mut tracker,
        VoxelMaterial::Water,
        props,
        5,
        0,
        5,
        &mut mask,
    );
    // water is fully active and a lateral cell is open, so it must move
    assert_eq!(world.get(5, 0, 5), VoxelMaterial::Air);
    assert_eq!(count_material(&world, VoxelMaterial::Water), 1);
    let (x, y, z) = find_material(&world, VoxelMaterial::Water).unwrap();
    assert_eq!(y, 0);
    assert!(x.abs_diff(5) <= 1 && z.abs_diff(5) <= 1);
}

#[test]
fn blocked_powder_slides_to_a_diagonal() {
    let mut world = World::new();
    let mut tracker = ChangeTracker::new();
    let mut sim = VoxelSimulator::new();
    world.set(VoxelMaterial::Sand, 5, 5, 5);
    world.set(VoxelMaterial::Sand, 5, 4, 5);
    let props = MaterialProperties::new(&VoxelMaterial::Sand);
    let mut mask = vec![false; WORLD_VOLUME];
    sim.simulate_powder(
        &mut world,
        &mut tracker,
        VoxelMaterial::Sand,
        props,
        5,
        5,
        5,
        &mut mask,
    );
    // straight down is a weight tie, so the grain takes a diagonal
    assert_eq!(world.get(5, 5, 5), VoxelMaterial::Air);
    assert_eq!(world.get(5, 4, 5), VoxelMaterial::Sand);
    assert_eq!(count_material(&world, VoxelMaterial::Sand), 2);
    for i in 0..WORLD_VOLUME {
        if world.get_index(i) == VoxelMaterial::Sand {
            let (x, y, z) = World::index_to_coordinates(i);
            assert!(x.abs_diff(5) <= 1 && z.abs_diff(5) <= 1 && y == 4);
        }
    }
}
