use sand3d::material::{MaterialProperties, MaterialReactions, MaterialType, VoxelMaterial};
use sand3d::model::{World, WORLD_SIZE, WORLD_VOLUME};

#[test]
fn test() {
    for x in 0..WORLD_SIZE {
        for y in 0..WORLD_SIZE {
            for z in 0..WORLD_SIZE {
                let index = World::coordiantes_to_index(x, y, z);
                let (x1, y1, z1) = World::index_to_coordinates(index);
                assert_eq!(x, x1);
                assert_eq!(y, y1);
                assert_eq!(z, z1);
            }
        }
    }
}

#[test]
fn index_layout_is_x_then_z_then_y() {
    assert_eq!(World::coordiantes_to_index(0, 0, 0), 0);
    assert_eq!(World::coordiantes_to_index(1, 0, 0), 1);
    assert_eq!(World::coordiantes_to_index(0, 0, 1), WORLD_SIZE);
    assert_eq!(World::coordiantes_to_index(0, 1, 0), WORLD_SIZE * WORLD_SIZE);
    assert_eq!(
        World::coordiantes_to_index(WORLD_SIZE - 1, WORLD_SIZE - 1, WORLD_SIZE - 1),
        WORLD_VOLUME - 1
    );
}

#[test]
fn new_world_is_air_filled() {
    let world = World::new();
    for i in 0..WORLD_VOLUME {
        assert!(matches!(world.get_index(i), VoxelMaterial::Air));
    }
}

#[test]
fn set_then_get_round_trips() {
    let mut world = World::new();
    world.set(VoxelMaterial::Sand, 3, 4, 5);
    assert!(matches!(world.get(3, 4, 5), VoxelMaterial::Sand));
    assert!(matches!(world.get(5, 4, 3), VoxelMaterial::Air));
    world.set(VoxelMaterial::Water, 3, 4, 5);
    assert!(matches!(world.get(3, 4, 5), VoxelMaterial::Water));
}

#[test]
fn get_neighbours_reports_all_six_faces() {
    let mut world = World::new();
    world.set(VoxelMaterial::Metal, 9, 10, 11);
    world.set(VoxelMaterial::Metal, 11, 10, 11);
    world.set(VoxelMaterial::Metal, 10, 9, 11);
    world.set(VoxelMaterial::Metal, 10, 11, 11);
    world.set(VoxelMaterial::Metal, 10, 10, 10);
    world.set(VoxelMaterial::Metal, 10, 10, 12);
    let n = world.get_neighbours(10, 10, 11);
    assert!(n.left);
    assert!(n.right);
    assert!(n.bottom);
    assert!(n.top);
    assert!(n.back);
    assert!(n.front);
    assert_eq!(n.get_neighbours_count(), 6);
}

#[test]
fn get_neighbours_at_low_edge_sees_cell_zero() {
    let mut world = World::new();
    world.set(VoxelMaterial::Metal, 0, 5, 5);
    world.set(VoxelMaterial::Metal, 5, 0, 5);
    world.set(VoxelMaterial::Metal, 5, 5, 0);
    let n = world.get_neighbours(1, 5, 5);
    assert!(n.left);
    let n = world.get_neighbours(5, 1, 5);
    assert!(n.bottom);
    let n = world.get_neighbours(5, 5, 1);
    assert!(n.back);
}

#[test]
fn get_neighbours_at_boundary_treats_outside_as_absent() {
    let world = World::new();
    let n = world.get_neighbours(0, 0, 0);
    assert!(!n.left);
    assert!(!n.bottom);
    assert!(!n.back);
    let n = world.get_neighbours(WORLD_SIZE - 1, WORLD_SIZE - 1, WORLD_SIZE - 1);
    assert!(!n.right);
    assert!(!n.top);
    assert!(!n.front);
}

#[test]
fn neighbours_count_sums_flags() {
    let n = sand3d::model::VoxelNeighbours {
        top: true,
        bottom: false,
        left: true,
        right: false,
        front: true,
        back: false,
    };
    assert_eq!(n.get_neighbours_count(), 3);
}

#[test]
fn material_ids_are_distinct() {
    let all = [
        VoxelMaterial::Air,
        VoxelMaterial::Sand,
        VoxelMaterial::Water,
        VoxelMaterial::Metal,
        VoxelMaterial::Salt,
        VoxelMaterial::SaltWater,
        VoxelMaterial::Steam,
        VoxelMaterial::Stone,
        VoxelMaterial::Lava,
        VoxelMaterial::Wood,
        VoxelMaterial::Fire,
        VoxelMaterial::Oil,
        VoxelMaterial::Ice,
    ];
    for (i, a) in all.iter().enumerate() {
        assert_eq!(a.get_id(), i as u32);
    }
}

#[test]
fn properties_encode_relative_densities() {
    let sand = MaterialProperties::new(&VoxelMaterial::Sand);
    let water = MaterialProperties::new(&VoxelMaterial::Water);
    let oil = MaterialProperties::new(&VoxelMaterial::Oil);
    let metal = MaterialProperties::new(&VoxelMaterial::Metal);
    let lava = MaterialProperties::new(&VoxelMaterial::Lava);
    let steam = MaterialProperties::new(&VoxelMaterial::Steam);
    assert!(matches!(sand.material_type, MaterialType::POWDER));
    assert!(matches!(water.material_type, MaterialType::LIQUID));
    assert!(matches!(metal.material_type, MaterialType::SOLID));
    assert!(matches!(steam.material_type, MaterialType::GAS));
    assert!(sand.weight > water.weight);
    assert!(water.weight > oil.weight);
    assert!(metal.weight > lava.weight);
    assert!(lava.weight > water.weight);
    assert_eq!(sand.activity, 1000);
    assert_eq!(metal.activity, 0);
}

#[test]
fn reaction_tables_match_the_registry() {
    let none = MaterialReactions::new(&VoxelMaterial::Sand);
    assert!(none.is_empty());
    let air = MaterialReactions::new(&VoxelMaterial::Air);
    assert!(air.is_empty());
    let lava = MaterialReactions::new(&VoxelMaterial::Lava);
    assert_eq!(lava.len(), 5);
    assert_eq!(lava[0].other_material, VoxelMaterial::Water);
    assert_eq!(lava[0].first_product, VoxelMaterial::Stone);
    assert_eq!(lava[0].second_product, VoxelMaterial::Steam);
    assert_eq!(lava[0].probability, 1000);
    let fire = MaterialReactions::new(&VoxelMaterial::Fire);
    assert_eq!(fire.len(), 6);
    let salt = MaterialReactions::new(&VoxelMaterial::Salt);
    assert_eq!(salt.len(), 1);
    assert_eq!(salt[0].other_material, VoxelMaterial::Water);
    assert_eq!(salt[0].second_product, VoxelMaterial::SaltWater);
    assert_eq!(salt[0].probability, 100);
}
