use voxel_garden::flat::{generate_flat_terrain, generate_terrain, Voxel};

#[test]
fn flat_terrain_has_one_voxel_per_column() {
    let voxels = generate_flat_terrain(3, 4, 2);
    assert_eq!(voxels.len(), 8);
    assert_eq!(voxels[0], Voxel { x: 3, y: 3, z: 3 });
    assert_eq!(voxels[3], Voxel { x: 6, y: 3, z: 3 });
    assert_eq!(voxels[4], Voxel { x: 3, y: 3, z: 4 });
    assert_eq!(voxels[7], Voxel { x: 6, y: 3, z: 4 });
}

#[test]
fn flat_terrain_of_no_extent_is_empty() {
    assert!(generate_flat_terrain(0, 0, 5).is_empty());
    assert!(generate_flat_terrain(0, 5, 0).is_empty());
    assert!(generate_flat_terrain(0, -1, 5).is_empty());
}

fn v(x: i64, y: i64, z: i64) -> Voxel {
    Voxel::new(x, y, z)
}

#[test]
fn stacked_terrain_adds_a_cell_for_each_level_that_a_stack_reaches() {
    let readings = vec![1_000_000, -1_000_000];
    let voxels = generate_terrain(0, 0, 2, 3, 1, 2, &readings);
    assert_eq!(voxels, vec![v(0, 2, 0), v(1, 0, 0), v(0, 2, 0), v(0, 2, 0)]);
}

#[test]
fn stacked_terrain_counts_columns_from_its_position_and_moves_by_it() {
    let readings = vec![0, 0];
    let voxels = generate_terrain(1, 2, 3, 1, 3, 10, &readings);
    assert_eq!(voxels, vec![v(2, 5, 4), v(3, 5, 4)]);
}

#[test]
fn stacked_terrain_walks_rows_then_levels_then_columns() {
    let readings = vec![1_000_000, 0, -1_000_000, 1_000_000];
    let voxels = generate_terrain(0, 0, 2, 2, 2, 1, &readings);
    assert_eq!(
        voxels,
        vec![v(0, 1, 0), v(1, 0, 0), v(0, 1, 0), v(0, 0, 1), v(1, 1, 1), v(1, 1, 1)]
    );
}

#[test]
fn stacked_terrain_below_zero_is_empty() {
    assert!(generate_terrain(0, 0, 1, 5, 1, -4, &vec![0]).is_empty());
    assert_eq!(generate_terrain(0, 0, 1, 1, 1, -4, &vec![-1_000_000]), vec![v(0, 0, 0)]);
}

#[test]
fn stacked_terrain_without_extent_is_empty() {
    assert!(generate_terrain(0, 0, 0, 5, 5, 10, &Vec::new()).is_empty());
    assert!(generate_terrain(0, 0, 5, 5, 0, 10, &Vec::new()).is_empty());
    assert!(generate_terrain(3, 0, 2, 5, 5, 10, &Vec::new()).is_empty());
    assert!(generate_terrain(0, 0, 1, 0, 1, 10, &vec![0]).is_empty());
}
