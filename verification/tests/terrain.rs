use spooky_world::terrain::{merge_platform_indices, terrain_indices};

#[test]
fn small_grid_indices() {
    assert_eq!(
        terrain_indices(3),
        vec![0, 3, 1, 1, 3, 4, 1, 4, 2, 2, 4, 5, 3, 6, 4, 4, 6, 7, 4, 7, 5, 5, 7, 8]
    );
}

#[test]
fn two_by_two_grid_is_one_quad() {
    assert_eq!(terrain_indices(2), vec![0, 2, 1, 1, 2, 3]);
}

#[test]
fn degenerate_grids_have_no_triangles() {
    assert!(terrain_indices(0).is_empty());
    assert!(terrain_indices(1).is_empty());
}

#[test]
fn full_terrain_indices_are_in_range() {
    let side: u16 = 800;
    let indices = terrain_indices(side);
    assert_eq!(indices.len(), 6 * 799 * 799);
    assert!(indices.iter().all(|&i| i < 800 * 800));
    assert_eq!(*indices.last().unwrap(), 800 * 800 - 1);
}

#[test]
fn merged_indices_shift_each_copy() {
    let base = vec![0, 1, 2, 2, 1, 3];
    assert_eq!(
        merge_platform_indices(&base, 4, 3),
        vec![0, 1, 2, 2, 1, 3, 4, 5, 6, 6, 5, 7, 8, 9, 10, 10, 9, 11]
    );
}

#[test]
fn merged_indices_of_no_copies_is_empty() {
    assert!(merge_platform_indices(&vec![0, 1, 2], 3, 0).is_empty());
    assert!(merge_platform_indices(&vec![], 3, 5).is_empty());
}
