use digit_canvas::coords::{get_board_pixel, map_to_cell, within_board, GridCell};

#[test]
fn pointer_just_inside_origin_cell_maps_to_zero_zero() {
    // Canvas origin (50, 50), cell size 18: (59, 59) lies in the first cell.
    assert_eq!(get_board_pixel(59, 59), Some((0, 0)));
}

#[test]
fn pointer_exactly_on_origin_is_outside() {
    assert_eq!(get_board_pixel(50, 50), None);
    assert!(!within_board(50, 50));
}

#[test]
fn pointer_on_far_edge_is_outside() {
    // 50 + 18 * 28 == 554: the far border itself is outside.
    assert_eq!(get_board_pixel(554, 554), None);
    assert!(!within_board(554, 554));
}

#[test]
fn pointer_one_past_origin_is_inside() {
    assert_eq!(get_board_pixel(51, 51), Some((0, 0)));
    assert!(within_board(51, 51));
}

#[test]
fn pointer_just_before_far_edge_maps_to_last_cell() {
    assert_eq!(get_board_pixel(553, 553), Some((27, 27)));
}

#[test]
fn inside_points_always_map_to_valid_cells() {
    for x in 51..554 {
        for y in [51, 300, 553] {
            let (cx, cy) = get_board_pixel(x, y).expect("strictly inside");
            assert!(cx < 28 && cy < 28);
        }
    }
}

#[test]
fn boundary_or_outside_points_map_to_none() {
    for v in [i32::MIN, -1, 0, 49, 50, 554, 555, 10_000, i32::MAX] {
        assert_eq!(get_board_pixel(v, 300), None);
        assert_eq!(get_board_pixel(300, v), None);
    }
}

#[test]
fn cell_boundary_attributes_to_positive_side() {
    // Local offset 18 is exactly one cell in: it belongs to the second cell.
    assert_eq!(get_board_pixel(68, 51), Some((1, 0)));
}

#[test]
fn general_mapper_honours_its_geometry() {
    assert_eq!(
        map_to_cell(10, 12, 0, 0, 5, 4, 4),
        Some(GridCell { x: 2, y: 2 })
    );
    assert_eq!(map_to_cell(0, 3, 0, 0, 5, 4, 4), None);
    assert_eq!(map_to_cell(20, 3, 0, 0, 5, 4, 4), None);
    assert_eq!(map_to_cell(19, 19, 0, 0, 5, 4, 4), Some(GridCell { x: 3, y: 3 }));
}
