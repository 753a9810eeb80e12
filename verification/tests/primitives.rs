use voxel_garden::point::Point;
use voxel_garden::primitives::{bresenham, circle, line_cross, sphere, BresenhamPoints};

fn p(x: i32, y: i32, z: i32) -> Point {
    Point { x, y, z }
}

#[test]
fn point_shift_adds_coordinates() {
    assert_eq!(Point::new(1, 2, 3).shift(p(10, -20, 30)), p(11, -18, 33));
}

#[test]
fn circle_of_radius_one_is_the_midpoint() {
    assert_eq!(circle(p(4, 5, 6), 1), vec![p(4, 5, 6)]);
}

#[test]
fn circle_of_radius_two_is_a_three_by_three_block() {
    let expected = vec![
        p(9, 7, -4),
        p(9, 7, -3),
        p(9, 7, -2),
        p(10, 7, -4),
        p(10, 7, -3),
        p(10, 7, -2),
        p(11, 7, -4),
        p(11, 7, -3),
        p(11, 7, -2),
    ];
    assert_eq!(circle(p(10, 7, -3), 2), expected);
}

#[test]
fn circle_of_radius_four_has_45_cells() {
    let cells = circle(p(0, 0, 0), 4);
    assert_eq!(cells.len(), 45);
    assert!(cells.iter().all(|c| c.y == 0 && c.x * c.x + c.z * c.z < 16));
    assert_eq!(cells[0], p(-3, 0, -2));
    assert_eq!(cells[44], p(3, 0, 2));
}

#[test]
fn circle_without_radius_is_empty() {
    assert!(circle(p(1, 2, 3), 0).is_empty());
    assert!(circle(p(1, 2, 3), -5).is_empty());
}

#[test]
fn sphere_of_radius_one_is_the_midpoint() {
    assert_eq!(sphere(p(-1, 2, 8), 1), vec![p(-1, 2, 8)]);
}

#[test]
fn sphere_of_radius_two_is_a_cube_without_its_heart() {
    let cells = sphere(p(0, 0, 0), 2);
    assert_eq!(cells.len(), 26);
    assert!(!cells.contains(&p(0, 0, 0)));
    assert_eq!(cells[0], p(-1, -1, -1));
    assert_eq!(cells[1], p(-1, -1, 0));
    assert_eq!(cells[3], p(-1, 0, -1));
    assert_eq!(cells[25], p(1, 1, 1));
}

#[test]
fn sphere_keeps_exactly_the_cells_with_a_neighbour_outside() {
    let r = 5;
    let inside = |x: i32, y: i32, z: i32| x * x + y * y + z * z < r * r;
    let mut expected = Vec::new();
    for x in -r..=r {
        for y in -r..=r {
            for z in -r..=r {
                let buried = inside(x + 1, y, z)
                    && inside(x - 1, y, z)
                    && inside(x, y + 1, z)
                    && inside(x, y - 1, z)
                    && inside(x, y, z + 1)
                    && inside(x, y, z - 1);
                if inside(x, y, z) && !buried {
                    expected.push(p(x + 3, y - 2, z + 7));
                }
            }
        }
    }
    assert_eq!(sphere(p(3, -2, 7), r), expected);
}

#[test]
fn sphere_without_radius_is_empty() {
    assert!(sphere(p(0, 0, 0), 0).is_empty());
    assert!(sphere(p(0, 0, 0), -1).is_empty());
}

#[test]
fn bresenham_along_x_is_straight() {
    assert_eq!(
        bresenham(p(0, 0, 0), p(3, 0, 0)),
        vec![p(0, 0, 0), p(1, 0, 0), p(2, 0, 0), p(3, 0, 0)]
    );
}

#[test]
fn bresenham_rises_as_the_error_term_says() {
    assert_eq!(
        bresenham(p(0, 0, 0), p(4, 2, 0)),
        vec![p(0, 0, 0), p(1, 1, 0), p(2, 2, 0), p(3, 2, 0), p(4, 3, 0)]
    );
}

#[test]
fn bresenham_rises_along_z_too() {
    assert_eq!(
        bresenham(p(5, 5, 5), p(7, 5, 7)),
        vec![p(5, 5, 5), p(6, 5, 6), p(7, 5, 7)]
    );
}

#[test]
fn bresenham_backwards_is_empty() {
    assert!(bresenham(p(3, 0, 0), p(0, 0, 0)).is_empty());
}

#[test]
fn bresenham_points_hands_out_one_cell_a_call() {
    let mut walker = BresenhamPoints::new(p(0, 0, 0), p(1, 0, 0));
    assert_eq!(walker.next(), Some(p(0, 0, 0)));
    assert_eq!(walker.next(), Some(p(1, 0, 0)));
    assert_eq!(walker.next(), None);
    assert_eq!(walker.next(), None);
}

#[test]
fn line_cross_puts_seven_cells_at_each_cell() {
    let expected = vec![
        p(0, 0, 0),
        p(1, 0, 0),
        p(-1, 0, 0),
        p(0, 1, 0),
        p(0, -1, 0),
        p(0, 0, 1),
        p(0, 0, -1),
        p(1, 0, 0),
        p(2, 0, 0),
        p(0, 0, 0),
        p(1, 1, 0),
        p(1, -1, 0),
        p(1, 0, 1),
        p(1, 0, -1),
    ];
    assert_eq!(line_cross(p(0, 0, 0), p(1, 0, 0)), expected);
}
