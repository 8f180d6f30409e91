use game_of_life::geometry::calculate_square_amount;
use game_of_life::line::{plot_line, Point};

fn pts(v: &[(i32, i32)]) -> Vec<Point> {
    v.iter().map(|&(x, y)| Point { x, y }).collect()
}

#[test]
fn partition_exact_fit() {
    let a = calculate_square_amount(20, 100, 60);
    assert_eq!(a.amount_x, 5);
    assert_eq!(a.spare_x, 0);
    assert_eq!(a.spare_x as f32 / 2.0, 0.0);
    assert_eq!(a.amount_y, 3);
    assert_eq!(a.spare_y, 0);
}

#[test]
fn partition_with_remainder_is_centred() {
    let a = calculate_square_amount(20, 105, 119);
    assert_eq!(a.amount_x, 5);
    assert_eq!(a.spare_x, 5);
    assert_eq!(a.spare_x as f32 / 2.0, 2.5);
    assert_eq!(a.amount_y, 5);
    assert_eq!(a.spare_y, 19);
}

#[test]
fn partition_cell_larger_than_viewport() {
    let a = calculate_square_amount(30, 20, 29);
    assert_eq!(a.amount_x, 0);
    assert_eq!(a.amount_y, 0);
    assert_eq!(a.spare_x, 20);
    assert_eq!(a.spare_y, 29);
}

#[test]
fn line_horizontal() {
    assert_eq!(plot_line(0, 0, 3, 0), pts(&[(0, 0), (1, 0), (2, 0), (3, 0)]));
}

#[test]
fn line_vertical() {
    assert_eq!(plot_line(0, 0, 0, 3), pts(&[(0, 0), (0, 1), (0, 2), (0, 3)]));
}

#[test]
fn line_diagonal() {
    assert_eq!(plot_line(0, 0, 3, 3), pts(&[(0, 0), (1, 1), (2, 2), (3, 3)]));
}

#[test]
fn line_single_point() {
    assert_eq!(plot_line(7, -2, 7, -2), pts(&[(7, -2)]));
}

#[test]
fn line_shallow_slope() {
    assert_eq!(
        plot_line(0, 0, 5, 2),
        pts(&[(0, 0), (1, 0), (2, 1), (3, 1), (4, 2), (5, 2)])
    );
}

#[test]
fn line_walked_from_the_smaller_end() {
    assert_eq!(
        plot_line(5, 2, 0, 0),
        pts(&[(0, 0), (1, 0), (2, 1), (3, 1), (4, 2), (5, 2)])
    );
    assert_eq!(plot_line(0, 3, 0, 0), pts(&[(0, 0), (0, 1), (0, 2), (0, 3)]));
}

#[test]
fn line_steep_descending_x() {
    assert_eq!(plot_line(2, 0, 0, 4), pts(&[(2, 0), (2, 1), (1, 2), (1, 3), (0, 4)]));
}

#[test]
fn line_extreme_coordinates() {
    let p = plot_line(i32::MIN, 0, i32::MIN + 2, 0);
    assert_eq!(p.len(), 3);
    assert_eq!(p[2], Point { x: i32::MIN + 2, y: 0 });
}
