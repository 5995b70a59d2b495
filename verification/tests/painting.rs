use diffuser::error::Error;
use diffuser::matrix::Matrix2D;
use diffuser::paint::{lookup_cell, paint_line, paint_points, paint_stroke};
use diffuser::rect::Rect;

fn painted(m: &Matrix2D<u8>) -> Vec<usize> {
    m.iter().enumerate().filter(|(_, c)| **c != 0).map(|(i, _)| i).collect()
}

#[test]
fn points_outside_the_guard_are_skipped() {
    let rect = Rect::new(3usize, 6usize);
    let mut m = Matrix2D::new(3, 6, 0u8);
    paint_points(&mut m, &rect, &vec![(1, 1), (-1, 0), (2, -4), (0, 2)], 1);
    assert_eq!(painted(&m), vec![7, 12]);
}

#[test]
fn horizontal_line_paints_every_cell() {
    let rect = Rect::new(3usize, 6usize);
    let mut m = Matrix2D::new(3, 6, 0u8);
    paint_line(&mut m, &rect, (1, 1), (4, 1), 9);
    assert_eq!(painted(&m), vec![7, 8, 9, 10]);
}

#[test]
fn diagonal_line_paints_both_ends() {
    let rect = Rect::new(3usize, 6usize);
    let mut m = Matrix2D::new(3, 6, 0u8);
    paint_line(&mut m, &rect, (5, 2), (0, 0), 1);
    let cells = painted(&m);
    assert!(cells.contains(&17));
    assert!(cells.contains(&0));
    assert_eq!(cells.len(), 6);
}

#[test]
fn line_from_outside_skips_negative_points() {
    let rect = Rect::new(3usize, 6usize);
    let mut m = Matrix2D::new(3, 6, 0u8);
    paint_line(&mut m, &rect, (-2, 0), (2, 0), 1);
    assert_eq!(painted(&m), vec![0, 1, 2]);
}

#[test]
fn stroke_without_previous_paints_one_cell() {
    let rect = Rect::new(3usize, 6usize);
    let mut m = Matrix2D::new(3, 6, 0u8);
    assert!(paint_stroke(&mut m, &rect, None, 2, 1, 5));
    assert_eq!(painted(&m), vec![8]);
    assert_eq!(m.get(2, 1), Some(&5));
}

#[test]
fn stroke_with_previous_paints_a_line() {
    let rect = Rect::new(3usize, 6usize);
    let mut m = Matrix2D::new(3, 6, 0u8);
    assert!(paint_stroke(&mut m, &rect, Some((0, 2)), 0, 0, 5));
    assert_eq!(painted(&m), vec![0, 6, 12]);
}

#[test]
fn stroke_outside_changes_nothing() {
    let rect = Rect::new(3usize, 6usize);
    let mut m = Matrix2D::new(3, 6, 0u8);
    assert!(!paint_stroke(&mut m, &rect, Some((0, 0)), 6, 0, 5));
    assert!(!paint_stroke(&mut m, &rect, None, 0, 3, 5));
    assert!(painted(&m).is_empty());
}

#[test]
fn lookup_finds_cells_and_reports_misses() {
    let m = Matrix2D::new(2, 2, 7u8);
    assert_eq!(lookup_cell(&m, "base_matrix", 3).unwrap(), &7);
    match lookup_cell(&m, "base_matrix", 4) {
        Err(Error::InvalidIndex { list_name, index, len }) => {
            assert_eq!(list_name, "base_matrix");
            assert_eq!(index, 4);
            assert_eq!(len, 4);
        }
        Ok(_) => panic!("index 4 is past the last cell"),
    }
}

#[test]
fn stroke_far_outside_with_previous_changes_nothing() {
    let rect = Rect::new(3usize, 6usize);
    let mut m = Matrix2D::new(3, 6, 0u8);
    assert!(!paint_stroke(&mut m, &rect, Some((0, 0)), usize::MAX, usize::MAX, 5));
    assert!(painted(&m).is_empty());
}
