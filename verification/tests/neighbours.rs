use diffuser::matrix::{
    calculate_index_from_xy, index_to_the_east, index_to_the_north, index_to_the_northeast,
    index_to_the_northwest, index_to_the_south, index_to_the_southeast, index_to_the_southwest,
    index_to_the_west,
};

/*
  | 0  1  2  3  4  5
__|_________________
0 | 0  1  2  3  4  5
1 | 6  7  8  9 10 11
2 |12 13 14 15 16 17
*/

#[test]
fn test_calculate_index_from_xy() {
    let (width, height) = (6, 3);
    let mut expected = 7;
    let mut actual = calculate_index_from_xy(1, 1, width, height);
    assert_eq!(expected, actual);

    expected = 17;
    actual = calculate_index_from_xy(5, 2, width, height);
    assert_eq!(expected, actual);

    expected = 12;
    actual = calculate_index_from_xy(0, 2, width, height);
    assert_eq!(expected, actual);
}

#[test]
fn test_index_to_the_northwest() {
    let (height, width) = (3, 6);
    let expected = 7;
    let actual = index_to_the_northwest(14, height, width);
    assert_eq!(expected, actual);
}

#[test]
fn test_index_to_the_north() {
    let (height, width) = (3, 6);
    let expected = 3;
    let actual = index_to_the_north(9, height, width);
    assert_eq!(expected, actual);
}

#[test]
fn test_index_to_the_northeast() {
    let (height, width) = (3, 6);
    let expected = 3;
    let actual = index_to_the_northeast(8, height, width);
    assert_eq!(expected, actual);
}

#[test]
fn test_index_to_the_west() {
    let (height, width) = (3, 6);
    let expected = 8;
    let actual = index_to_the_west(9, height, width);
    assert_eq!(expected, actual);
}

#[test]
fn test_index_to_the_east() {
    let (height, width) = (3, 6);
    let expected = 10;
    let actual = index_to_the_east(9, height, width);
    assert_eq!(expected, actual);
}

#[test]
fn test_index_to_the_southeast() {
    let (height, width) = (3, 6);
    let expected = 16;
    let actual = index_to_the_southeast(9, height, width);
    assert_eq!(expected, actual);
}

#[test]
fn test_index_to_the_south() {
    let (height, width) = (3, 6);
    let expected = 15;
    let actual = index_to_the_south(9, height, width);
    assert_eq!(expected, actual);
}

#[test]
fn test_index_to_the_southwest() {
    let (height, width) = (3, 6);
    let expected = 14;
    let actual = index_to_the_southwest(9, height, width);
    assert_eq!(expected, actual);
}

#[test]
fn test_no_index_to_the_northwest() {
    let (height, width) = (3, 6);
    let expected = -1;
    let actual = index_to_the_northwest(3, height, width);
    assert_eq!(expected, actual);
}

#[test]
fn test_no_index_to_the_north() {
    let (height, width) = (3, 6);
    let expected = -1;
    let actual = index_to_the_north(3, height, width);
    assert_eq!(expected, actual);
}

#[test]
fn test_no_index_to_the_northeast() {
    let (height, width) = (3, 6);
    let expected = -1;
    let actual = index_to_the_northeast(3, height, width);
    assert_eq!(expected, actual);
}

#[test]
fn test_no_index_to_the_west() {
    let (height, width) = (3, 6);
    let expected = -1;
    let actual = index_to_the_west(6, height, width);
    assert_eq!(expected, actual);
}

#[test]
fn test_no_index_to_the_east() {
    let (height, width) = (3, 6);
    let expected = -1;
    let actual = index_to_the_east(17, height, width);
    assert_eq!(expected, actual);
}

#[test]
fn test_no_index_to_the_southeast() {
    let (height, width) = (3, 6);
    let expected = -1;
    let actual = index_to_the_southeast(11, height, width);
    assert_eq!(expected, actual);
}

#[test]
fn test_no_index_to_the_south() {
    let (height, width) = (3, 6);
    let expected = -1;
    let actual = index_to_the_south(12, height, width);
    assert_eq!(expected, actual);
}

#[test]
fn test_no_index_to_the_southwest() {
    let (height, width) = (3, 6);
    let expected = -1;
    let actual = index_to_the_southwest(6, height, width);
    assert_eq!(expected, actual);
}
