use line_drawing::Bresenham;

fn between(v: isize, a: isize, b: isize) -> bool {
    (a <= v && v <= b) || (b <= v && v <= a)
}

fn octant(s: (isize, isize), e: (isize, isize)) -> u8 {
    let (mut dx, mut dy) = (e.0 - s.0, e.1 - s.1);
    let mut value = 0;
    if dy < 0 {
        dx = -dx;
        dy = -dy;
        value += 4;
    }
    if dx < 0 {
        let tmp = dx;
        dx = dy;
        dy = -tmp;
        value += 2;
    }
    if dx < dy {
        value += 1;
    }
    value
}

fn to(o: u8, p: (isize, isize)) -> (isize, isize) {
    match o {
        0 => (p.0, p.1),
        1 => (p.1, p.0),
        2 => (p.1, -p.0),
        3 => (-p.0, p.1),
        4 => (-p.0, -p.1),
        5 => (-p.1, -p.0),
        6 => (-p.1, p.0),
        _ => (p.0, -p.1),
    }
}

fn from(o: u8, p: (isize, isize)) -> (isize, isize) {
    match o {
        0 => (p.0, p.1),
        1 => (p.1, p.0),
        2 => (-p.1, p.0),
        3 => (-p.0, p.1),
        4 => (-p.0, -p.1),
        5 => (-p.1, -p.0),
        6 => (p.1, -p.0),
        _ => (p.0, -p.1),
    }
}

/// Column `k` of the line sits `floor(k * v / u)` rows up in the line's octant frame.
fn closed_form(s: (isize, isize), e: (isize, isize)) -> Vec<(isize, isize)> {
    let o = octant(s, e);
    let (so, eo) = (to(o, s), to(o, e));
    let (u, v) = (eo.0 - so.0, eo.1 - so.1);
    (0..=u)
        .map(|k| from(o, (so.0 + k, so.1 + if u == 0 { 0 } else { k * v / u })))
        .collect()
}

#[test]
fn bresenham_lines_follow_the_closed_form() {
    for x0 in -6isize..=6 {
        for y0 in -6isize..=6 {
            for x1 in -6isize..=6 {
                for y1 in -6isize..=6 {
                    let points: Vec<(isize, isize)> = Bresenham::new((x0, y0), (x1, y1)).collect();
                    assert_eq!(points, closed_form((x0, y0), (x1, y1)));
                    assert_eq!(points[0], (x0, y0));
                    assert_eq!(*points.last().unwrap(), (x1, y1));
                    for (x, y) in points {
                        assert!(between(x, x0, x1) && between(y, y0, y1));
                    }
                }
            }
        }
    }
}

#[test]
fn long_and_far_lines_follow_the_closed_form() {
    let far = isize::MAX / 2 - 40;
    let cases = [
        ((far, -far), (far - 37, -far + 11)),
        ((-far, far), (-far + 25, far - 60)),
        ((0, 0), (1000, 377)),
        ((-5, 3), (-905, 1203)),
    ];
    for (s, e) in cases {
        let points: Vec<(isize, isize)> = Bresenham::new(s, e).collect();
        assert_eq!(points, closed_form(s, e));
    }
}
