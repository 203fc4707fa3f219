use compgeo::algorithms::{ccw, Direction};
use compgeo::algorithms::graham_scan::helpers::{next_to_top, top};
use compgeo::data::cone::Cone;
use compgeo::data::polar_direction::PolarDirection;
use compgeo::data::vec2::{vec2, Vec2};
use compgeo::data::pos2::pos2;

#[test]
fn test_ccw() {
    //    v0
    //    /\
    //   /  \
    //  /    \
    // /  <-  \
    // v2     v1
    let v0 = vec2(-9, -9);
    let v1 = vec2(-2, -2);
    let v2 = vec2(-2, -7);
    let ans = ccw(&v0, &v1, &v2);
    assert_eq!(ans, Direction::Clockwise);

    //    v0
    //    /\
    //   /  \
    //  /    \
    // /  ->  \
    // v1     v2
    let v0 = vec2(-9, -9);
    let v1 = vec2(-2, -7);
    let v2 = vec2(-2, -2);
    let ans = ccw(&v0, &v1, &v2);
    assert_eq!(ans, Direction::CounterClockwise);
}

#[test]
fn test_next_to_top() {
    assert_eq!(next_to_top(&vec![1, 2, 3]), 2);
}

#[test]
fn test_top() {
    assert_eq!(top(&vec![1, 2, 3]), 3);
}

#[test]
fn helpers_test_next_to_top() {
    assert_eq!(next_to_top(&vec![("A", 1), ("B", 2), ("C", 3)]), ("B", 2));
}

#[test]
fn helpers_test_top() {
    assert_eq!(top(&vec![("A", 1), ("B", 2), ("C", 3)]), ("C", 3));
}

#[test]
fn test_foo() {
    let tests = vec![
        (
            vec2(-100, -100),
            vec2(0, 0),
            vec2(0, -100),
            PolarDirection::CW,
        ),
        (
            vec2(100, 0),
            vec2(0, 0),
            vec2(-100, 100),
            PolarDirection::CW,
        ),
    ];

    for (a, origin, b, expected) in tests {
        assert_eq!(Cone { a, b, origin }.angle_direction(), expected);
        assert_eq!(Cone { a: b, b: a, origin }.angle_direction(), expected.neg());
    }
}

#[test]
fn test_angle_direction() {
    // test colinear
    let ans = Cone {
        a: vec2(100, 0),
        b: vec2(87, 0),
        origin: vec2(0, 0),
    }
    .angle_direction();

    assert_eq!(ans, PolarDirection::Collinear);

    let ans = Cone {
        a: vec2(0, 100),
        b: vec2(0, 87),
        origin: vec2(0, 0),
    }
    .angle_direction();

    assert_eq!(ans, PolarDirection::Collinear);

    //    p0
    //    /\
    //   /  \
    //  /    \
    // /  <-  \
    // p2     p1
    let ans = Cone {
        a: vec2(-20, -20),
        b: vec2(-20, -70),
        origin: vec2(-90, -90),
    }
    .angle_direction();
    assert_eq!(ans, PolarDirection::CCW);

    //    p0
    //    /\
    //   /  \
    //  /    \
    // /  ->  \
    // p1     p2
    let ans = Cone {
        a: vec2(-20, -70),
        b: vec2(-20, -20),
        origin: vec2(-90, -90),
    }
    .angle_direction();
    assert_eq!(ans, PolarDirection::CW);

    let p = vec2(0, -50);
    let a = vec2(50, -20);
    let b = vec2(20, 40);
    let c = vec2(0, 0);
    let d = vec2(-50, 30);
    let pab = Cone { a: p, b, origin: a }.angle_direction();
    assert_eq!(pab, PolarDirection::CCW);
    let abc = Cone { a, b: c, origin: b }.angle_direction();
    assert_eq!(abc, PolarDirection::CCW);
    let bcd = Cone {
        a: b,
        b: d,
        origin: c,
    }
    .angle_direction();
    assert_eq!(bcd, PolarDirection::CW);

    //      p2
    //      /
    //     /
    // p1 /
    //   |
    //   |
    //   |
    //   p0
    let ans = Cone {
        a: vec2(0, -100),
        b: vec2(50, 100),
        origin: vec2(0, 0),
    }
    .angle_direction();
    assert_eq!(ans, PolarDirection::CW);

    //   p1
    //   |\
    //   | \
    //   |  \
    //   p0  p2
    let ans = Cone {
        a: vec2(0, -100),
        b: vec2(1, -100),
        origin: vec2(0, 0),
    }
    .angle_direction();
    assert_eq!(ans, PolarDirection::CW);

    // p0 ____ p1
    //       /
    //      /
    //     /
    //    /
    //  p2
    let ans = Cone {
        origin: vec2(100, 0),
        b: vec2(0, -100),
        a: vec2(0, 0),
    }
    .angle_direction();
    assert_eq!(ans, PolarDirection::CW);

    // p2 |
    //    |
    //    |
    // p1 |
    //    |
    //    |
    // p0 |
    let ans = Cone {
        a: vec2(0, -100),
        b: vec2(0, 100),
        origin: vec2(0, 0),
    }
    .angle_direction();
    assert_eq!(ans, PolarDirection::Collinear);
}

#[test]
fn direction_to_ordering_maps_each_variant() {
    assert_eq!(Direction::Clockwise.to_ordering(), std::cmp::Ordering::Greater);
    assert_eq!(
        Direction::CounterClockwise.to_ordering(),
        std::cmp::Ordering::Less
    );
    assert_eq!(Direction::Collinear.to_ordering(), std::cmp::Ordering::Equal);
}

#[test]
fn direction_neg_swaps_turns() {
    assert_eq!(Direction::Clockwise.neg(), Direction::CounterClockwise);
    assert_eq!(Direction::CounterClockwise.neg(), Direction::Clockwise);
    assert_eq!(Direction::Collinear.neg(), Direction::Collinear);
    assert_eq!(PolarDirection::CW.neg(), PolarDirection::CCW);
    assert_eq!(PolarDirection::CCW.neg(), PolarDirection::CW);
    assert_eq!(PolarDirection::Collinear.neg(), PolarDirection::Collinear);
}

#[test]
fn swapping_rays_flips_ccw_answer() {
    // Orientation antisymmetry on a concrete left turn.
    let v1 = vec2(0, 0);
    let v2 = vec2(4, 1);
    let v3 = vec2(1, 5);
    assert_eq!(ccw(&v1, &v2, &v3), Direction::CounterClockwise);
    assert_eq!(ccw(&v1, &v3, &v2), ccw(&v1, &v2, &v3).neg());
    // A collinear triple stays collinear under the swap.
    let c1 = vec2(0, 0);
    let c2 = vec2(2, 2);
    let c3 = vec2(5, 5);
    assert_eq!(ccw(&c1, &c2, &c3), Direction::Collinear);
    assert_eq!(ccw(&c1, &c3, &c2), Direction::Collinear);
}

#[test]
fn vec2_products_and_transforms() {
    let a = vec2(3, 4);
    let b = vec2(5, 6);
    assert_eq!(a.cross(b), 3 * 6 - 4 * 5);
    assert_eq!(a.dot(b), 3 * 5 + 4 * 6);
    assert_eq!(a.perpendicular(), Vec2 { x: -4, y: 3 });
    assert_eq!(a.translate(b), Vec2 { x: -2, y: -2 });
    assert_eq!(a.sub(b), Vec2 { x: -2, y: -2 });
}

#[test]
fn pos2_sub_is_componentwise() {
    let p = pos2(7, 9);
    let q = pos2(2, 11);
    let d = p.sub(q);
    assert_eq!(d.x, 5);
    assert_eq!(d.y, -2);
}
