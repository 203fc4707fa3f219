use compgeo::algorithms::grahams_scan;
use compgeo::algorithms::graham_scan::{graham_scan, graham_sort};
use compgeo::data::pos2::{pos2, Pos2};
use compgeo::data::vec2::vec2;

#[test]
fn test_graham_sort() {
    let bottom_left = pos2(-1, -1);
    let bottom_right = pos2(1, -1);
    let top_middle = pos2(0, 1);
    let center = pos2(0, 0);
    let mut points = vec![center, bottom_right, top_middle];
    graham_sort(bottom_left, &mut points);
    assert_eq!(points, vec![bottom_right, center, top_middle]);

    let p0 = pos2(-411190270, -319596050);
    let p1 = pos2(-33056736, -150597100);
    let p2 = pos2(226981520, 452218900);
    let p3 = pos2(-34094572, 353104350);
    let p4 = pos2(-379735600, 353414420);
    let mut points = vec![p4, p2, p1, p3];
    graham_sort(p0, &mut points);
    assert_eq!(points, vec![p1, p2, p3, p4]);

    let p0 = pos2(200000000, -300000000);
    let p1 = pos2(-452896950, -99212766);
    let p2 = pos2(-187251930, -58339000);
    let p3 = pos2(-268002870, 275996920);
    let p4 = pos2(32164930, 385228280);
    let mut points = vec![p3, p1, p4, p2];
    graham_sort(p0, &mut points);
    assert_eq!(points, vec![p4, p3, p2, p1]);
}

#[test]
fn test_graham_scan() {
    let bottom_left = pos2(-1, -1);
    let bottom_right = pos2(1, -1);
    let top_middle = pos2(0, 1);
    let points = vec![
        bottom_left,
        bottom_right,
        top_middle,
        pos2(0, 0), // center
    ];
    assert_eq!(
        graham_scan(&points),
        vec![bottom_left, bottom_right, top_middle]
    );

    let p0 = pos2(-411190270, -319596050);
    let p1 = pos2(-33056736, -150597100);
    let p2 = pos2(226981520, 452218900);
    let p3 = pos2(-34094572, 353104350);
    let p4 = pos2(-379735600, 353414420);
    let points = vec![p3, p1, p0, p4, p2];
    assert_eq!(graham_scan(&points), vec![p0, p1, p2, p4]);

    let p0 = pos2(200000000, -300000000);
    let p1 = pos2(-452896950, -99212766);
    let p2 = pos2(-187251930, -58339000);
    let p3 = pos2(-268002870, 275996920);
    let p4 = pos2(32164930, 385228280);
    let points = vec![p3, p1, p0, p4, p2];
    assert_eq!(graham_scan(&points), vec![p0, p4, p3, p1]);
}

#[test]
fn hull_of_empty_input_is_empty() {
    let points: Vec<Pos2> = vec![];
    assert_eq!(graham_scan(&points), vec![]);
}

#[test]
fn hull_is_subset_without_duplicates_anchor_first() {
    let points = vec![
        pos2(3, 7),
        pos2(-5, 2),
        pos2(0, -4),
        pos2(6, 1),
        pos2(-2, -4),
        pos2(1, 1),
        pos2(-3, 5),
        pos2(0, -4), // a duplicate of an input point
    ];
    let hull = graham_scan(&points);
    // Every hull point is an input point.
    for p in &hull {
        assert!(points.contains(p));
    }
    // No point appears twice on the hull.
    for i in 0..hull.len() {
        for j in (i + 1)..hull.len() {
            assert_ne!(hull[i], hull[j]);
        }
    }
    // The anchor (least y, ties least x) comes first.
    let mut anchor = points[0];
    for p in &points {
        if p.y < anchor.y || (p.y == anchor.y && p.x < anchor.x) {
            anchor = *p;
        }
    }
    assert_eq!(hull[0], anchor);
}

#[test]
fn collinear_points_leave_only_extremes() {
    // Points on one line: only the two endpoints survive.
    let points = vec![pos2(1, 1), pos2(3, 3), pos2(0, 0), pos2(2, 2)];
    assert_eq!(graham_scan(&points), vec![pos2(0, 0), pos2(3, 3)]);

    // A point in the middle of a hull edge is dropped.
    let points = vec![pos2(0, 0), pos2(4, 0), pos2(2, 0), pos2(0, 4)];
    assert_eq!(
        graham_scan(&points),
        vec![pos2(0, 0), pos2(4, 0), pos2(0, 4)]
    );
}

#[test]
fn hull_of_hull_is_itself() {
    let points = vec![
        pos2(3, 7),
        pos2(-5, 2),
        pos2(0, -4),
        pos2(6, 1),
        pos2(-2, -4),
        pos2(1, 1),
        pos2(-3, 5),
    ];
    let hull = graham_scan(&points);
    assert_eq!(graham_scan(&hull), hull);
}

#[test]
fn grahams_scan_matches_the_vector_form() {
    let bottom_left = vec2(-1, -1);
    let bottom_right = vec2(1, -1);
    let top_middle = vec2(0, 1);
    let points = vec![bottom_left, bottom_right, top_middle, vec2(0, 0)];
    assert_eq!(
        grahams_scan(&points),
        vec![bottom_left, bottom_right, top_middle]
    );
    let empty = grahams_scan(&[]);
    assert_eq!(empty, vec![]);
}
