use compgeo::data::simplex::line_segment::LineSegment;
use compgeo::data::simplex::point::Point;
use compgeo::data::simplex::simplex::Simplex;
use compgeo::data::simplex::tetrahedron::Tetrahedron;
use compgeo::data::simplex::triangle::Triangle;

fn ratio_value(r: compgeo::data::ratio::Ratio) -> f64 {
    r.num as f64 / r.den as f64
}

#[test]
fn line_segment_test_volume() {
    let a = Point { x: 2, y: 1 };
    let b = Point { x: 8, y: 4 };
    let line_ab = LineSegment { vertices: [a, b] };
    let line_ba = LineSegment { vertices: [b, a] };

    assert!(((line_ab.volume_sq() as f64).sqrt() - 6.7082039325).abs() <= f32::EPSILON as f64);
    assert!(((line_ba.volume_sq() as f64).sqrt() - 6.7082039325).abs() <= f32::EPSILON as f64);
}

#[test]
fn triangle_test_volume() {
    let a = Point { x: 1, y: 3 };
    let b = Point { x: 3, y: 5 };
    let c = Point { x: 7, y: 2 };
    let t = Triangle {
        vertices: [a, b, c],
    };

    let expected = 7.0;
    let actual = ratio_value(t.volume());

    assert!(
        (actual - expected).abs() <= (f32::EPSILON * 10.0) as f64,
        "Expected {expected} got {actual}"
    );
}

#[test]
fn triangle_circumscribe_right_triangle() {
    let t = Triangle {
        vertices: [
            Point { x: 0, y: 0 },
            Point { x: 4, y: 0 },
            Point { x: 0, y: 3 },
        ],
    };
    let s = t.circumscribe().unwrap();
    assert_eq!(ratio_value(s.center.x), 2.0);
    assert_eq!(ratio_value(s.center.y), 1.5);
    // The radius is 2.5, so its square is 6.25.
    assert_eq!(ratio_value(s.radius_sq), 6.25);
    // The accessors return the stored fields.
    assert_eq!(s.center(), s.center);
    assert_eq!(s.radius_sq(), s.radius_sq);
}

#[test]
fn triangle_circumscribe_collinear_is_absent() {
    let t = Triangle {
        vertices: [
            Point { x: 0, y: 0 },
            Point { x: 2, y: 2 },
            Point { x: 5, y: 5 },
        ],
    };
    assert!(t.circumscribe().is_none());
}

#[test]
fn triangle_circumscribe_equidistant_from_vertices() {
    let t = Triangle {
        vertices: [
            Point { x: -3, y: 1 },
            Point { x: 5, y: 2 },
            Point { x: 1, y: 7 },
        ],
    };
    let s = t.circumscribe().unwrap();
    let cx = ratio_value(s.center.x);
    let cy = ratio_value(s.center.y);
    for v in t.vertices() {
        let dist_sq = (cx - v.x as f64) * (cx - v.x as f64) + (cy - v.y as f64) * (cy - v.y as f64);
        assert!((dist_sq - ratio_value(s.radius_sq)).abs() < 1e-9);
    }
}

#[test]
fn intersection_point_of_parallel_segments_is_absent() {
    let s1 = LineSegment {
        vertices: [Point { x: 0, y: 0 }, Point { x: 1, y: 1 }],
    };
    let s2 = LineSegment {
        vertices: [Point { x: 0, y: 1 }, Point { x: 1, y: 2 }],
    };
    assert!(s1.intersection_point(&s2).is_none());
    // Coincident lines count as parallel too.
    let s3 = LineSegment {
        vertices: [Point { x: 2, y: 2 }, Point { x: 5, y: 5 }],
    };
    assert!(s1.intersection_point(&s3).is_none());
}

#[test]
fn intersection_point_of_crossing_segments() {
    let s1 = LineSegment {
        vertices: [Point { x: 0, y: 0 }, Point { x: 4, y: 4 }],
    };
    let s2 = LineSegment {
        vertices: [Point { x: 0, y: 4 }, Point { x: 4, y: 0 }],
    };
    let p = s1.intersection_point(&s2).unwrap();
    assert_eq!(ratio_value(p.x), 2.0);
    assert_eq!(ratio_value(p.y), 2.0);
}

#[test]
fn line_segment_faces_are_its_endpoints() {
    let a = Point { x: 2, y: 1 };
    let b = Point { x: 8, y: 4 };
    let s = LineSegment { vertices: [a, b] };
    assert_eq!(LineSegment::dimension(), 1);
    assert_eq!(s.faces(), vec![a, b]);
    assert_eq!(s.vertices(), vec![a, b]);
    assert!(s.circumscribe().is_none());
}

#[test]
fn triangle_faces_are_its_edges() {
    let a = Point { x: 1, y: 3 };
    let b = Point { x: 3, y: 5 };
    let c = Point { x: 7, y: 2 };
    let t = Triangle {
        vertices: [a, b, c],
    };
    assert_eq!(Triangle::dimension(), 2);
    assert_eq!(
        t.faces(),
        vec![
            LineSegment { vertices: [a, b] },
            LineSegment { vertices: [b, c] },
            LineSegment { vertices: [a, c] },
        ]
    );
    assert_eq!(t.vertices(), vec![a, b, c]);
}

#[test]
fn tetrahedron_faces_are_its_four_triangles() {
    let a = Point { x: 0, y: 0 };
    let b = Point { x: 4, y: 0 };
    let c = Point { x: 0, y: 4 };
    let d = Point { x: 2, y: 2 };
    let t = Tetrahedron {
        vertices: [a, b, c, d],
    };
    assert_eq!(Tetrahedron::dimension(), 3);
    assert_eq!(
        t.faces(),
        vec![
            Triangle { vertices: [a, b, c] },
            Triangle { vertices: [a, b, d] },
            Triangle { vertices: [a, c, d] },
            Triangle { vertices: [b, c, d] },
        ]
    );
    assert_eq!(t.vertices(), vec![a, b, c, d]);
}

#[test]
fn point_simplex_is_trivial() {
    let p = Point { x: 5, y: -7 };
    assert_eq!(Point::dimension(), 0);
    assert_eq!(p.faces(), vec![]);
    assert_eq!(p.vertices(), vec![]);
    assert_eq!(p.volume().num, 0);
    assert!(p.circumscribe().is_none());
    let q = Point { x: 2, y: 3 };
    assert_eq!(p.add(q), Point { x: 7, y: -4 });
    assert_eq!(p.mul(q), Point { x: 10, y: -21 });
}
