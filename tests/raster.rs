use sdl_gui::geometry::{Point, Segment};
use sdl_gui::raster::{
    edge_intersection, fill_segments, push_spans, scanline_crossings, sort_ascending,
    stroke_segments, y_bounds,
};

fn pts(v: &[(i32, i32)]) -> Vec<Point> {
    v.iter().map(|&(x, y)| Point::new(x, y)).collect()
}

fn seg(x0: i32, y0: i32, x1: i32, y1: i32) -> Segment {
    Segment { start: Point::new(x0, y0), end: Point::new(x1, y1) }
}

#[test]
fn stroke_square_closes_outline() {
    let vs = pts(&[(0, 0), (10, 0), (10, 10), (0, 10)]);
    let r = stroke_segments(&vs);
    assert_eq!(
        r,
        vec![seg(0, 0, 10, 0), seg(10, 0, 10, 10), seg(10, 10, 0, 10), seg(0, 10, 0, 0)]
    );
}

#[test]
fn stroke_count_equals_vertex_count() {
    for n in 2..9 {
        let vs: Vec<Point> = (0..n).map(|i| Point::new(i * 3, (i * i) % 7)).collect();
        assert_eq!(stroke_segments(&vs).len(), n as usize);
    }
}

#[test]
fn stroke_two_vertices_draws_segment_twice() {
    let vs = pts(&[(1, 2), (5, 6)]);
    assert_eq!(stroke_segments(&vs), vec![seg(1, 2, 5, 6), seg(5, 6, 1, 2)]);
}

#[test]
fn stroke_degenerate_segment_is_kept() {
    let vs = pts(&[(3, 3), (3, 3), (4, 4)]);
    assert_eq!(stroke_segments(&vs), vec![seg(3, 3, 3, 3), seg(3, 3, 4, 4), seg(4, 4, 3, 3)]);
}

#[test]
fn fill_rectangle_rows() {
    let vs = pts(&[(0, 0), (10, 0), (10, 10), (0, 10)]);
    let r = fill_segments(&vs);
    // Scanlines 0..=9 get one full-width span; on scanline 10 both vertical
    // edges end, so the half-open crossing test finds no intersection there.
    let expected: Vec<Segment> = (0..10).map(|y| seg(0, y, 10, y)).collect();
    assert_eq!(r, expected);
}

#[test]
fn fill_triangle_truncates_toward_zero() {
    let vs = pts(&[(0, 0), (3, 0), (0, 7)]);
    let r = fill_segments(&vs);
    assert_eq!(r.len(), 7);
    assert_eq!(r[0], seg(0, 0, 3, 0));
    assert_eq!(r[1], seg(0, 1, 3, 1));
    assert_eq!(r[3], seg(0, 3, 2, 3));
    assert_eq!(r[6], seg(0, 6, 1, 6));
}

#[test]
fn fill_convex_polygon_one_span_per_inner_row() {
    let vs = pts(&[(5, 0), (10, 3), (10, 8), (5, 12), (0, 8), (0, 3)]);
    let r = fill_segments(&vs);
    for y in 1..12 {
        assert_eq!(r.iter().filter(|s| s.start.y == y).count(), 1, "row {}", y);
    }
    for s in &r {
        assert!(s.start.x <= s.end.x);
        assert_eq!(s.start.y, s.end.y);
    }
}

#[test]
fn fill_concave_polygon_two_spans() {
    // A "U" shape: scanline 5 crosses four edges.
    let vs = pts(&[(0, 0), (10, 0), (10, 10), (7, 10), (7, 4), (3, 4), (3, 10), (0, 10)]);
    let r = fill_segments(&vs);
    let row5: Vec<Segment> = r.into_iter().filter(|s| s.start.y == 5).collect();
    assert_eq!(row5, vec![seg(0, 5, 3, 5), seg(7, 5, 10, 5)]);
}

#[test]
fn fill_empty_and_flat_polygons() {
    assert!(fill_segments(&Vec::new()).is_empty());
    let flat = pts(&[(0, 4), (9, 4)]);
    assert!(fill_segments(&flat).is_empty());
}

#[test]
fn edge_intersection_values() {
    assert_eq!(edge_intersection(Point::new(0, 0), Point::new(10, 10), 5), 5);
    assert_eq!(edge_intersection(Point::new(3, 0), Point::new(0, 7), 1), 3);
    assert_eq!(edge_intersection(Point::new(3, 0), Point::new(0, 7), 3), 2);
    assert_eq!(edge_intersection(Point::new(0, 7), Point::new(3, 0), 3), 1);
    assert_eq!(
        edge_intersection(Point::new(i32::MIN, i32::MIN), Point::new(i32::MAX, i32::MAX), 0),
        0
    );
}

#[test]
fn scanline_crossings_in_edge_order() {
    let vs = pts(&[(0, 0), (10, 0), (10, 10), (0, 10)]);
    assert_eq!(scanline_crossings(&vs, 4), vec![10, 0]);
    assert_eq!(scanline_crossings(&vs, 10), Vec::<i32>::new());
}

#[test]
fn sort_ascending_with_duplicates() {
    assert_eq!(sort_ascending(&vec![5, -1, 3, 3, 0]), vec![-1, 0, 3, 3, 5]);
    assert_eq!(sort_ascending(&Vec::new()), Vec::<i32>::new());
}

#[test]
fn odd_crossing_count_drops_last() {
    let mut out = Vec::new();
    push_spans(&mut out, &vec![1, 4, 9], 2);
    assert_eq!(out, vec![seg(1, 2, 4, 2)]);
}

#[test]
fn y_bounds_of_vertices() {
    let vs = pts(&[(0, 4), (1, -3), (2, 9), (3, 0)]);
    assert_eq!(y_bounds(&vs), (-3, 9));
}
