use vstd::prelude::*;
use vstd::relations::{sorted_by, total_ordering};
use crate::geometry::{Point, Segment};

verus! {

/// The edge that leaves vertex `i`; the last vertex connects back to the first.
pub open spec fn edge(vs: Seq<Point>, i: int) -> Segment {
    Segment { start: vs[i], end: vs[(i + 1) % vs.len() as int] }
}

/// The closed outline of a polygon: one segment per vertex, in vertex order.
pub open spec fn outline(vs: Seq<Point>) -> Seq<Segment> {
    Seq::new(vs.len(), |i: int| edge(vs, i))
}

/// The segments that draw the outline of the polygon `vs`.
pub fn stroke_segments(vs: &Vec<Point>) -> (r: Vec<Segment>)
    ensures
        r@ == outline(vs@),
{
    let n = vs.len();
    let mut r: Vec<Segment> = Vec::new();
    let mut i: usize = 0;
    while i < n
        invariant
            n == vs@.len(),
            i <= n,
            r@ == outline(vs@).subrange(0, i as int),
        decreases n - i,
    {
        let j = (i + 1) % n;
        r.push(Segment { start: vs[i], end: vs[j] });
        i += 1;
        assert(r@ =~= outline(vs@).subrange(0, i as int));
    }
    assert(r@ =~= outline(vs@));
    r
}


/// Whether the edge from `a` to `b` crosses scanline `y`: exactly one end lies
/// strictly below the line. A horizontal edge never crosses.
pub open spec fn crosses(a: Point, b: Point, y: int) -> bool {
    (a.y <= y && b.y > y) || (a.y > y && b.y <= y)
}

pub open spec fn abs(n: int) -> int {
    if n < 0 { -n } else { n }
}

/// Integer division that truncates toward zero.
pub open spec fn trunc_div(n: int, d: int) -> int {
    if (n >= 0) == (d > 0) { abs(n) / abs(d) } else { -(abs(n) / abs(d)) }
}

/// Where the edge from `a` to `b` meets scanline `y`, by linear interpolation
/// with truncating division.
pub open spec fn intersection_x(a: Point, b: Point, y: int) -> int {
    a.x + trunc_div((y - a.y) * (b.x - a.x), b.y - a.y)
}

/// The intersections of scanline `y` with the first `k` edges, in edge order.
pub open spec fn crossings_upto(vs: Seq<Point>, y: int, k: int) -> Seq<i32>
    decreases k,
{
    if k <= 0 {
        Seq::empty()
    } else {
        let prev = crossings_upto(vs, y, k - 1);
        let e = edge(vs, k - 1);
        if crosses(e.start, e.end, y) {
            prev.push(intersection_x(e.start, e.end, y) as i32)
        } else {
            prev
        }
    }
}

/// The intersections of scanline `y` with every edge of the polygon.
pub open spec fn crossings(vs: Seq<Point>, y: int) -> Seq<i32> {
    crossings_upto(vs, y, vs.len() as int)
}

/// The ascending order on scanline positions.
pub open spec fn ascending() -> spec_fn(i32, i32) -> bool {
    |a: i32, b: i32| a <= b
}

/// The intersections of scanline `y`, in ascending order.
pub open spec fn row_crossings(vs: Seq<Point>, y: int) -> Seq<i32> {
    crossings(vs, y).sort_by(ascending())
}

/// Horizontal spans at height `y` between consecutive pairs of `xs`; an
/// unpaired last value is dropped.
pub open spec fn spans(xs: Seq<i32>, y: int) -> Seq<Segment> {
    Seq::new(
        xs.len() / 2,
        |k: int|
            Segment {
                start: Point { x: xs[2 * k], y: y as i32 },
                end: Point { x: xs[2 * k + 1], y: y as i32 },
            },
    )
}

/// The spans of the scanlines from `lo` up to, not including, `hi`.
pub open spec fn fill_rows(vs: Seq<Point>, lo: int, hi: int) -> Seq<Segment>
    decreases hi - lo,
{
    if hi <= lo {
        Seq::empty()
    } else {
        fill_rows(vs, lo, hi - 1) + spans(row_crossings(vs, hi - 1), hi - 1)
    }
}

/// The smallest `y` among the first `k` vertices (`k >= 1`).
pub open spec fn min_y_upto(vs: Seq<Point>, k: int) -> int
    decreases k,
{
    if k <= 1 {
        vs[0].y as int
    } else {
        let m = min_y_upto(vs, k - 1);
        if (vs[k - 1].y as int) < m { vs[k - 1].y as int } else { m }
    }
}

/// The largest `y` among the first `k` vertices (`k >= 1`).
pub open spec fn max_y_upto(vs: Seq<Point>, k: int) -> int
    decreases k,
{
    if k <= 1 {
        vs[0].y as int
    } else {
        let m = max_y_upto(vs, k - 1);
        if (vs[k - 1].y as int) > m { vs[k - 1].y as int } else { m }
    }
}

pub open spec fn min_y(vs: Seq<Point>) -> int {
    min_y_upto(vs, vs.len() as int)
}

pub open spec fn max_y(vs: Seq<Point>) -> int {
    max_y_upto(vs, vs.len() as int)
}

/// The even-odd scanline fill of the polygon `vs`: for each scanline from the
/// lowest to the highest vertex, the spans between its sorted intersections.
pub open spec fn fill(vs: Seq<Point>) -> Seq<Segment> {
    if vs.len() == 0 {
        Seq::empty()
    } else {
        fill_rows(vs, min_y(vs), max_y(vs) + 1)
    }
}

/// Where the edge from `a` to `b` meets scanline `y`.
pub fn edge_intersection(a: Point, b: Point, y: i32) -> (x: i32)
    requires
        crosses(a, b, y as int),
    ensures
        x as int == intersection_x(a, b, y as int),
        a.x <= x <= b.x || b.x <= x <= a.x,
{
    let d: i64 = b.x as i64 - a.x as i64;
    let dm: u64 = if d >= 0 { d as u64 } else { (-d) as u64 };
    let t: u64;
    let e: u64;
    if a.y <= y {
        t = (y as i64 - a.y as i64) as u64;
        e = (b.y as i64 - a.y as i64) as u64;
    } else {
        t = (a.y as i64 - y as i64) as u64;
        e = (a.y as i64 - b.y as i64) as u64;
    }
    assert(t <= e && 0 < e);
    assert(t * dm <= e * dm) by (nonlinear_arith)
        requires t <= e;
    assert(t * dm < 0x1_0000_0000_0000_0000) by (nonlinear_arith)
        requires t < 0x1_0000_0000, dm < 0x1_0000_0000;
    let p: u64 = t * dm;
    let q: u64 = p / e;
    proof {
        vstd::arithmetic::div_mod::lemma_div_is_ordered(p as int, (e * dm) as int, e as int);
        vstd::arithmetic::div_mod::lemma_div_by_multiple(dm as int, e as int);
        assert((e * dm) as int == dm * e) by (nonlinear_arith);
        let n = (y - a.y) * (b.x - a.x);
        let den = b.y - a.y;
        assert(abs(den) == e);
        assert(abs(n) == t * dm) by (nonlinear_arith)
            requires
                n == (y - a.y) * (b.x - a.x),
                t == abs(y - a.y),
                dm == abs(b.x - a.x);
        assert(n >= 0 <==> (t == 0 || dm == 0 || ((y - a.y >= 0) == (b.x - a.x >= 0)))) by (nonlinear_arith)
            requires
                n == (y - a.y) * (b.x - a.x),
                t == abs(y - a.y),
                dm == abs(b.x - a.x);
    }
    if d >= 0 {
        (a.x as i64 + q as i64) as i32
    } else {
        (a.x as i64 - q as i64) as i32
    }
}

/// The intersections of scanline `y` with the edges of `vs`, in edge order.
pub fn scanline_crossings(vs: &Vec<Point>, y: i32) -> (r: Vec<i32>)
    ensures
        r@ == crossings(vs@, y as int),
{
    let n = vs.len();
    let mut r: Vec<i32> = Vec::new();
    let mut i: usize = 0;
    while i < n
        invariant
            n == vs@.len(),
            i <= n,
            r@ == crossings_upto(vs@, y as int, i as int),
        decreases n - i,
    {
        let j = (i + 1) % n;
        let a = vs[i];
        let b = vs[j];
        if (a.y <= y && b.y > y) || (a.y > y && b.y <= y) {
            let x = edge_intersection(a, b, y);
            r.push(x);
        }
        i += 1;
    }
    r
}

/// `xs` in ascending order.
pub fn sort_ascending(xs: &Vec<i32>) -> (r: Vec<i32>)
    ensures
        r@ == xs@.sort_by(ascending()),
{
    let ghost leq = ascending();
    let mut r: Vec<i32> = Vec::new();
    proof {
        broadcast use vstd::seq_lib::group_to_multiset_ensures;
        assert(xs@.subrange(0, 0) =~= r@);
    }
    let mut i: usize = 0;
    while i < xs.len()
        invariant
            i <= xs@.len(),
            leq == ascending(),
            sorted_by(r@, leq),
            r@.to_multiset() == xs@.subrange(0, i as int).to_multiset(),
        decreases xs@.len() - i,
    {
        let v = xs[i];
        let mut p: usize = 0;
        while p < r.len() && r[p] <= v
            invariant
                p <= r@.len(),
                leq == ascending(),
                sorted_by(r@, leq),
                forall|k: int| 0 <= k < p ==> r@[k] <= v,
            decreases r@.len() - p,
        {
            p += 1;
        }
        proof {
            if p < r@.len() {
                assert forall|k: int| p <= k < r@.len() implies v < r@[k] by {
                    if k > p {
                        assert(leq(r@[p as int], r@[k]));
                    }
                }
            }
        }
        let ghost before = r@;
        r.insert(p, v);
        proof {
            broadcast use vstd::seq_lib::group_to_multiset_ensures;
            assert(xs@.subrange(0, i + 1) =~= xs@.subrange(0, i as int).push(v));
            assert forall|a: int, b: int| 0 <= a < b < r@.len() implies #[trigger] leq(r@[a], r@[b]) by {
                if a < p && b < p {
                    assert(leq(before[a], before[b]));
                } else if a < p && b > p {
                    assert(leq(before[a], before[b - 1]));
                } else if a > p {
                    assert(leq(before[a - 1], before[b - 1]));
                }
            }
        }
        i += 1;
    }
    proof {
        assert(xs@.subrange(0, xs@.len() as int) =~= xs@);
        assert(total_ordering(leq));
        xs@.lemma_sort_by_ensures(leq);
        vstd::seq_lib::lemma_sorted_unique(r@, xs@.sort_by(leq), leq);
    }
    r
}

/// Appends to `out` the spans at height `y` between consecutive pairs of `xs`.
pub fn push_spans(out: &mut Vec<Segment>, xs: &Vec<i32>, y: i32)
    ensures
        final(out)@ == old(out)@ + spans(xs@, y as int),
{
    let ghost start = out@;
    let n = xs.len() / 2;
    let mut k: usize = 0;
    while k < n
        invariant
            n == xs@.len() / 2,
            xs@.len() <= usize::MAX,
            k <= n,
            out@ == start + spans(xs@, y as int).subrange(0, k as int),
        decreases n - k,
    {
        let s = Segment { start: Point { x: xs[2 * k], y }, end: Point { x: xs[2 * k + 1], y } };
        out.push(s);
        k += 1;
        assert(out@ =~= start + spans(xs@, y as int).subrange(0, k as int));
    }
    assert(spans(xs@, y as int).subrange(0, n as int) =~= spans(xs@, y as int));
}

/// The lowest and the highest `y` among the vertices of `vs`.
pub fn y_bounds(vs: &Vec<Point>) -> (r: (i32, i32))
    requires
        vs@.len() >= 1,
    ensures
        r.0 as int == min_y(vs@),
        r.1 as int == max_y(vs@),
        r.0 <= r.1,
{
    let mut lo = vs[0].y;
    let mut hi = vs[0].y;
    let mut i: usize = 1;
    while i < vs.len()
        invariant
            1 <= i <= vs@.len(),
            lo as int == min_y_upto(vs@, i as int),
            hi as int == max_y_upto(vs@, i as int),
            lo <= hi,
        decreases vs@.len() - i,
    {
        if vs[i].y < lo {
            lo = vs[i].y;
        }
        if vs[i].y > hi {
            hi = vs[i].y;
        }
        i += 1;
    }
    (lo, hi)
}

/// The segments that fill the polygon `vs` by the even-odd rule, scanline by
/// scanline from the lowest vertex to the highest.
pub fn fill_segments(vs: &Vec<Point>) -> (r: Vec<Segment>)
    ensures
        r@ == fill(vs@),
{
    let mut out: Vec<Segment> = Vec::new();
    if vs.len() == 0 {
        return out;
    }
    let (lo, hi) = y_bounds(vs);
    let mut y: i64 = lo as i64;
    while y <= hi as i64
        invariant
            lo <= hi,
            lo as int == min_y(vs@),
            hi as int == max_y(vs@),
            lo <= y <= hi + 1,
            out@ == fill_rows(vs@, lo as int, y as int),
        decreases hi as int + 1 - y as int,
    {
        let found = scanline_crossings(vs, y as i32);
        let row = sort_ascending(&found);
        push_spans(&mut out, &row, y as i32);
        y += 1;
    }
    out
}

/// Vertex 0 is a lowest vertex; the `y` coordinates do not decrease from
/// vertex 0 to vertex `m` and do not increase from vertex `m` to the last one.
pub open spec fn climbs_then_descends(vs: Seq<Point>, m: int) -> bool {
    &&& 0 < m < vs.len()
    &&& forall|i: int, j: int| 0 <= i <= j <= m ==> vs[i].y <= vs[j].y
    &&& forall|i: int, j: int| m <= i <= j < vs.len() ==> vs[j].y <= vs[i].y
    &&& vs[0].y <= vs[vs.len() - 1].y
}

proof fn lemma_rising_crossings(vs: Seq<Point>, m: int, y: int, k: int)
    requires
        climbs_then_descends(vs, m),
        vs[0].y <= y,
        0 <= k <= m,
    ensures
        crossings_upto(vs, y, k).len() == if y < vs[k].y { 1int } else { 0int },
    decreases k,
{
    if k > 0 {
        lemma_rising_crossings(vs, m, y, k - 1);
        vstd::arithmetic::div_mod::lemma_small_mod(k as nat, vs.len());
    }
}

proof fn lemma_falling_crossings(vs: Seq<Point>, m: int, y: int, k: int)
    requires
        climbs_then_descends(vs, m),
        vs[0].y <= y < vs[m].y,
        m <= k <= vs.len(),
    ensures
        crossings_upto(vs, y, k).len() == 1 + if k == vs.len() || vs[k].y <= y { 1int } else { 0int },
    decreases k - m,
{
    if k == m {
        lemma_rising_crossings(vs, m, y, m);
    } else {
        lemma_falling_crossings(vs, m, y, k - 1);
        if k < vs.len() {
            vstd::arithmetic::div_mod::lemma_small_mod(k as nat, vs.len());
        } else {
            vstd::arithmetic::div_mod::lemma_mod_self_0(vs.len() as int);
        }
    }
}

proof fn lemma_y_bounds_of_climb(vs: Seq<Point>, m: int, k: int)
    requires
        climbs_then_descends(vs, m),
        1 <= k <= vs.len(),
    ensures
        min_y_upto(vs, k) == vs[0].y,
        max_y_upto(vs, k) <= vs[m].y,
        k > m ==> max_y_upto(vs, k) == vs[m].y,
    decreases k,
{
    if k > 1 {
        lemma_y_bounds_of_climb(vs, m, k - 1);
        if k - 1 >= m {
            assert(vs[k - 1].y <= vs[m].y);
        } else {
            assert(vs[k - 1].y <= vs[m].y);
        }
        assert(vs[0].y <= vs[k - 1].y) by {
            if k - 1 > m {
                assert(vs[vs.len() - 1].y <= vs[k - 1].y);
            }
        }
    }
}

/// A polygon whose vertices, starting from a lowest one, climb to a highest
/// one and then descend again gets exactly one span on every scanline
/// strictly between its lowest and its highest vertex: the scanline meets
/// the outline twice.
pub proof fn climbing_then_descending_polygon_has_one_span_per_row(vs: Seq<Point>, m: int, y: int)
    requires
        climbs_then_descends(vs, m),
        min_y(vs) < y < max_y(vs),
    ensures
        crossings(vs, y).len() == 2,
        spans(row_crossings(vs, y), y).len() == 1,
{
    broadcast use vstd::seq_lib::group_to_multiset_ensures;
    lemma_y_bounds_of_climb(vs, m, vs.len() as int);
    lemma_falling_crossings(vs, m, y, vs.len() as int);
    crossings(vs, y).lemma_sort_by_ensures(ascending());
    assert(crossings(vs, y).to_multiset().len() == 2);
    assert(row_crossings(vs, y).to_multiset().len() == 2);
}

} // verus!
