use vstd::prelude::*;

use crate::canvas::Canvas;
use crate::canvas::init_pix;
use crate::color::ColorSource;

verus! {

/// A 2D pixel coordinate: a triangle vertex, or the cursor of the walk.
#[derive(Clone, Copy, Debug, PartialEq, Eq, Structural)]
pub struct Point {
    pub x: u32,
    pub y: u32,
}

/// The three fixed triangle vertices of a `w` by `h` canvas:
/// bottom-left, bottom-right, top.
pub open spec fn spec_vertices(w: u32, h: u32) -> Seq<Point> {
    seq![
        Point { x: (w as int / 10) as u32, y: (h as int - h as int / 10) as u32 },
        Point { x: (w as int - w as int / 10) as u32, y: (h as int - h as int / 10) as u32 },
        Point { x: (w as int / 2) as u32, y: (h as int / 10) as u32 },
    ]
}

pub open spec fn bbox_lo_x(w: u32) -> int {
    w as int / 10
}

pub open spec fn bbox_hi_x(w: u32) -> int {
    w as int - w as int / 10
}

pub open spec fn bbox_lo_y(h: u32) -> int {
    h as int / 10
}

pub open spec fn bbox_hi_y(h: u32) -> int {
    h as int - h as int / 10
}

/// `(x, y)` lies within the bounding box spanned by the three vertices.
pub open spec fn in_bbox(w: u32, h: u32, x: int, y: int) -> bool {
    bbox_lo_x(w) <= x <= bbox_hi_x(w) && bbox_lo_y(h) <= y <= bbox_hi_y(h)
}

pub open spec fn point_in_bbox(w: u32, h: u32, p: Point) -> bool {
    in_bbox(w, h, p.x as int, p.y as int)
}

/// `(x, y)` is the coordinate of one of the three vertices.
pub open spec fn is_vertex(w: u32, h: u32, x: int, y: int) -> bool {
    let vs = spec_vertices(w, h);
    (vs[0].x == x && vs[0].y == y) || (vs[1].x == x && vs[1].y == y) || (vs[2].x == x && vs[2].y
        == y)
}

/// Where the walk starts: the center of the canvas, one row up.
pub open spec fn spec_initial_cursor(w: u32, h: u32) -> Point {
    Point { x: (w as int / 2) as u32, y: (h as int / 2 - 1) as u32 }
}

/// The integer midpoint of two points, each coordinate divided with
/// rounding toward zero.
pub open spec fn spec_midpoint(p: Point, v: Point) -> Point {
    Point { x: ((p.x + v.x) / 2) as u32, y: ((p.y + v.y) / 2) as u32 }
}

/// The cursor positions of a walk driven by the vertex choices `ns`:
/// position 0 is `start`, and each later position is the integer midpoint
/// of the one before it and the chosen vertex. A walk of `ns.len()` steps
/// has `ns.len() + 1` positions; the last is where the cursor ends, and
/// the others are where the dots land.
pub open spec fn walk_points(w: u32, h: u32, start: Point, ns: Seq<int>) -> Seq<Point>
    decreases ns.len(),
{
    if ns.len() == 0 {
        seq![start]
    } else {
        let prefix = walk_points(w, h, start, ns.drop_last());
        prefix.push(spec_midpoint(prefix.last(), spec_vertices(w, h)[ns.last()]))
    }
}

/// A walk of `ns.len()` steps passes through `ns.len() + 1` positions.
pub proof fn lemma_walk_points_len(w: u32, h: u32, start: Point, ns: Seq<int>)
    ensures
        walk_points(w, h, start, ns).len() == ns.len() + 1,
    decreases ns.len(),
{
    if ns.len() > 0 {
        lemma_walk_points_len(w, h, start, ns.drop_last());
    }
}

/// `(x, y)` is the coordinate of one of the points.
pub open spec fn point_hit(pts: Seq<Point>, x: int, y: int) -> bool
    decreases pts.len(),
{
    pts.len() > 0 && ((pts.last().x == x && pts.last().y == y) || point_hit(pts.drop_last(), x, y))
}

/// The law of the walk: the new canvas is the old one overwritten exactly
/// at the positions of a `count`-step midpoint walk from `start` driven by
/// the vertex choices `ns` (each one of the three vertices), every such
/// position painted with the color resolved at its own coordinate, and the
/// cursor ends at the walk's final position. Since each write carries the
/// color of its own coordinate, the final canvas does not depend on the
/// order of the writes, and at most `count` pixels differ from the base.
pub open spec fn walk_trace(
    base: Canvas,
    cur: Canvas,
    start: Point,
    end: Point,
    count: u64,
    color: ColorSource,
    ns: Seq<int>,
) -> bool {
    let pts = walk_points(base.width, base.height, start, ns);
    &&& ns.len() == count as int
    &&& (forall|k: int| 0 <= k < ns.len() ==> 0 <= #[trigger] ns[k] < 3)
    &&& cur.width == base.width
    &&& cur.height == base.height
    &&& end == pts.last()
    &&& (forall|x: int, y: int| #![trigger cur.pix(x, y)]
        base.in_bounds(x, y) ==> cur.pix(x, y) == (if point_hit(pts.take(count as int), x, y) {
            color.spec_at(x, y)
        } else {
            base.pix(x, y)
        }))
}

/// The law of the plotter: the new canvas is the old one overwritten
/// exactly at the three vertices and at the positions of a `dots`-step
/// midpoint walk from the starting cursor, driven by the vertex choices
/// `ns`, each written pixel carrying the color resolved at its own
/// coordinate — so at most `dots + 3` pixels differ from the base.
pub open spec fn plot_trace(
    base: Canvas,
    cur: Canvas,
    dots: u64,
    color: ColorSource,
    ns: Seq<int>,
) -> bool {
    let w = base.width;
    let h = base.height;
    let pts = walk_points(w, h, spec_initial_cursor(w, h), ns);
    &&& ns.len() == dots as int
    &&& (forall|k: int| 0 <= k < ns.len() ==> 0 <= #[trigger] ns[k] < 3)
    &&& cur.width == w
    &&& cur.height == h
    &&& (forall|x: int, y: int| #![trigger cur.pix(x, y)]
        base.in_bounds(x, y) ==> cur.pix(x, y) == (
        if point_hit(pts.take(dots as int), x, y) || is_vertex(w, h, x, y) {
            color.spec_at(x, y)
        } else {
            base.pix(x, y)
        }))
}

/// The law of a whole generation: the result is the initial canvas (black,
/// or the grayscale-darkened seed) overwritten exactly at the three
/// vertices and at the positions of a `dots`-step midpoint walk driven by
/// the vertex choices `ns`, each written pixel carrying the color resolved
/// at its own coordinate.
pub open spec fn generate_trace(
    width: u32,
    height: u32,
    seed: Option<Canvas>,
    img: Canvas,
    dots: u64,
    color: ColorSource,
    ns: Seq<int>,
) -> bool {
    let pts = walk_points(width, height, spec_initial_cursor(width, height), ns);
    &&& ns.len() == dots as int
    &&& (forall|k: int| 0 <= k < ns.len() ==> 0 <= #[trigger] ns[k] < 3)
    &&& img.width == width
    &&& img.height == height
    &&& (forall|x: int, y: int| #![trigger img.pix(x, y)]
        img.in_bounds(x, y) ==> img.pix(x, y) == (
        if point_hit(pts.take(dots as int), x, y) || is_vertex(width, height, x, y) {
            color.spec_at(x, y)
        } else {
            init_pix(seed, x, y)
        }))
}

/// On a canvas at least 10 pixels wide and high, the bounding box is not
/// empty and lies strictly inside the canvas.
pub proof fn lemma_bbox_in_canvas(w: u32, h: u32)
    requires
        w >= 10,
        h >= 10,
    ensures
        0 <= bbox_lo_x(w) <= bbox_hi_x(w) < w,
        0 <= bbox_lo_y(h) <= bbox_hi_y(h) < h,
{
}

/// All three vertices lie within their own bounding box.
pub proof fn lemma_vertices_in_bbox(w: u32, h: u32)
    requires
        w >= 10,
        h >= 10,
    ensures
        forall|k: int| 0 <= k < 3 ==> point_in_bbox(w, h, #[trigger] spec_vertices(w, h)[k]),
{
    assert(point_in_bbox(w, h, spec_vertices(w, h)[0]));
    assert(point_in_bbox(w, h, spec_vertices(w, h)[1]));
    assert(point_in_bbox(w, h, spec_vertices(w, h)[2]));
}

/// The walk's starting point lies within the bounding box.
pub proof fn lemma_initial_cursor_in_bbox(w: u32, h: u32)
    requires
        w >= 10,
        h >= 10,
    ensures
        point_in_bbox(w, h, spec_initial_cursor(w, h)),
{
}

/// The bounding box is closed under integer midpoints: the midpoint of two
/// points inside it stays inside it.
pub proof fn lemma_midpoint_in_bbox(w: u32, h: u32, p: Point, v: Point)
    requires
        w >= 10,
        h >= 10,
        point_in_bbox(w, h, p),
        point_in_bbox(w, h, v),
    ensures
        point_in_bbox(w, h, spec_midpoint(p, v)),
{
    lemma_bbox_in_canvas(w, h);
}

/// The vertex formula is pure: two vertex sequences computed from the same
/// dimensions are one and the same.
pub proof fn lemma_vertices_deterministic(w: u32, h: u32, v1: Seq<Point>, v2: Seq<Point>)
    requires
        v1 == spec_vertices(w, h),
        v2 == spec_vertices(w, h),
    ensures
        v1 == v2,
{
}

/// Compute the three triangle vertices from the canvas dimensions.
pub fn vertices(width: u32, height: u32) -> (v: [Point; 3])
    ensures
        v@ == spec_vertices(width, height),
{
    let v0 = Point { x: width / 10, y: height - height / 10 };
    let v1 = Point { x: width - width / 10, y: height - height / 10 };
    let v2 = Point { x: width / 2, y: height / 10 };
    let arr = [v0, v1, v2];
    proof {
        assert(arr@ =~= spec_vertices(width, height));
    }
    arr
}

/// Compute the walk's starting point from the canvas dimensions.
pub fn initial_cursor(width: u32, height: u32) -> (p: Point)
    requires
        height >= 2,
    ensures
        p == spec_initial_cursor(width, height),
{
    Point { x: width / 2, y: height / 2 - 1 }
}

/// `rand`'s thread-local generator, the source of the walk's vertex choices.
#[verifier::external_type_specification]
#[verifier::external_body]
pub struct ExThreadRng(rand::rngs::ThreadRng);

/// Relies on rand's `Rng::gen_range`: a sample of `0..=2` lies within that
/// range. Which of the three values comes back is left open.
#[verifier::external_body]
fn pick_vertex(rng: &mut rand::rngs::ThreadRng) -> (n: usize)
    ensures
        n < 3,
{
    rand::Rng::gen_range(rng, 0..=2)
}

/// Plot the three vertices themselves, each with the color the source
/// resolves to at its coordinate; every other pixel is untouched.
pub fn plot_corners(canvas: &mut Canvas, color: &ColorSource)
    requires
        old(canvas).wf(),
        old(canvas).width >= 10,
        old(canvas).height >= 10,
        color.wf(),
        color.fits(old(canvas).width, old(canvas).height),
    ensures
        final(canvas).wf(),
        final(canvas).width == old(canvas).width,
        final(canvas).height == old(canvas).height,
        forall|x: int, y: int| #![trigger final(canvas).pix(x, y)]
            final(canvas).in_bounds(x, y) ==> final(canvas).pix(x, y) == (
            if is_vertex(old(canvas).width, old(canvas).height, x, y) {
                color.spec_at(x, y)
            } else {
                old(canvas).pix(x, y)
            }),
{
    let w = canvas.width;
    let h = canvas.height;
    proof {
        lemma_bbox_in_canvas(w, h);
        lemma_vertices_in_bbox(w, h);
    }
    let verts = vertices(w, h);
    let c0 = color.at(verts[0].x, verts[0].y);
    canvas.set_pixel(verts[0].x, verts[0].y, c0);
    let c1 = color.at(verts[1].x, verts[1].y);
    canvas.set_pixel(verts[1].x, verts[1].y, c1);
    let c2 = color.at(verts[2].x, verts[2].y);
    canvas.set_pixel(verts[2].x, verts[2].y, c2);
}

/// Run `count` steps of the chaos game: plot the cursor with the color
/// resolved at its coordinate, then move the cursor to the integer midpoint
/// between itself and a randomly chosen vertex. Every plotted pixel lies
/// within the vertices' bounding box; pixels outside it are untouched.
pub fn plot_dots(
    canvas: &mut Canvas,
    cursor: &mut Point,
    count: u64,
    color: &ColorSource,
    rng: &mut rand::rngs::ThreadRng,
)
    requires
        old(canvas).wf(),
        old(canvas).width >= 10,
        old(canvas).height >= 10,
        color.wf(),
        color.fits(old(canvas).width, old(canvas).height),
        point_in_bbox(old(canvas).width, old(canvas).height, *old(cursor)),
    ensures
        final(canvas).wf(),
        final(canvas).width == old(canvas).width,
        final(canvas).height == old(canvas).height,
        point_in_bbox(old(canvas).width, old(canvas).height, *final(cursor)),
        forall|x: int, y: int| #![trigger final(canvas).pix(x, y)]
            final(canvas).in_bounds(x, y) ==> final(canvas).pix(x, y) == old(canvas).pix(x, y)
                || (in_bbox(old(canvas).width, old(canvas).height, x, y) && final(canvas).pix(x, y)
                == color.spec_at(x, y)),
        count == 0 ==> *final(canvas) == *old(canvas) && *final(cursor) == *old(cursor),
        count > 0 ==> final(canvas).pix(old(cursor).x as int, old(cursor).y as int)
            == color.spec_at(old(cursor).x as int, old(cursor).y as int),
        exists|ns: Seq<int>|
            walk_trace(*old(canvas), *final(canvas), *old(cursor), *final(cursor), count, *color, ns),
{
    let w = canvas.width;
    let h = canvas.height;
    proof {
        lemma_bbox_in_canvas(w, h);
        lemma_vertices_in_bbox(w, h);
    }
    let verts = vertices(w, h);
    let ghost mut ns: Seq<int> = Seq::empty();
    proof {
        let pts0 = walk_points(w, h, *old(cursor), ns);
        assert(pts0 == seq![*old(cursor)]);
        assert(pts0.take(0) =~= Seq::<Point>::empty());
    }
    let mut i: u64 = 0;
    while i < count
        invariant
            i <= count,
            w == old(canvas).width,
            h == old(canvas).height,
            w >= 10,
            h >= 10,
            canvas.wf(),
            canvas.width == w,
            canvas.height == h,
            color.wf(),
            color.fits(w, h),
            point_in_bbox(w, h, *cursor),
            point_in_bbox(w, h, *old(cursor)),
            verts@ == spec_vertices(w, h),
            forall|x: int, y: int| #![trigger canvas.pix(x, y)]
                canvas.in_bounds(x, y) ==> canvas.pix(x, y) == old(canvas).pix(x, y) || (in_bbox(
                    w,
                    h,
                    x,
                    y,
                ) && canvas.pix(x, y) == color.spec_at(x, y)),
            i == 0 ==> *canvas == *old(canvas) && *cursor == *old(cursor),
            i > 0 ==> canvas.pix(old(cursor).x as int, old(cursor).y as int) == color.spec_at(
                old(cursor).x as int,
                old(cursor).y as int,
            ),
            ns.len() == i as int,
            forall|k: int| 0 <= k < ns.len() ==> 0 <= #[trigger] ns[k] < 3,
            *cursor == walk_points(w, h, *old(cursor), ns).last(),
            forall|x: int, y: int| #![trigger canvas.pix(x, y)]
                canvas.in_bounds(x, y) ==> canvas.pix(x, y) == (
                if point_hit(walk_points(w, h, *old(cursor), ns).take(i as int), x, y) {
                    color.spec_at(x, y)
                } else {
                    old(canvas).pix(x, y)
                }),
        decreases count - i,
    {
        proof {
            lemma_bbox_in_canvas(w, h);
        }
        let n = pick_vertex(rng);
        let c = color.at(cursor.x, cursor.y);
        let ghost prev = *canvas;
        let ghost cur0 = *cursor;
        let ghost pts = walk_points(w, h, *old(cursor), ns);
        canvas.set_pixel(cursor.x, cursor.y, c);
        proof {
            assert forall|x: int, y: int|
                canvas.in_bounds(x, y) implies canvas.pix(x, y) == old(canvas).pix(x, y) || (
            in_bbox(w, h, x, y) && canvas.pix(x, y) == color.spec_at(x, y)) by {
                if x == cursor.x && y == cursor.y {
                    assert(canvas.pix(x, y) == color.spec_at(x, y));
                    assert(in_bbox(w, h, x, y));
                } else {
                    assert(canvas.pix(x, y) == prev.pix(x, y));
                    assert(prev.pix(x, y) == old(canvas).pix(x, y) || (in_bbox(w, h, x, y)
                        && prev.pix(x, y) == color.spec_at(x, y)));
                }
            }
            assert(canvas.pix(cursor.x as int, cursor.y as int) == color.spec_at(
                cursor.x as int,
                cursor.y as int,
            ));
            if i > 0 && !(old(cursor).x == cursor.x && old(cursor).y == cursor.y) {
                assert(canvas.in_bounds(old(cursor).x as int, old(cursor).y as int));
                assert(canvas.pix(old(cursor).x as int, old(cursor).y as int) == prev.pix(
                    old(cursor).x as int,
                    old(cursor).y as int,
                ));
            }
            lemma_vertices_in_bbox(w, h);
            lemma_midpoint_in_bbox(w, h, *cursor, verts@[n as int]);
            let ns2 = ns.push(n as int);
            assert(ns2.drop_last() =~= ns);
            assert(ns2.last() == n as int);
            let pts2 = walk_points(w, h, *old(cursor), ns2);
            assert(pts2 == pts.push(spec_midpoint(pts.last(), spec_vertices(w, h)[n as int])));
            lemma_walk_points_len(w, h, *old(cursor), ns);
            assert(pts.len() == i + 1);
            assert(pts2.take(i as int + 1) =~= pts);
            assert(pts.drop_last() =~= pts.take(i as int));
            assert forall|x: int, y: int|
                canvas.in_bounds(x, y) implies canvas.pix(x, y) == (
            if point_hit(pts2.take(i as int + 1), x, y) {
                color.spec_at(x, y)
            } else {
                old(canvas).pix(x, y)
            }) by {
                if x == cur0.x && y == cur0.y {
                    assert(point_hit(pts, x, y));
                    assert(canvas.pix(x, y) == color.spec_at(x, y));
                } else {
                    assert(canvas.pix(x, y) == prev.pix(x, y));
                    assert(point_hit(pts, x, y) == point_hit(pts.take(i as int), x, y));
                }
            }
            ns = ns2;
        }
        let nx = (((cursor.x as u64) + (verts[n].x as u64)) / 2) as u32;
        let ny = (((cursor.y as u64) + (verts[n].y as u64)) / 2) as u32;
        *cursor = Point { x: nx, y: ny };
        i = i + 1;
        proof {
            assert(*cursor == walk_points(w, h, *old(cursor), ns).last());
        }
    }
    proof {
        assert(walk_trace(*old(canvas), *canvas, *old(cursor), *cursor, count, *color, ns));
    }
}

/// The chaos-game plotter: plot the three vertices, then run `dots` steps
/// of the walk from the starting point. The pixels set are the vertices
/// and walk positions, each with the color resolved at its coordinate;
/// everything outside the vertices' bounding box is untouched.
pub fn plot(canvas: &mut Canvas, dots: u64, color: &ColorSource, rng: &mut rand::rngs::ThreadRng)
    requires
        old(canvas).wf(),
        old(canvas).width >= 10,
        old(canvas).height >= 10,
        color.wf(),
        color.fits(old(canvas).width, old(canvas).height),
    ensures
        final(canvas).wf(),
        final(canvas).width == old(canvas).width,
        final(canvas).height == old(canvas).height,
        forall|x: int, y: int| #![trigger final(canvas).pix(x, y)]
            final(canvas).in_bounds(x, y) ==> final(canvas).pix(x, y) == old(canvas).pix(x, y)
                || (in_bbox(old(canvas).width, old(canvas).height, x, y) && final(canvas).pix(x, y)
                == color.spec_at(x, y)),
        forall|x: int, y: int| #![trigger final(canvas).pix(x, y)]
            final(canvas).in_bounds(x, y) && is_vertex(old(canvas).width, old(canvas).height, x, y)
                ==> final(canvas).pix(x, y) == color.spec_at(x, y),
        dots == 0 ==> forall|x: int, y: int| #![trigger final(canvas).pix(x, y)]
            final(canvas).in_bounds(x, y) ==> final(canvas).pix(x, y) == (
            if is_vertex(old(canvas).width, old(canvas).height, x, y) {
                color.spec_at(x, y)
            } else {
                old(canvas).pix(x, y)
            }),
        dots > 0 ==> {
            let c0 = spec_initial_cursor(old(canvas).width, old(canvas).height);
            final(canvas).pix(c0.x as int, c0.y as int) == color.spec_at(c0.x as int, c0.y as int)
        },
        exists|ns: Seq<int>| plot_trace(*old(canvas), *final(canvas), dots, *color, ns),
{
    let w = canvas.width;
    let h = canvas.height;
    proof {
        lemma_bbox_in_canvas(w, h);
        lemma_vertices_in_bbox(w, h);
        lemma_initial_cursor_in_bbox(w, h);
    }
    plot_corners(canvas, color);
    let ghost mid = *canvas;
    let mut cursor = initial_cursor(w, h);
    plot_dots(canvas, &mut cursor, dots, color, rng);
    proof {
        assert forall|x: int, y: int|
            canvas.in_bounds(x, y) implies canvas.pix(x, y) == old(canvas).pix(x, y) || (in_bbox(
            w,
            h,
            x,
            y,
        ) && canvas.pix(x, y) == color.spec_at(x, y)) by {
            assert(point_in_bbox(w, h, spec_vertices(w, h)[0]));
            assert(point_in_bbox(w, h, spec_vertices(w, h)[1]));
            assert(point_in_bbox(w, h, spec_vertices(w, h)[2]));
            if canvas.pix(x, y) != old(canvas).pix(x, y) {
                if canvas.pix(x, y) == mid.pix(x, y) {
                    assert(is_vertex(w, h, x, y));
                    assert(in_bbox(w, h, x, y));
                }
            }
        }
        assert forall|x: int, y: int|
            canvas.in_bounds(x, y) && is_vertex(w, h, x, y) implies canvas.pix(x, y)
            == color.spec_at(x, y) by {
            assert(point_in_bbox(w, h, spec_vertices(w, h)[0]));
            assert(point_in_bbox(w, h, spec_vertices(w, h)[1]));
            assert(point_in_bbox(w, h, spec_vertices(w, h)[2]));
            assert(mid.pix(x, y) == color.spec_at(x, y));
            assert(in_bbox(w, h, x, y));
        }
        let c0 = spec_initial_cursor(w, h);
        let ns = choose|ns: Seq<int>| walk_trace(mid, *canvas, c0, cursor, dots, *color, ns);
        assert(walk_trace(mid, *canvas, c0, cursor, dots, *color, ns));
        assert(plot_trace(*old(canvas), *canvas, dots, *color, ns)) by {
            assert forall|x: int, y: int| #![trigger canvas.pix(x, y)]
                old(canvas).in_bounds(x, y) implies canvas.pix(x, y) == (
            if point_hit(walk_points(w, h, c0, ns).take(dots as int), x, y) || is_vertex(
                w,
                h,
                x,
                y,
            ) {
                color.spec_at(x, y)
            } else {
                old(canvas).pix(x, y)
            }) by {
                assert(mid.in_bounds(x, y));
                assert(mid.pix(x, y) == (
                if is_vertex(w, h, x, y) {
                    color.spec_at(x, y)
                } else {
                    old(canvas).pix(x, y)
                }));
            }
        }
    }
}

/// The one logical operation of the library: build the base canvas from the
/// dimensions and the optional seed image, then run the chaos game on it.
pub fn generate(
    width: u32,
    height: u32,
    dots: u64,
    canvas_seed: Option<Canvas>,
    color: ColorSource,
    rng: &mut rand::rngs::ThreadRng,
) -> (img: Canvas)
    requires
        width >= 10,
        height >= 10,
        3 * width * height <= usize::MAX,
        match canvas_seed {
            Some(s) => s.wf() && s.width == width && s.height == height,
            None => true,
        },
        color.wf(),
        color.fits(width, height),
    ensures
        img.wf(),
        img.width == width,
        img.height == height,
        forall|x: int, y: int| #![trigger img.pix(x, y)]
            img.in_bounds(x, y) ==> img.pix(x, y) == init_pix(canvas_seed, x, y) || (in_bbox(
                width,
                height,
                x,
                y,
            ) && img.pix(x, y) == color.spec_at(x, y)),
        forall|x: int, y: int| #![trigger img.pix(x, y)]
            img.in_bounds(x, y) && is_vertex(width, height, x, y) ==> img.pix(x, y)
                == color.spec_at(x, y),
        dots == 0 ==> forall|x: int, y: int| #![trigger img.pix(x, y)]
            img.in_bounds(x, y) ==> img.pix(x, y) == (
            if is_vertex(width, height, x, y) {
                color.spec_at(x, y)
            } else {
                init_pix(canvas_seed, x, y)
            }),
        dots > 0 ==> {
            let c0 = spec_initial_cursor(width, height);
            img.pix(c0.x as int, c0.y as int) == color.spec_at(c0.x as int, c0.y as int)
        },
        exists|ns: Seq<int>| generate_trace(width, height, canvas_seed, img, dots, color, ns),
{
    let mut img = match &canvas_seed {
        Some(s) => crate::canvas::init_canvas(width, height, Some(s)),
        None => crate::canvas::init_canvas(width, height, None),
    };
    proof {
        assert forall|x: int, y: int|
            img.in_bounds(x, y) implies img.pix(x, y) == init_pix(canvas_seed, x, y) by {}
    }
    let ghost base = img;
    plot(&mut img, dots, &color, rng);
    proof {
        assert forall|x: int, y: int|
            img.in_bounds(x, y) implies img.pix(x, y) == init_pix(canvas_seed, x, y) || (in_bbox(
            width,
            height,
            x,
            y,
        ) && img.pix(x, y) == color.spec_at(x, y)) by {
            assert(base.pix(x, y) == init_pix(canvas_seed, x, y));
        }
        let ns = choose|ns: Seq<int>| plot_trace(base, img, dots, color, ns);
        assert(plot_trace(base, img, dots, color, ns));
        assert(generate_trace(width, height, canvas_seed, img, dots, color, ns)) by {
            assert forall|x: int, y: int| #![trigger img.pix(x, y)]
                img.in_bounds(x, y) implies img.pix(x, y) == (
            if point_hit(
                walk_points(width, height, spec_initial_cursor(width, height), ns).take(
                    dots as int,
                ),
                x,
                y,
            ) || is_vertex(width, height, x, y) {
                color.spec_at(x, y)
            } else {
                init_pix(canvas_seed, x, y)
            }) by {
                assert(base.in_bounds(x, y));
                assert(base.pix(x, y) == init_pix(canvas_seed, x, y));
            }
        }
    }
    img
}

} // verus!

