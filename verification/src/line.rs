use vstd::prelude::*;

verus! {

/// The distance between two coordinates.
pub open spec fn span(a: int, b: int) -> nat {
    if a < b {
        (b - a) as nat
    } else {
        (a - b) as nat
    }
}

/// The direction of travel from `a` to `b` along one axis.
pub open spec fn toward(a: int, b: int) -> int {
    if a < b {
        1
    } else {
        -1
    }
}

/// One walk over the pixel grid towards `(x2, y2)`.
///
/// `err` is the running error term; `dx` and `dy` are the spans of the whole
/// segment along the two axes. The walk moves along x when twice the error is
/// at least `-dy`, along y when it is at most `dx`, and along both when both
/// hold. It stops at the target, or when `fuel` runs out.
pub open spec fn walk(
    x: int,
    y: int,
    err: int,
    x2: int,
    y2: int,
    dx: nat,
    dy: nat,
    fuel: nat,
) -> Seq<
    (int, int),
>
    decreases fuel,
{
    if (x == x2 && y == y2) || fuel == 0 {
        seq![(x, y)]
    } else {
        let move_x = 2 * err >= -dy;
        let move_y = 2 * err <= dx;
        let nx = if move_x {
            x + toward(x, x2)
        } else {
            x
        };
        let ny = if move_y {
            y + toward(y, y2)
        } else {
            y
        };
        let nerr = err - (if move_x {
            dy as int
        } else {
            0
        }) + (if move_y {
            dx as int
        } else {
            0
        });
        seq![(x, y)] + walk(nx, ny, nerr, x2, y2, dx, dy, (fuel - 1) as nat)
    }
}

/// The pixels of the segment from `(x1, y1)` to `(x2, y2)`, in drawing order.
pub open spec fn line_points(x1: int, y1: int, x2: int, y2: int) -> Seq<(int, int)> {
    let dx = span(x1, x2);
    let dy = span(y1, y2);
    walk(x1, y1, dx - dy, x2, y2, dx, dy, dx + dy)
}

/// What holds of a walk that has made `i` moves along x and `j` along y: the
/// error term is where those moves put it, and it has stayed within half the
/// longer span of the error of the ideal segment.
pub open spec fn on_track(
    x: int,
    y: int,
    err: int,
    x2: int,
    y2: int,
    dx: nat,
    dy: nat,
    i: int,
    j: int,
) -> bool {
    &&& 0 <= i <= dx
    &&& 0 <= j <= dy
    &&& span(x, x2) == dx - i
    &&& span(y, y2) == dy - j
    &&& err == (j + 1) * dx - (i + 1) * dy
    &&& dx >= dy ==> dx - 2 * dy <= 2 * err <= 3 * dx - 2 * dy
    &&& dx < dy ==> 2 * dx - 3 * dy <= 2 * err <= 2 * dx - dy
}

/// One move of a walk that is on track and not yet at its target keeps it on
/// track: it moves along x only while x is short of the target, and likewise
/// along y, and it always moves along the axis of the longer span.
pub proof fn lemma_move(
    x: int,
    y: int,
    err: int,
    x2: int,
    y2: int,
    dx: nat,
    dy: nat,
    i: int,
    j: int,
)
    requires
        on_track(x, y, err, x2, y2, dx, dy, i, j),
        !(x == x2 && y == y2),
    ensures
        2 * err >= -dy || 2 * err <= dx,
        2 * err >= -dy ==> i < dx,
        2 * err <= dx ==> j < dy,
        dx >= dy ==> 2 * err >= -dy,
        dx < dy ==> 2 * err <= dx,
        on_track(
            if 2 * err >= -dy {
                x + toward(x, x2)
            } else {
                x
            },
            if 2 * err <= dx {
                y + toward(y, y2)
            } else {
                y
            },
            err - (if 2 * err >= -dy {
                dy as int
            } else {
                0
            }) + (if 2 * err <= dx {
                dx as int
            } else {
                0
            }),
            x2,
            y2,
            dx,
            dy,
            if 2 * err >= -dy {
                i + 1
            } else {
                i
            },
            if 2 * err <= dx {
                j + 1
            } else {
                j
            },
        ),
{
    let dxi = dx as int;
    let dyi = dy as int;
    if i == dxi {
        // x has arrived, so y has not
        assert(j + 1 <= dyi);
        assert((j + 1) * dxi <= dyi * dxi) by (nonlinear_arith)
            requires
                j + 1 <= dyi,
                0 <= dxi,
        ;
        assert((dxi + 1) * dyi == dyi * dxi + dyi) by (nonlinear_arith);
        assert(2 * err < -dyi);
    }
    if j == dyi {
        assert(i + 1 <= dxi);
        assert((i + 1) * dyi <= dxi * dyi) by (nonlinear_arith)
            requires
                i + 1 <= dxi,
                0 <= dyi,
        ;
        assert((dyi + 1) * dxi == dxi * dyi + dxi) by (nonlinear_arith);
        assert(2 * err > dxi);
    }
    assert((j + 2) * dxi == (j + 1) * dxi + dxi) by (nonlinear_arith);
    assert((i + 2) * dyi == (i + 1) * dyi + dyi) by (nonlinear_arith);
}

/// Whether `q` is one of the eight neighbours of `p` on the grid.
pub open spec fn adjacent(p: (int, int), q: (int, int)) -> bool {
    &&& -1 <= q.0 - p.0 <= 1
    &&& -1 <= q.1 - p.1 <= 1
    &&& p != q
}

/// Whether `c` lies between `a` and `b`, the two included, whichever is larger.
pub open spec fn between(a: int, c: int, b: int) -> bool {
    (a <= c <= b) || (b <= c <= a)
}

/// The larger of two spans.
pub open spec fn longer(dx: nat, dy: nat) -> nat {
    if dx >= dy {
        dx
    } else {
        dy
    }
}

/// Whether `pts` is an unbroken path from `from` to `to` that never leaves
/// the rectangle spanned by the two.
pub open spec fn is_path(pts: Seq<(int, int)>, from: (int, int), to: (int, int)) -> bool {
    &&& pts.len() >= 1
    &&& pts[0] == from
    &&& pts.last() == to
    &&& forall|k: int| 0 <= k < pts.len() - 1 ==> adjacent(#[trigger] pts[k], pts[k + 1])
    &&& forall|k: int|
        0 <= k < pts.len() ==> between(from.0, (#[trigger] pts[k]).0, to.0) && between(
            from.1,
            pts[k].1,
            to.1,
        )
}

/// How far `p` is off the ideal segment from `(x1, y1)` to `(x2, y2)`: zero
/// on it, and growing by the segment's span along one axis for each pixel
/// that `p` moves away along the other.
pub open spec fn deviation(x1: int, y1: int, x2: int, y2: int, p: (int, int)) -> int {
    (p.0 - x1) * (y2 - y1) - (p.1 - y1) * (x2 - x1)
}

/// Whether `p` is within half a pixel of the ideal segment, measured along
/// the axis of the shorter span.
pub open spec fn near_segment(x1: int, y1: int, x2: int, y2: int, p: (int, int)) -> bool {
    -longer(span(x1, x2), span(y1, y2)) <= 2 * deviation(x1, y1, x2, y2, p) <= longer(
        span(x1, x2),
        span(y1, y2),
    )
}

/// The deviation of `p`, seen from the target of a walk with `a` pixels to go
/// along x and `b` along y.
proof fn lemma_deviation_from_target(
    x1: int,
    y1: int,
    x2: int,
    y2: int,
    p: (int, int),
    a: int,
    b: int,
)
    requires
        between(x1, p.0, x2),
        between(y1, p.1, y2),
        a == span(p.0, x2),
        b == span(p.1, y2),
    ensures
        deviation(x1, y1, x2, y2, p) == b * span(x1, x2) - a * span(y1, y2) || deviation(
            x1,
            y1,
            x2,
            y2,
            p,
        ) == a * span(y1, y2) - b * span(x1, x2),
{
    let dx = span(x1, x2) as int;
    let dy = span(y1, y2) as int;
    let gx = x2 - x1;
    let gy = y2 - y1;
    let rx = x2 - p.0;
    let ry = y2 - p.1;
    assert(deviation(x1, y1, x2, y2, p) == (gx - rx) * gy - (gy - ry) * gx);
    assert((gx - rx) * gy - (gy - ry) * gx == ry * gx - rx * gy) by (nonlinear_arith);
    if x1 <= x2 {
        assert(gx == dx && rx == a);
        if y1 <= y2 {
            assert(gy == dy && ry == b);
        } else {
            assert(gy == -dy && ry == -b);
            assert((-b) * dx - a * (-dy) == a * dy - b * dx) by (nonlinear_arith);
        }
    } else {
        assert(gx == -dx && rx == -a);
        if y1 <= y2 {
            assert(gy == dy && ry == b);
            assert(b * (-dx) - (-a) * dy == a * dy - b * dx) by (nonlinear_arith);
        } else {
            assert(gy == -dy && ry == -b);
            assert((-b) * (-dx) - (-a) * (-dy) == b * dx - a * dy) by (nonlinear_arith);
        }
    }
}

proof fn lemma_walk_is_path(
    x1: int,
    y1: int,
    x: int,
    y: int,
    err: int,
    x2: int,
    y2: int,
    i: int,
    j: int,
    fuel: nat,
)
    requires
        on_track(x, y, err, x2, y2, span(x1, x2), span(y1, y2), i, j),
        between(x1, x, x2),
        between(y1, y, y2),
        fuel >= (span(x1, x2) - i) + (span(y1, y2) - j),
    ensures
        is_path(walk(x, y, err, x2, y2, span(x1, x2), span(y1, y2), fuel), (x, y), (x2, y2)),
        span(x1, x2) >= span(y1, y2) ==> walk(x, y, err, x2, y2, span(x1, x2), span(y1, y2), fuel).len()
            == span(x1, x2) - i + 1,
        span(x1, x2) < span(y1, y2) ==> walk(x, y, err, x2, y2, span(x1, x2), span(y1, y2), fuel).len()
            == span(y1, y2) - j + 1,
        forall|k: int|
            0 <= k < walk(x, y, err, x2, y2, span(x1, x2), span(y1, y2), fuel).len() ==> near_segment(
                x1,
                y1,
                x2,
                y2,
                #[trigger] walk(x, y, err, x2, y2, span(x1, x2), span(y1, y2), fuel)[k],
            ),
    decreases fuel,
{
    let dx = span(x1, x2);
    let dy = span(y1, y2);
    let w = walk(x, y, err, x2, y2, dx, dy, fuel);
    assert(near_segment(x1, y1, x2, y2, (x, y))) by {
        lemma_deviation_from_target(x1, y1, x2, y2, (x, y), dx - i, dy - j);
        assert((dy - j) * dx - (dx - i) * dy == i * dy - j * dx) by (nonlinear_arith);
        assert((dx - i) * dy - (dy - j) * dx == j * dx - i * dy) by (nonlinear_arith);
        assert((j + 1) * dx - (i + 1) * dy == j * dx - i * dy + dx - dy) by (nonlinear_arith);
    }
    if x == x2 && y == y2 {
        assert(w =~= seq![(x, y)]);
    } else {
        lemma_move(x, y, err, x2, y2, dx, dy, i, j);
        let move_x = 2 * err >= -dy;
        let move_y = 2 * err <= dx;
        let nx = if move_x {
            x + toward(x, x2)
        } else {
            x
        };
        let ny = if move_y {
            y + toward(y, y2)
        } else {
            y
        };
        let nerr = err - (if move_x {
            dy as int
        } else {
            0
        }) + (if move_y {
            dx as int
        } else {
            0
        });
        let ni = if move_x {
            i + 1
        } else {
            i
        };
        let nj = if move_y {
            j + 1
        } else {
            j
        };
        let rest = walk(nx, ny, nerr, x2, y2, dx, dy, (fuel - 1) as nat);
        lemma_walk_is_path(x1, y1, nx, ny, nerr, x2, y2, ni, nj, (fuel - 1) as nat);
        assert(w =~= seq![(x, y)] + rest);
        assert(w[0] == (x, y));
        assert(w.last() == rest.last());
        assert forall|k: int| 0 <= k < w.len() - 1 implies adjacent(#[trigger] w[k], w[k + 1]) by {
            if k == 0 {
                assert(w[1] == rest[0]);
            } else {
                assert(w[k] == rest[k - 1]);
                assert(w[k + 1] == rest[k - 1 + 1]);
            }
        }
        assert forall|k: int| 0 <= k < w.len() implies between(x, (#[trigger] w[k]).0, x2) && between(
            y,
            w[k].1,
            y2,
        ) by {
            if k > 0 {
                assert(w[k] == rest[k - 1]);
            }
        }
        assert forall|k: int| 0 <= k < w.len() implies near_segment(x1, y1, x2, y2, #[trigger] w[k]) by {
            if k > 0 {
                assert(w[k] == rest[k - 1]);
            }
        }
    }
}

/// The pixels of a segment form an unbroken path from its first end to its
/// second, inside the rectangle that the ends span. There is one pixel for
/// each step along the longer span, and each lies within half a pixel of the
/// ideal segment.
pub proof fn lemma_line_is_path(x1: int, y1: int, x2: int, y2: int)
    ensures
        is_path(line_points(x1, y1, x2, y2), (x1, y1), (x2, y2)),
        line_points(x1, y1, x2, y2).len() == longer(span(x1, x2), span(y1, y2)) + 1,
        forall|k: int|
            0 <= k < line_points(x1, y1, x2, y2).len() ==> near_segment(
                x1,
                y1,
                x2,
                y2,
                #[trigger] line_points(x1, y1, x2, y2)[k],
            ),
{
    let dx = span(x1, x2);
    let dy = span(y1, y2);
    assert((0 + 1) * dx - (0 + 1) * dy == dx - dy) by (nonlinear_arith);
    lemma_walk_is_path(x1, y1, x1, y1, dx - dy, x2, y2, 0, 0, dx + dy);
}

} // verus!
