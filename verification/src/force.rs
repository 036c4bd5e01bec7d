//! Integer arithmetic for the force-directed layout step.
//!
//! One step moves every point by a displacement computed from the current
//! points alone: every pair of nodes repels, nodes joined by an edge attract,
//! and the resulting motion is scaled by the time-step and damped by the
//! cool-off factor. All arithmetic is exact integer fixed-point: time-step
//! and cool-off are thousandths, distances are capped, and accumulators
//! saturate, so a step is total and never overflows.

use vstd::prelude::*;

use crate::fgraph::Pos2;

verus! {

/// Cap on the distance value used inside the force formulas.
pub const DIST_CAP: i128 = 1000000;

/// Cap on the magnitude of a single force term.
pub const TERM_CAP: i128 = 19342813113834066795298816;

/// Cap on the magnitude of a force accumulator.
pub const ACC_CAP: i128 = 1267650600228229401496703205376;

/// Configuration of the layout force, as consumed by one step.
/// `dt_milli` is the time-step and `cooloff_milli` the damping factor, both
/// in thousandths; `scale` is the ideal spacing between connected nodes.
#[derive(Clone, Copy, PartialEq, Eq, Structural, Debug)]
pub struct LayoutForce {
    pub dt_milli: u32,
    pub cooloff_milli: u32,
    pub scale: u32,
}

impl LayoutForce {
    /// The parameter ranges under which a step is defined.
    pub open spec fn wf(self) -> bool {
        &&& 1 <= self.dt_milli <= 1000
        &&& 1 <= self.cooloff_milli <= 1000
        &&& 1 <= self.scale <= 1000
    }
}

pub open spec fn clamp_spec(v: int, lo: int, hi: int) -> int {
    if v < lo {
        lo
    } else if v > hi {
        hi
    } else {
        v
    }
}

pub open spec fn abs_spec(v: int) -> int {
    if v < 0 {
        -v
    } else {
        v
    }
}

/// Division truncating toward zero, as the machine's signed division does.
pub open spec fn tdiv_spec(a: int, b: int) -> int
    recommends
        b > 0,
{
    if a >= 0 {
        a / b
    } else {
        -((-a) / b)
    }
}

/// The distance value used by the force formulas: the L1 distance of the
/// two displacement components, kept at least 1 and at most `DIST_CAP`.
pub open spec fn dist_spec(dx: int, dy: int) -> int {
    clamp_spec(abs_spec(dx) + abs_spec(dy), 1, DIST_CAP as int)
}

/// Saturate an accumulator at `ACC_CAP`.
pub open spec fn sat_spec(v: int) -> int {
    clamp_spec(v, -(ACC_CAP as int), ACC_CAP as int)
}

/// Repulsion exerted on `p` by `q`: magnitude `scale^2 / d` away from `q`,
/// expressed per component and truncated to integers.
pub open spec fn rep_term_spec(p: Pos2, q: Pos2, scale: int) -> (int, int) {
    let dx = p.x - q.x;
    let dy = p.y - q.y;
    let d = dist_spec(dx, dy);
    (tdiv_spec(dx * scale * scale, d * d), tdiv_spec(dy * scale * scale, d * d))
}

/// Attraction pulling `p` toward `q`: magnitude `d^2 / scale` toward `q`,
/// expressed per component and truncated to integers.
pub open spec fn att_term_spec(p: Pos2, q: Pos2, scale: int) -> (int, int) {
    let dx = q.x - p.x;
    let dy = q.y - p.y;
    let d = dist_spec(dx, dy);
    (tdiv_spec(dx * d, scale), tdiv_spec(dy * d, scale))
}

/// Repulsion accumulated on node `i` from the first `k` nodes, skipping
/// `i` itself, each addition saturated.
pub open spec fn rep_acc_spec(points: Seq<Pos2>, i: int, scale: int, k: int) -> (int, int)
    decreases k,
{
    if k <= 0 {
        (0, 0)
    } else {
        let prev = rep_acc_spec(points, i, scale, k - 1);
        if k - 1 == i {
            prev
        } else {
            let t = rep_term_spec(points[i], points[k - 1], scale);
            (sat_spec(prev.0 + t.0), sat_spec(prev.1 + t.1))
        }
    }
}

/// Force accumulated on node `i`: repulsion from every other node, then
/// attraction along the first `k` edges, each addition saturated. An edge
/// pulls each of its endpoints toward the other.
pub open spec fn force_acc_spec(
    points: Seq<Pos2>,
    edges: Seq<(usize, usize)>,
    i: int,
    scale: int,
    k: int,
) -> (int, int)
    decreases k,
{
    if k <= 0 {
        rep_acc_spec(points, i, scale, points.len() as int)
    } else {
        let prev = force_acc_spec(points, edges, i, scale, k - 1);
        let e = edges[k - 1];
        let a = if e.0 == i {
            let t = att_term_spec(points[i], points[e.1 as int], scale);
            (sat_spec(prev.0 + t.0), sat_spec(prev.1 + t.1))
        } else {
            prev
        };
        if e.1 == i {
            let t = att_term_spec(points[i], points[e.0 as int], scale);
            (sat_spec(a.0 + t.0), sat_spec(a.1 + t.1))
        } else {
            a
        }
    }
}

/// The displacement of node `i` in one step: the accumulated force scaled
/// by the time-step and the cool-off factor, both in thousandths.
pub open spec fn displacement_spec(
    points: Seq<Pos2>,
    edges: Seq<(usize, usize)>,
    f: LayoutForce,
    i: int,
) -> (int, int) {
    let a = force_acc_spec(points, edges, i, f.scale as int, edges.len() as int);
    (
        tdiv_spec(a.0 * f.dt_milli as int * f.cooloff_milli as int, 1000000),
        tdiv_spec(a.1 * f.dt_milli as int * f.cooloff_milli as int, 1000000),
    )
}

/// Where node `i` stands after one step, its new coordinates clamped to
/// the representable range.
pub open spec fn step_point_spec(
    points: Seq<Pos2>,
    edges: Seq<(usize, usize)>,
    f: LayoutForce,
    i: int,
) -> Pos2 {
    let d = displacement_spec(points, edges, f, i);
    Pos2 {
        x: clamp_spec(points[i].x + d.0, i64::MIN as int, i64::MAX as int) as i64,
        y: clamp_spec(points[i].y + d.1, i64::MIN as int, i64::MAX as int) as i64,
    }
}

/// All points after one step.
pub open spec fn step_points_spec(
    points: Seq<Pos2>,
    edges: Seq<(usize, usize)>,
    f: LayoutForce,
) -> Seq<Pos2> {
    Seq::new(points.len(), |i: int| step_point_spec(points, edges, f, i))
}

/// `|a * b| <= bound_a * bound_b` whenever the factors are bounded.
proof fn lemma_mul_bound(a: int, b: int, bound_a: int, bound_b: int)
    by (nonlinear_arith)
    requires
        abs_spec(a) <= bound_a,
        abs_spec(b) <= bound_b,
    ensures
        abs_spec(a * b) <= bound_a * bound_b,
{
}

/// Truncating division never grows the magnitude when the divisor is at
/// least one.
proof fn lemma_tdiv_bound(a: int, b: int)
    by (nonlinear_arith)
    requires
        b >= 1,
    ensures
        abs_spec(tdiv_spec(a, b)) <= abs_spec(a),
        a >= 0 ==> 0 <= tdiv_spec(a, b) <= a,
        a < 0 ==> a <= tdiv_spec(a, b) <= 0,
{
}

/// A square of a positive value is positive.
proof fn lemma_square_ge_one(d: int)
    by (nonlinear_arith)
    requires
        d >= 1,
    ensures
        d * d >= 1,
{
}

/// Truncating division, computed through unsigned division.
fn tdiv_i128(a: i128, b: i128) -> (r: i128)
    requires
        b > 0,
        a != i128::MIN,
    ensures
        r as int == tdiv_spec(a as int, b as int),
{
    if a >= 0 {
        let q: u128 = (a as u128) / (b as u128);
        q as i128
    } else {
        let q: u128 = ((-a) as u128) / (b as u128);
        proof {
            lemma_tdiv_bound(-(a as int), b as int);
        }
        -(q as i128)
    }
}

/// Clamp a wide value into the `i64` range.
pub(crate) fn clamp_to_i64(v: i128) -> (r: i64)
    ensures
        r as int == clamp_spec(v as int, i64::MIN as int, i64::MAX as int),
{
    if v < i64::MIN as i128 {
        i64::MIN
    } else if v > i64::MAX as i128 {
        i64::MAX
    } else {
        v as i64
    }
}

/// Add a bounded term into a saturating accumulator.
fn sat_add(acc: i128, term: i128) -> (r: i128)
    requires
        abs_spec(acc as int) <= ACC_CAP as int,
        abs_spec(term as int) <= TERM_CAP as int,
    ensures
        r as int == sat_spec(acc as int + term as int),
        abs_spec(r as int) <= ACC_CAP as int,
{
    let s: i128 = acc + term;
    if s < -ACC_CAP {
        -ACC_CAP
    } else if s > ACC_CAP {
        ACC_CAP
    } else {
        s
    }
}

/// The capped L1 distance of a displacement.
fn dist_exec(dx: i128, dy: i128) -> (d: i128)
    requires
        abs_spec(dx as int) < 18446744073709551616,
        abs_spec(dy as int) < 18446744073709551616,
    ensures
        d as int == dist_spec(dx as int, dy as int),
        1 <= d <= DIST_CAP,
{
    let ax: i128 = if dx < 0 {
        -dx
    } else {
        dx
    };
    let ay: i128 = if dy < 0 {
        -dy
    } else {
        dy
    };
    let l1: i128 = ax + ay;
    if l1 < 1 {
        1
    } else if l1 > DIST_CAP {
        DIST_CAP
    } else {
        l1
    }
}

/// One repulsion term, exactly as `rep_term_spec` states it.
fn rep_term_exec(p: Pos2, q: Pos2, scale: u32) -> (r: (i128, i128))
    requires
        1 <= scale <= 1000,
    ensures
        (r.0 as int, r.1 as int) == rep_term_spec(p, q, scale as int),
        abs_spec(r.0 as int) <= TERM_CAP as int,
        abs_spec(r.1 as int) <= TERM_CAP as int,
{
    let dx: i128 = p.x as i128 - q.x as i128;
    let dy: i128 = p.y as i128 - q.y as i128;
    let d: i128 = dist_exec(dx, dy);
    let s: i128 = scale as i128;
    proof {
        lemma_mul_bound(dx as int, s as int, 18446744073709551616int, 1000);
        lemma_mul_bound(dx as int * s as int, s as int, 18446744073709551616int * 1000, 1000);
        lemma_mul_bound(dy as int, s as int, 18446744073709551616int, 1000);
        lemma_mul_bound(dy as int * s as int, s as int, 18446744073709551616int * 1000, 1000);
        lemma_mul_bound(d as int, d as int, DIST_CAP as int, DIST_CAP as int);
        lemma_square_ge_one(d as int);
        lemma_tdiv_bound(dx as int * s as int * s as int, d as int * d as int);
        lemma_tdiv_bound(dy as int * s as int * s as int, d as int * d as int);
    }
    let den: i128 = d * d;
    (tdiv_i128(dx * s * s, den), tdiv_i128(dy * s * s, den))
}

/// One attraction term, exactly as `att_term_spec` states it.
fn att_term_exec(p: Pos2, q: Pos2, scale: u32) -> (r: (i128, i128))
    requires
        1 <= scale <= 1000,
    ensures
        (r.0 as int, r.1 as int) == att_term_spec(p, q, scale as int),
        abs_spec(r.0 as int) <= TERM_CAP as int,
        abs_spec(r.1 as int) <= TERM_CAP as int,
{
    let dx: i128 = q.x as i128 - p.x as i128;
    let dy: i128 = q.y as i128 - p.y as i128;
    let d: i128 = dist_exec(dx, dy);
    let s: i128 = scale as i128;
    proof {
        lemma_mul_bound(dx as int, d as int, 18446744073709551616int, DIST_CAP as int);
        lemma_mul_bound(dy as int, d as int, 18446744073709551616int, DIST_CAP as int);
        lemma_tdiv_bound(dx as int * d as int, s as int);
        lemma_tdiv_bound(dy as int * d as int, s as int);
    }
    (tdiv_i128(dx * d, s), tdiv_i128(dy * d, s))
}

/// The new position of node `i` after one step.
fn step_point_exec(
    points: &Vec<Pos2>,
    edges: &Vec<(usize, usize)>,
    f: &LayoutForce,
    i: usize,
) -> (r: Pos2)
    requires
        f.wf(),
        i < points.len(),
        forall|k: int|
            0 <= k < edges@.len() ==> (#[trigger] edges@[k]).0 < points@.len() && edges@[k].1
                < points@.len(),
    ensures
        r == step_point_spec(points@, edges@, *f, i as int),
{
    let n: usize = points.len();
    let m: usize = edges.len();
    let p: Pos2 = points[i];
    let mut ax: i128 = 0;
    let mut ay: i128 = 0;
    for j in 0..n
        invariant
            i < points.len() == n,
            f.wf(),
            (ax as int, ay as int) == rep_acc_spec(points@, i as int, f.scale as int, j as int),
            abs_spec(ax as int) <= ACC_CAP as int,
            abs_spec(ay as int) <= ACC_CAP as int,
            p == points@[i as int],
    {
        if j != i {
            let t: (i128, i128) = rep_term_exec(p, points[j], f.scale);
            ax = sat_add(ax, t.0);
            ay = sat_add(ay, t.1);
        }
    }
    for k in 0..m
        invariant
            i < points.len() == n,
            m == edges.len(),
            f.wf(),
            forall|e: int|
                0 <= e < edges@.len() ==> (#[trigger] edges@[e]).0 < points@.len() && edges@[e].1
                    < points@.len(),
            (ax as int, ay as int) == force_acc_spec(
                points@,
                edges@,
                i as int,
                f.scale as int,
                k as int,
            ),
            abs_spec(ax as int) <= ACC_CAP as int,
            abs_spec(ay as int) <= ACC_CAP as int,
            p == points@[i as int],
    {
        let e: (usize, usize) = edges[k];
        if e.0 == i {
            let t: (i128, i128) = att_term_exec(p, points[e.1], f.scale);
            ax = sat_add(ax, t.0);
            ay = sat_add(ay, t.1);
        }
        if e.1 == i {
            let t: (i128, i128) = att_term_exec(p, points[e.0], f.scale);
            ax = sat_add(ax, t.0);
            ay = sat_add(ay, t.1);
        }
    }
    let dt: i128 = f.dt_milli as i128;
    let co: i128 = f.cooloff_milli as i128;
    proof {
        lemma_mul_bound(ax as int, dt as int, ACC_CAP as int, 1000);
        lemma_mul_bound(ax as int * dt as int, co as int, ACC_CAP as int * 1000, 1000);
        lemma_mul_bound(ay as int, dt as int, ACC_CAP as int, 1000);
        lemma_mul_bound(ay as int * dt as int, co as int, ACC_CAP as int * 1000, 1000);
        lemma_tdiv_bound(ax as int * dt as int * co as int, 1000000);
        lemma_tdiv_bound(ay as int * dt as int * co as int, 1000000);
    }
    let mx: i128 = tdiv_i128(ax * dt * co, 1000000);
    let my: i128 = tdiv_i128(ay * dt * co, 1000000);
    Pos2 { x: clamp_to_i64(p.x as i128 + mx), y: clamp_to_i64(p.y as i128 + my) }
}

/// One full layout step: every point moves by the force the current points
/// exert on it, as `step_points_spec` states.
pub fn step_points_exec(
    points: &Vec<Pos2>,
    edges: &Vec<(usize, usize)>,
    f: &LayoutForce,
) -> (r: Vec<Pos2>)
    requires
        f.wf(),
        forall|k: int|
            0 <= k < edges@.len() ==> (#[trigger] edges@[k]).0 < points@.len() && edges@[k].1
                < points@.len(),
    ensures
        r@ == step_points_spec(points@, edges@, *f),
{
    let n: usize = points.len();
    let mut out: Vec<Pos2> = Vec::new();
    for i in 0..n
        invariant
            n == points.len(),
            f.wf(),
            forall|k: int|
                0 <= k < edges@.len() ==> (#[trigger] edges@[k]).0 < points@.len() && edges@[k].1
                    < points@.len(),
            out@.len() == i,
            forall|j: int|
                0 <= j < i ==> out@[j] == step_point_spec(points@, edges@, *f, j),
    {
        let q: Pos2 = step_point_exec(points, edges, f, i);
        out.push(q);
    }
    proof {
        assert(out@ =~= step_points_spec(points@, edges@, *f));
    }
    out
}

} // verus!
