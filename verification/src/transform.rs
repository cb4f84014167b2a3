//! Affine transforms over fixed-point integers, and the algebra that
//! justifies the overlay walk: nesting emitted group matrices composes them,
//! and composition agrees with applying the factors one after the other.
//!
//! A stored `Transform` holds its linear entries in milliunits (1000 is the
//! identity ratio) and its translation in millipoints. The spec-level
//! `Affine` form is the corresponding integer matrix in homogeneous
//! coordinates: linear entries as stored, translations multiplied by the
//! scale, and the scale itself as the homogeneous weight, so that every
//! product below is exact integer arithmetic.

use vstd::prelude::*;

verus! {

/// Fixed-point denominator: one unit is 1000 thousandths.
pub const SCALE: i64 = 1000;

/// A stored affine transform: `x' = (sx/1000)x + (kx/1000)y + tx`,
/// `y' = (ky/1000)x + (sy/1000)y + ty`, translations in millipoints.
#[derive(Clone, Copy, PartialEq, Eq, Structural, Debug)]
pub struct Transform {
    pub sx: i64,
    pub ky: i64,
    pub kx: i64,
    pub sy: i64,
    pub tx: i64,
    pub ty: i64,
}

/// An exact integer affine matrix in homogeneous coordinates:
/// `[[sx, kx, tx], [ky, sy, ty], [0, 0, w]]`.
#[verifier::ext_equal]
pub struct Affine {
    pub sx: int,
    pub ky: int,
    pub kx: int,
    pub sy: int,
    pub tx: int,
    pub ty: int,
    pub w: int,
}

/// A point in homogeneous coordinates: the plane point `(x/w, y/w)`.
#[verifier::ext_equal]
pub struct HPoint {
    pub x: int,
    pub y: int,
    pub w: int,
}

/// The exact matrix a stored transform stands for.
pub open spec fn affine_of(t: Transform) -> Affine {
    Affine {
        sx: t.sx as int,
        ky: t.ky as int,
        kx: t.kx as int,
        sy: t.sy as int,
        tx: (SCALE as int) * (t.tx as int),
        ty: (SCALE as int) * (t.ty as int),
        w: SCALE as int,
    }
}

/// Matrix product of two affine maps: `compose(a, b)` applies `b` first.
pub open spec fn compose(a: Affine, b: Affine) -> Affine {
    Affine {
        sx: a.sx * b.sx + a.kx * b.ky,
        ky: a.ky * b.sx + a.sy * b.ky,
        kx: a.sx * b.kx + a.kx * b.sy,
        sy: a.ky * b.kx + a.sy * b.sy,
        tx: a.sx * b.tx + a.kx * b.ty + a.tx * b.w,
        ty: a.ky * b.tx + a.sy * b.ty + a.ty * b.w,
        w: a.w * b.w,
    }
}

/// Apply an affine map to a homogeneous point.
pub open spec fn apply(t: Affine, p: HPoint) -> HPoint {
    HPoint {
        x: t.sx * p.x + t.kx * p.y + t.tx * p.w,
        y: t.ky * p.x + t.sy * p.y + t.ty * p.w,
        w: t.w * p.w,
    }
}

/// Every entry multiplied by `k`: the same map, homogeneously rescaled.
pub open spec fn scale_affine(k: int, t: Affine) -> Affine {
    Affine {
        sx: k * t.sx,
        ky: k * t.ky,
        kx: k * t.kx,
        sy: k * t.sy,
        tx: k * t.tx,
        ty: k * t.ty,
        w: k * t.w,
    }
}

/// Homogeneous rescaling of a point: the same plane point.
pub open spec fn scale_hpoint(k: int, p: HPoint) -> HPoint {
    HPoint { x: k * p.x, y: k * p.y, w: k * p.w }
}

/// The identity map.
pub open spec fn identity_affine() -> Affine {
    Affine { sx: 1, ky: 0, kx: 0, sy: 1, tx: 0, ty: 0, w: 1 }
}

/// Pure translation by `(x, y)` millipoints.
pub open spec fn translate_affine(x: int, y: int) -> Affine {
    Affine {
        sx: SCALE as int,
        ky: 0,
        kx: 0,
        sy: SCALE as int,
        tx: (SCALE as int) * x,
        ty: (SCALE as int) * y,
        w: SCALE as int,
    }
}

/// Applying a composed map is applying the factors one after the other:
/// matrix multiplication matches function composition exactly.
pub proof fn lemma_apply_compose(a: Affine, b: Affine, p: HPoint)
    ensures
        apply(compose(a, b), p) == apply(a, apply(b, p)),
{
    let q = apply(b, p);
    let c = compose(a, b);
    let r = apply(c, p);
    assert(q.x == b.sx * p.x + b.kx * p.y + b.tx * p.w);
    assert(q.y == b.ky * p.x + b.sy * p.y + b.ty * p.w);
    assert(q.w == b.w * p.w);
    assert(c.sx == a.sx * b.sx + a.kx * b.ky);
    assert(c.ky == a.ky * b.sx + a.sy * b.ky);
    assert(c.kx == a.sx * b.kx + a.kx * b.sy);
    assert(c.sy == a.ky * b.kx + a.sy * b.sy);
    assert(c.tx == a.sx * b.tx + a.kx * b.ty + a.tx * b.w);
    assert(c.ty == a.ky * b.tx + a.sy * b.ty + a.ty * b.w);
    assert(c.w == a.w * b.w);
    assert(r.x == c.sx * p.x + c.kx * p.y + c.tx * p.w);
    assert(r.y == c.ky * p.x + c.sy * p.y + c.ty * p.w);
    assert(r.w == c.w * p.w);
    vstd::arithmetic::mul::lemma_mul_is_distributive_add_other_way(p.x, a.sx * b.sx, a.kx * b.ky);
    vstd::arithmetic::mul::lemma_mul_is_distributive_add_other_way(p.y, a.sx * b.kx, a.kx * b.sy);
    vstd::arithmetic::mul::lemma_mul_is_distributive_add_other_way(
        p.w,
        a.sx * b.tx + a.kx * b.ty,
        a.tx * b.w,
    );
    vstd::arithmetic::mul::lemma_mul_is_distributive_add_other_way(p.w, a.sx * b.tx, a.kx * b.ty);
    vstd::arithmetic::mul::lemma_mul_is_associative(a.sx, b.sx, p.x);
    vstd::arithmetic::mul::lemma_mul_is_associative(a.kx, b.ky, p.x);
    vstd::arithmetic::mul::lemma_mul_is_associative(a.sx, b.kx, p.y);
    vstd::arithmetic::mul::lemma_mul_is_associative(a.kx, b.sy, p.y);
    vstd::arithmetic::mul::lemma_mul_is_associative(a.sx, b.tx, p.w);
    vstd::arithmetic::mul::lemma_mul_is_associative(a.kx, b.ty, p.w);
    vstd::arithmetic::mul::lemma_mul_is_associative(a.tx, b.w, p.w);
    vstd::arithmetic::mul::lemma_mul_is_distributive_add(a.sx, b.sx * p.x + b.kx * p.y, b.tx * p.w);
    vstd::arithmetic::mul::lemma_mul_is_distributive_add(a.sx, b.sx * p.x, b.kx * p.y);
    vstd::arithmetic::mul::lemma_mul_is_distributive_add(a.kx, b.ky * p.x + b.sy * p.y, b.ty * p.w);
    vstd::arithmetic::mul::lemma_mul_is_distributive_add(a.kx, b.ky * p.x, b.sy * p.y);
    assert(r.x == a.sx * q.x + a.kx * q.y + a.tx * q.w);
    vstd::arithmetic::mul::lemma_mul_is_distributive_add_other_way(p.x, a.ky * b.sx, a.sy * b.ky);
    vstd::arithmetic::mul::lemma_mul_is_distributive_add_other_way(p.y, a.ky * b.kx, a.sy * b.sy);
    vstd::arithmetic::mul::lemma_mul_is_distributive_add_other_way(
        p.w,
        a.ky * b.tx + a.sy * b.ty,
        a.ty * b.w,
    );
    vstd::arithmetic::mul::lemma_mul_is_distributive_add_other_way(p.w, a.ky * b.tx, a.sy * b.ty);
    vstd::arithmetic::mul::lemma_mul_is_associative(a.ky, b.sx, p.x);
    vstd::arithmetic::mul::lemma_mul_is_associative(a.sy, b.ky, p.x);
    vstd::arithmetic::mul::lemma_mul_is_associative(a.ky, b.kx, p.y);
    vstd::arithmetic::mul::lemma_mul_is_associative(a.sy, b.sy, p.y);
    vstd::arithmetic::mul::lemma_mul_is_associative(a.ky, b.tx, p.w);
    vstd::arithmetic::mul::lemma_mul_is_associative(a.sy, b.ty, p.w);
    vstd::arithmetic::mul::lemma_mul_is_associative(a.ty, b.w, p.w);
    vstd::arithmetic::mul::lemma_mul_is_distributive_add(a.ky, b.sx * p.x + b.kx * p.y, b.tx * p.w);
    vstd::arithmetic::mul::lemma_mul_is_distributive_add(a.ky, b.sx * p.x, b.kx * p.y);
    vstd::arithmetic::mul::lemma_mul_is_distributive_add(a.sy, b.ky * p.x + b.sy * p.y, b.ty * p.w);
    vstd::arithmetic::mul::lemma_mul_is_distributive_add(a.sy, b.ky * p.x, b.sy * p.y);
    assert(r.y == a.ky * q.x + a.sy * q.y + a.ty * q.w);
    vstd::arithmetic::mul::lemma_mul_is_associative(a.w, b.w, p.w);
    assert(r.w == a.w * q.w);
    assert(r =~= apply(a, q));
}

/// Product of a chain of maps, the first applied last.
pub open spec fn compose_all(ts: Seq<Affine>) -> Affine
    decreases ts.len(),
{
    if ts.len() == 0 {
        identity_affine()
    } else {
        compose(ts[0], compose_all(ts.skip(1)))
    }
}

/// Applying a chain of maps innermost first: the last map of the chain is
/// the one nearest the point.
pub open spec fn apply_chain(ts: Seq<Affine>, p: HPoint) -> HPoint
    decreases ts.len(),
{
    if ts.len() == 0 {
        p
    } else {
        apply(ts[0], apply_chain(ts.skip(1), p))
    }
}

/// An anchor carried through a chain of nested transforms equals the direct
/// matrix product of the same ordered factors applied once.
pub proof fn lemma_chain_is_product(ts: Seq<Affine>, p: HPoint)
    ensures
        apply(compose_all(ts), p) == apply_chain(ts, p),
    decreases ts.len(),
{
    if ts.len() == 0 {
        let idm = identity_affine();
        let q = apply(idm, p);
        assert(idm.sx == 1 && idm.ky == 0 && idm.kx == 0 && idm.sy == 1 && idm.tx == 0 && idm.ty
            == 0 && idm.w == 1);
        assert(q.x == idm.sx * p.x + idm.kx * p.y + idm.tx * p.w);
        assert(q.y == idm.ky * p.x + idm.sy * p.y + idm.ty * p.w);
        assert(q.w == idm.w * p.w);
        assert(q.x == 1 * p.x + 0 * p.y + 0 * p.w);
        assert(q.y == 0 * p.x + 1 * p.y + 0 * p.w);
        assert(q.w == 1 * p.w);
        assert(q.x == p.x);
        assert(q.y == p.y);
        assert(q.w == p.w);
        assert(q =~= p);
    } else {
        lemma_chain_is_product(ts.skip(1), p);
        lemma_apply_compose(ts[0], compose_all(ts.skip(1)), p);
    }
}

/// The matrix the overlay walk writes for a group at `(px, py)` with its own
/// transform `t`: the group transform with the position added to its
/// translation.
pub open spec fn spec_pre_translate(px: int, py: int, t: Transform) -> Affine {
    Affine {
        sx: t.sx as int,
        ky: t.ky as int,
        kx: t.kx as int,
        sy: t.sy as int,
        tx: (SCALE as int) * (t.tx as int + px),
        ty: (SCALE as int) * (t.ty as int + py),
        w: SCALE as int,
    }
}

/// The walk's group factor is exactly `translate(p)` composed with the
/// group's own transform, up to the canonical homogeneous rescaling.
pub proof fn lemma_group_factor(px: int, py: int, t: Transform)
    ensures
        compose(translate_affine(px, py), affine_of(t)) == scale_affine(
            SCALE as int,
            spec_pre_translate(px, py, t),
        ),
{
    let s = SCALE as int;
    let a = translate_affine(px, py);
    let b = affine_of(t);
    let c = compose(a, b);
    let r = scale_affine(s, spec_pre_translate(px, py, t));
    assert(a.sx == s && a.ky == 0 && a.kx == 0 && a.sy == s && a.tx == s * px && a.ty == s * py
        && a.w == s);
    assert(c.sx == s * (t.sx as int) + 0 * (t.ky as int));
    assert(c.ky == 0 * (t.sx as int) + s * (t.ky as int));
    assert(c.kx == s * (t.kx as int) + 0 * (t.sy as int));
    assert(c.sy == 0 * (t.kx as int) + s * (t.sy as int));
    assert(c.tx == s * (s * (t.tx as int)) + 0 * (s * (t.ty as int)) + (s * px) * s);
    assert(c.ty == 0 * (s * (t.tx as int)) + s * (s * (t.ty as int)) + (s * py) * s);
    assert(c.w == s * s);
    assert(r.sx == s * (t.sx as int) && r.ky == s * (t.ky as int) && r.kx == s * (t.kx as int)
        && r.sy == s * (t.sy as int) && r.w == s * s);
    assert(r.tx == s * (s * (t.tx as int + px)));
    assert(r.ty == s * (s * (t.ty as int + py)));
    vstd::arithmetic::mul::lemma_mul_is_distributive_add(s, t.tx as int, px);
    vstd::arithmetic::mul::lemma_mul_is_distributive_add(s, s * (t.tx as int), s * px);
    vstd::arithmetic::mul::lemma_mul_is_commutative(s * px, s);
    vstd::arithmetic::mul::lemma_mul_is_distributive_add(s, t.ty as int, py);
    vstd::arithmetic::mul::lemma_mul_is_distributive_add(s, s * (t.ty as int), s * py);
    vstd::arithmetic::mul::lemma_mul_is_commutative(s * py, s);
    assert(c =~= r);
}

/// Homogeneous rescaling of a map rescales every applied point
/// homogeneously: the plane point it stands for is unchanged.
pub proof fn lemma_scale_apply(k: int, t: Affine, p: HPoint)
    ensures
        apply(scale_affine(k, t), p) == scale_hpoint(k, apply(t, p)),
{
    let q = apply(t, p);
    let c = scale_affine(k, t);
    let r = apply(c, p);
    assert(c.sx == k * t.sx && c.ky == k * t.ky && c.kx == k * t.kx && c.sy == k * t.sy && c.tx
        == k * t.tx && c.ty == k * t.ty && c.w == k * t.w);
    assert(r.x == (k * t.sx) * p.x + (k * t.kx) * p.y + (k * t.tx) * p.w);
    assert(r.y == (k * t.ky) * p.x + (k * t.sy) * p.y + (k * t.ty) * p.w);
    assert(r.w == (k * t.w) * p.w);
    assert(q.x == t.sx * p.x + t.kx * p.y + t.tx * p.w);
    assert(q.y == t.ky * p.x + t.sy * p.y + t.ty * p.w);
    assert(q.w == t.w * p.w);
    vstd::arithmetic::mul::lemma_mul_is_associative(k, t.sx, p.x);
    vstd::arithmetic::mul::lemma_mul_is_associative(k, t.kx, p.y);
    vstd::arithmetic::mul::lemma_mul_is_associative(k, t.tx, p.w);
    vstd::arithmetic::mul::lemma_mul_is_distributive_add(k, t.sx * p.x + t.kx * p.y, t.tx * p.w);
    vstd::arithmetic::mul::lemma_mul_is_distributive_add(k, t.sx * p.x, t.kx * p.y);
    assert(r.x == k * q.x);
    vstd::arithmetic::mul::lemma_mul_is_associative(k, t.ky, p.x);
    vstd::arithmetic::mul::lemma_mul_is_associative(k, t.sy, p.y);
    vstd::arithmetic::mul::lemma_mul_is_associative(k, t.ty, p.w);
    vstd::arithmetic::mul::lemma_mul_is_distributive_add(k, t.ky * p.x + t.sy * p.y, t.ty * p.w);
    vstd::arithmetic::mul::lemma_mul_is_distributive_add(k, t.ky * p.x, t.sy * p.y);
    assert(r.y == k * q.y);
    vstd::arithmetic::mul::lemma_mul_is_associative(k, t.w, p.w);
    assert(r.w == k * q.w);
    assert(r =~= scale_hpoint(k, q));
}

/// Pure translation by `(x, y)` millipoints, as stored.
pub fn translate(x: i64, y: i64) -> (t: Transform)
    ensures
        affine_of(t) == translate_affine(x as int, y as int),
        t == (Transform { sx: SCALE, ky: 0, kx: 0, sy: SCALE, tx: x, ty: y }),
{
    Transform { sx: SCALE, ky: 0, kx: 0, sy: SCALE, tx: x, ty: y }
}

/// The vertical-axis inversion the overlay applies under every text item.
pub fn flip_y() -> (t: Transform)
    ensures
        t.sx == SCALE && t.ky == 0 && t.kx == 0 && t.sy == -(SCALE as int) && t.tx == 0 && t.ty
            == 0,
{
    Transform { sx: SCALE, ky: 0, kx: 0, sy: -SCALE, tx: 0, ty: 0 }
}

/// The group transform with a position folded into its translation: what the
/// walk emits for a group entered at `(px, py)`.
pub fn pre_translate(px: i64, py: i64, t: &Transform) -> (r: Transform)
    requires
        i64::MIN <= t.tx as int + px as int <= i64::MAX,
        i64::MIN <= t.ty as int + py as int <= i64::MAX,
    ensures
        affine_of(r) == spec_pre_translate(px as int, py as int, *t),
        r == (Transform {
            sx: t.sx,
            ky: t.ky,
            kx: t.kx,
            sy: t.sy,
            tx: (t.tx + px) as i64,
            ty: (t.ty + py) as i64,
        }),
{
    Transform { sx: t.sx, ky: t.ky, kx: t.kx, sy: t.sy, tx: t.tx + px, ty: t.ty + py }
}

} // verus!
