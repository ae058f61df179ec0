//! Perlin-style procedural noise: three permutations of the byte range and
//! a table of random scalars, fixed at construction, sampled by trilinear
//! interpolation over the surrounding lattice corners.

use vstd::prelude::*;
use crate::fixed::{FP_ONE, in_fp, tdiv, fp_add, fp_mul, fp_sub, add_fp, mul_fp, sub_fp, floor_fp, fract_fp, emod_e};
use crate::vec3::{Vec3, V3, v_in_fp};
use crate::rng::{Rng, rng_fp, rng_next, rng_after};

verus! {

pub const POINT_COUNT: usize = 256;

/// The noise tables: well-formed when each holds 256 entries and every
/// scalar lies in `[0, FP_ONE)`.
pub struct Perlin {
    pub ranfloat: Vec<i64>,
    pub perm_x: Vec<u8>,
    pub perm_y: Vec<u8>,
    pub perm_z: Vec<u8>,
}

pub open spec fn perlin_wf(pn: Perlin) -> bool {
    &&& pn.ranfloat@.len() == 256
    &&& pn.perm_x@.len() == 256
    &&& pn.perm_y@.len() == 256
    &&& pn.perm_z@.len() == 256
    &&& forall|i: int| 0 <= i < 256 ==> 0 <= #[trigger] pn.ranfloat@[i] < FP_ONE
}

/// The scalar of the lattice corner `(i, j, k)`: the tables are indexed
/// toroidally and combined by exclusive or.
pub open spec fn corner_val(pn: Perlin, i: int, j: int, k: int) -> int {
    pn.ranfloat@[(pn.perm_x@[i % 256] ^ pn.perm_y@[j % 256] ^ pn.perm_z@[k % 256]) as int] as int
}

/// The interpolation weight of one axis: the fractional offset on the high
/// side, its complement on the low side.
pub open spec fn lerp_w(side: int, f: int) -> int {
    if side == 1 {
        f
    } else {
        fp_sub(FP_ONE as int, f)
    }
}

/// One corner's contribution to the trilinear sum.
pub open spec fn corner_term(pn: Perlin, i: int, j: int, k: int, u: int, v: int, w: int, di: int, dj: int, dk: int) -> int {
    fp_mul(
        fp_mul(fp_mul(lerp_w(di, u), lerp_w(dj, v)), lerp_w(dk, w)),
        corner_val(pn, i + di, j + dj, k + dk),
    )
}

/// The noise value at a point: the trilinear blend of the eight corners
/// around its lattice cell, in the fixed corner order of the evaluation
/// loop.
pub open spec fn perlin_noise(pn: Perlin, pt: V3) -> int {
    let u = pt.x % (FP_ONE as int);
    let v = pt.y % (FP_ONE as int);
    let w = pt.z % (FP_ONE as int);
    let i = pt.x / (FP_ONE as int);
    let j = pt.y / (FP_ONE as int);
    let k = pt.z / (FP_ONE as int);
    fp_add(
        fp_add(
            fp_add(
                fp_add(
                    fp_add(
                        fp_add(
                            fp_add(
                                corner_term(pn, i, j, k, u, v, w, 0, 0, 0),
                                corner_term(pn, i, j, k, u, v, w, 0, 0, 1),
                            ),
                            corner_term(pn, i, j, k, u, v, w, 0, 1, 0),
                        ),
                        corner_term(pn, i, j, k, u, v, w, 0, 1, 1),
                    ),
                    corner_term(pn, i, j, k, u, v, w, 1, 0, 0),
                ),
                corner_term(pn, i, j, k, u, v, w, 1, 0, 1),
            ),
            corner_term(pn, i, j, k, u, v, w, 1, 1, 0),
        ),
        corner_term(pn, i, j, k, u, v, w, 1, 1, 1),
    )
}

/// The plain-lattice noise variant: the corner scalar of the cell the
/// point falls in at four cells per unit, with no smoothing. The smoothed
/// `noise` is what the noise texture samples.
pub open spec fn lattice_noise_of(pn: Perlin, pt: V3) -> int {
    corner_val(
        pn,
        fp_mul(pt.x, 4 * FP_ONE) / (FP_ONE as int),
        fp_mul(pt.y, 4 * FP_ONE) / (FP_ONE as int),
        fp_mul(pt.z, 4 * FP_ONE) / (FP_ONE as int),
    )
}

/// A product of factors that are at most one cannot grow a nonnegative
/// fixed-point scalar.
proof fn lemma_fp_mul_shrinks(a: int, b: int)
    requires
        0 <= a,
        0 <= b <= FP_ONE,
    ensures
        0 <= fp_mul(a, b) <= a,
{
    assert(0 <= a * b <= a * FP_ONE) by (nonlinear_arith)
        requires
            0 <= a,
            0 <= b <= FP_ONE,
    ;
    vstd::arithmetic::div_mod::lemma_div_pos_is_pos(a * b, FP_ONE as int);
    vstd::arithmetic::div_mod::lemma_div_is_ordered(a * b, a * FP_ONE, FP_ONE as int);
    vstd::arithmetic::div_mod::lemma_div_by_multiple(a, FP_ONE as int);
    assert(a * FP_ONE == FP_ONE as int * a) by (nonlinear_arith);
}

/// One corner term lies in `[0, FP_ONE)` when the tables are well formed.
proof fn lemma_term_range(pn: Perlin, i: int, j: int, k: int, u: int, v: int, w: int, di: int, dj: int, dk: int)
    requires
        perlin_wf(pn),
        0 <= u < FP_ONE,
        0 <= v < FP_ONE,
        0 <= w < FP_ONE,
    ensures
        0 <= corner_term(pn, i, j, k, u, v, w, di, dj, dk) < FP_ONE,
{
    let wu = lerp_w(di, u);
    let wv = lerp_w(dj, v);
    let ww = lerp_w(dk, w);
    let c = corner_val(pn, i + di, j + dj, k + dk);
    assert(0 <= wu <= FP_ONE);
    assert(0 <= wv <= FP_ONE);
    assert(0 <= ww <= FP_ONE);
    lemma_fp_mul_shrinks(wu, wv);
    lemma_fp_mul_shrinks(fp_mul(wu, wv), ww);
    lemma_fp_mul_shrinks(fp_mul(fp_mul(wu, wv), ww), c);
    assert(0 <= c < FP_ONE);
    lemma_fp_mul_shrinks(c, fp_mul(fp_mul(wu, wv), ww));
    assert(fp_mul(fp_mul(fp_mul(wu, wv), ww), c) == fp_mul(c, fp_mul(fp_mul(wu, wv), ww))) by {
        assert(fp_mul(fp_mul(wu, wv), ww) * c == c * (fp_mul(fp_mul(wu, wv), ww))) by (nonlinear_arith);
    }
}

/// The identity table over the byte range.
pub open spec fn ident_bytes() -> Seq<u8> {
    Seq::new(256, |i: int| i as u8)
}

/// A table holding every byte value exactly once.
pub open spec fn is_byte_perm(s: Seq<u8>) -> bool {
    s.len() == 256 && s.to_multiset() == ident_bytes().to_multiset()
}

/// All three index tables of the noise hold permutations of the byte
/// range.
pub open spec fn perlin_perms_ok(pn: Perlin) -> bool {
    is_byte_perm(pn.perm_x@) && is_byte_perm(pn.perm_y@) && is_byte_perm(pn.perm_z@)
}

/// The Fisher-Yates shuffle of the first `i` entries, as the executable
/// loop performs it: swap the last unshuffled slot with a drawn target,
/// then shrink, threading the generator state.
pub open spec fn shuffle_fold(p: Seq<u8>, i: int, st: u64) -> (Seq<u8>, u64)
    decreases i,
{
    if i <= 1 {
        (p, st)
    } else {
        let i1 = i - 1;
        let ti = rng_fp(st) % i;
        let p2 = p.update(i1, p[ti]).update(ti, p[i1]);
        shuffle_fold(p2, i1, rng_next(st))
    }
}

/// The permutation table drawn from state `st`.
pub open spec fn perm_draw(st: u64) -> (Seq<u8>, u64) {
    shuffle_fold(ident_bytes(), 256, st)
}

/// Swapping two entries of a table preserves its multiset of values.
proof fn lemma_swap_multiset(p: Seq<u8>, a: int, b: int)
    requires
        0 <= a < p.len(),
        0 <= b < p.len(),
    ensures
        p.update(a, p[b]).update(b, p[a]).to_multiset() == p.to_multiset(),
{
    let p2 = p.update(a, p[b]);
    let p3 = p2.update(b, p[a]);
    vstd::seq_lib::to_multiset_update(p, a, p[b]);
    vstd::seq_lib::to_multiset_update(p2, b, p[a]);
    assert(p.contains(p[a]));
    assert(p.contains(p[b]));
    p.to_multiset_ensures();
    p2.to_multiset_ensures();
    assert(p2[b] == p[b]);
    assert(p3.to_multiset() =~= p.to_multiset());
}

/// The shuffle keeps the length and the multiset of values, and never
/// touches entries at or beyond its bound.
pub proof fn lemma_shuffle_props(p: Seq<u8>, i: int, st: u64)
    requires
        i <= p.len(),
    ensures
        ({
            let r = shuffle_fold(p, i, st);
            &&& r.0.len() == p.len()
            &&& r.0.to_multiset() == p.to_multiset()
            &&& forall|k: int| i <= k < p.len() ==> r.0[k] == p[k]
        }),
    decreases i,
{
    if i > 1 {
        let i1 = i - 1;
        let ti = rng_fp(st) % i;
        assert(0 <= ti < i);
        let p2 = p.update(i1, p[ti]).update(ti, p[i1]);
        lemma_swap_multiset(p, i1, ti);
        lemma_shuffle_props(p2, i1, rng_next(st));
        let r = shuffle_fold(p, i, st);
        assert(r == shuffle_fold(p2, i1, rng_next(st)));
        assert(p2.len() == p.len());
        assert forall|k: int| i <= k < p.len() implies r.0[k] == p[k] by {
            assert(p2[k] == p[k]);
        }
    }
}

impl Perlin {
    /// Fresh tables drawn from the generator: 256 random scalars, each the
    /// fraction of one consecutive draw, and three independent
    /// permutations of the byte range; the whole construction is a
    /// function of the seed state.
    pub fn new(rng: &mut Rng) -> (pn: Perlin)
        ensures
            perlin_wf(pn),
            perlin_perms_ok(pn),
            forall|i: int|
                0 <= i < 256 ==> #[trigger] pn.ranfloat@[i] as int == rng_fp(
                    rng_after(old(rng).state, i),
                ),
            ({
                let s1 = rng_after(old(rng).state, 256);
                let px = perm_draw(s1);
                let py = perm_draw(px.1);
                let pz = perm_draw(py.1);
                &&& pn.perm_x@ == px.0
                &&& pn.perm_y@ == py.0
                &&& pn.perm_z@ == pz.0
                &&& final(rng).state == pz.1
            }),
    {
        let mut ranfloat: Vec<i64> = Vec::new();
        let mut n: usize = 0;
        while n < POINT_COUNT
            invariant
                ranfloat@.len() == n,
                n <= 256,
                forall|i: int| 0 <= i < n ==> 0 <= #[trigger] ranfloat@[i] < FP_ONE,
                forall|i: int|
                    0 <= i < n ==> #[trigger] ranfloat@[i] as int == rng_fp(
                        rng_after(old(rng).state, i),
                    ),
                rng.state == rng_after(old(rng).state, n as int),
            decreases 256 - n,
        {
            proof {
                assert(rng_after(old(rng).state, n as int + 1) == rng_next(
                    rng_after(old(rng).state, n as int),
                ));
            }
            ranfloat.push(rng.next_fp());
            n = n + 1;
        }
        let perm_x = Perlin::perlin_generate_perm(rng);
        let perm_y = Perlin::perlin_generate_perm(rng);
        let perm_z = Perlin::perlin_generate_perm(rng);

        Perlin { ranfloat, perm_x, perm_y, perm_z }
    }

    /// A shuffle of the identity table over the byte range: the result
    /// holds every byte value exactly once.
    pub fn perlin_generate_perm(rng: &mut Rng) -> (p: Vec<u8>)
        ensures
            p@.len() == 256,
            (p@, final(rng).state) == perm_draw(old(rng).state),
            is_byte_perm(p@),
    {
        let mut p: Vec<u8> = Vec::new();
        let mut n: usize = 0;
        while n < POINT_COUNT
            invariant
                p@.len() == n,
                n <= 256,
                forall|k: int| 0 <= k < n ==> p@[k] == k as u8,
            decreases 256 - n,
        {
            p.push(n as u8);
            n = n + 1;
        }
        proof {
            assert(p@ =~= ident_bytes());
        }
        Perlin::permute(&mut p, POINT_COUNT, rng);
        proof {
            lemma_shuffle_props(ident_bytes(), 256, old(rng).state);
        }
        p
    }

    /// Fisher-Yates shuffle of the first `n` entries, drawing each target
    /// from the generator: the values are only rearranged, entries beyond
    /// `n` stay as they were.
    pub fn permute(p: &mut Vec<u8>, n: usize, rng: &mut Rng)
        requires
            n <= old(p)@.len(),
        ensures
            final(p)@.len() == old(p)@.len(),
            (final(p)@, final(rng).state) == shuffle_fold(old(p)@, n as int, old(rng).state),
            final(p)@.to_multiset() == old(p)@.to_multiset(),
            forall|k: int| n <= k < old(p)@.len() ==> final(p)@[k] == old(p)@[k],
    {
        let mut i: usize = n;
        while i > 1
            invariant
                p@.len() == old(p)@.len(),
                i <= n <= p@.len(),
                shuffle_fold(old(p)@, n as int, old(rng).state) == shuffle_fold(
                    p@,
                    i as int,
                    rng.state,
                ),
            decreases i,
        {
            i = i - 1;
            let ti = rng.next_index(i + 1);
            let tmp = p[i];
            let tv = p[ti];
            p.set(i, tv);
            p.set(ti, tmp);
        }
        proof {
            lemma_shuffle_props(old(p)@, n as int, old(rng).state);
        }
    }

    /// The nearest-corner lookup of the plain-lattice variant.
    pub fn lattice_noise(&self, p: &Vec3) -> (r: i64)
        requires
            perlin_wf(*self),
            v_in_fp(p@),
        ensures
            r as int == lattice_noise_of(*self, p@),
            0 <= r < FP_ONE,
    {
        let i = floor_fp(mul_fp(p.x, 4 * FP_ONE));
        let j = floor_fp(mul_fp(p.y, 4 * FP_ONE));
        let k = floor_fp(mul_fp(p.z, 4 * FP_ONE));
        self.corner_e(i, j, k)
    }

    /// The scalar at one lattice corner.
    fn corner_e(&self, i: i64, j: i64, k: i64) -> (r: i64)
        requires
            perlin_wf(*self),
            in_fp(i as int),
            in_fp(j as int),
            in_fp(k as int),
        ensures
            r as int == corner_val(*self, i as int, j as int, k as int),
            0 <= r < FP_ONE,
    {
        let xi = emod_e(i, 256) as usize;
        let yi = emod_e(j, 256) as usize;
        let zi = emod_e(k, 256) as usize;
        let idx = (self.perm_x[xi] ^ self.perm_y[yi] ^ self.perm_z[zi]) as usize;
        self.ranfloat[idx]
    }

    /// One corner's contribution to the trilinear blend.
    fn term_e(&self, i: i64, j: i64, k: i64, wu: i64, wv: i64, ww: i64) -> (r: i64)
        requires
            perlin_wf(*self),
            in_fp(i as int),
            in_fp(j as int),
            in_fp(k as int),
        ensures
            r as int == fp_mul(
                fp_mul(fp_mul(wu as int, wv as int), ww as int),
                corner_val(*self, i as int, j as int, k as int),
            ),
    {
        let c = self.corner_e(i, j, k);
        mul_fp(mul_fp(mul_fp(wu, wv), ww), c)
    }

    /// The noise value at a point: deterministic for fixed tables, and
    /// always inside `[0, 8 * FP_ONE)`.
    pub fn noise(&self, p: &Vec3) -> (r: i64)
        requires
            perlin_wf(*self),
            v_in_fp(p@),
        ensures
            r as int == perlin_noise(*self, p@),
            0 <= r < FP_ONE,
    {
        let u = fract_fp(p.x);
        let v = fract_fp(p.y);
        let w = fract_fp(p.z);
        let i = floor_fp(p.x);
        let j = floor_fp(p.y);
        let k = floor_fp(p.z);
        let gu = sub_fp(FP_ONE, u);
        let gv = sub_fp(FP_ONE, v);
        let gw = sub_fp(FP_ONE, w);
        let t000 = self.term_e(i, j, k, gu, gv, gw);
        let t001 = self.term_e(i, j, k + 1, gu, gv, w);
        let t010 = self.term_e(i, j + 1, k, gu, v, gw);
        let t011 = self.term_e(i, j + 1, k + 1, gu, v, w);
        let t100 = self.term_e(i + 1, j, k, u, gv, gw);
        let t101 = self.term_e(i + 1, j, k + 1, u, gv, w);
        let t110 = self.term_e(i + 1, j + 1, k, u, v, gw);
        let t111 = self.term_e(i + 1, j + 1, k + 1, u, v, w);
        proof {
            lemma_noise_terms(*self, i as int, j as int, k as int, u as int, v as int, w as int);
            lemma_noise_range(*self, p@);
        }
        add_fp(
            add_fp(
                add_fp(add_fp(add_fp(add_fp(add_fp(t000, t001), t010), t011), t100), t101),
                t110,
            ),
            t111,
        )
    }
}

/// All eight corner terms of a cell lie in `[0, FP_ONE)`.
proof fn lemma_noise_terms(pn: Perlin, i: int, j: int, k: int, u: int, v: int, w: int)
    requires
        perlin_wf(pn),
        0 <= u < FP_ONE,
        0 <= v < FP_ONE,
        0 <= w < FP_ONE,
    ensures
        forall|di: int, dj: int, dk: int|
            0 <= #[trigger] corner_term(pn, i, j, k, u, v, w, di, dj, dk) < FP_ONE,
{
    assert forall|di: int, dj: int, dk: int|
        0 <= #[trigger] corner_term(pn, i, j, k, u, v, w, di, dj, dk) < FP_ONE by {
        lemma_term_range(pn, i, j, k, u, v, w, di, dj, dk);
    }
}

/// A truncated fixed-point product of nonnegative factors undershoots the
/// exact product.
proof fn lemma_fp_mul_floor(a: int, b: int)
    requires
        0 <= a,
        0 <= b,
    ensures
        0 <= fp_mul(a, b),
        FP_ONE as int * fp_mul(a, b) <= a * b,
{
    assert(a * b >= 0) by (nonlinear_arith)
        requires
            0 <= a,
            0 <= b,
    ;
    assert(tdiv(a * b, FP_ONE as int) == (a * b) / (FP_ONE as int));
    vstd::arithmetic::div_mod::lemma_div_pos_is_pos(a * b, FP_ONE as int);
    vstd::arithmetic::div_mod::lemma_fundamental_div_mod(a * b, FP_ONE as int);
}

/// Adding two scaled-bound inequalities keeps the scaled bound.
proof fn lemma_sum_step(acc: int, t: int, k: int, accp: int, tp: int, sm1: int)
    by (nonlinear_arith)
    requires
        acc * k <= accp * sm1,
        t * k <= tp * sm1,
    ensures
        (acc + t) * k <= (accp + tp) * sm1,
{
}

/// One corner term scaled back up three times stays below the weight
/// product times the largest table entry.
proof fn lemma_term_tight(pn: Perlin, i: int, j: int, k: int, u: int, v: int, w: int, di: int, dj: int, dk: int)
    requires
        perlin_wf(pn),
        0 <= u < FP_ONE,
        0 <= v < FP_ONE,
        0 <= w < FP_ONE,
    ensures
        0 <= corner_term(pn, i, j, k, u, v, w, di, dj, dk),
        corner_term(pn, i, j, k, u, v, w, di, dj, dk) * (FP_ONE as int * FP_ONE as int * FP_ONE as int)
            <= lerp_w(di, u) * lerp_w(dj, v) * lerp_w(dk, w) * (FP_ONE - 1),
{
    let s = FP_ONE as int;
    let wu = lerp_w(di, u);
    let wv = lerp_w(dj, v);
    let ww = lerp_w(dk, w);
    let c = corner_val(pn, i + di, j + dj, k + dk);
    let t1 = fp_mul(wu, wv);
    let t2 = fp_mul(t1, ww);
    let em = fp_mul(t2, c);
    lemma_fp_mul_floor(wu, wv);
    lemma_fp_mul_floor(t1, ww);
    lemma_fp_mul_floor(t2, c);
    assert(0 <= c <= s - 1);
    assert(em * (s * s * s) <= wu * wv * ww * (s - 1)) by (nonlinear_arith)
        requires
            s == 65536,
            0 <= wu,
            0 <= wv,
            0 <= ww,
            0 <= c <= s - 1,
            0 <= t1,
            0 <= t2,
            0 <= em,
            s * t1 <= wu * wv,
            s * t2 <= t1 * ww,
            s * em <= t2 * c,
    ;
}

/// The trilinear blend of table entries below one stays below one: the
/// eight weight products sum exactly to one.
pub proof fn lemma_noise_range(pn: Perlin, pt: V3)
    requires
        perlin_wf(pn),
    ensures
        0 <= perlin_noise(pn, pt) < FP_ONE,
{
    let s = FP_ONE as int;
    let u = pt.x % s;
    let v = pt.y % s;
    let w = pt.z % s;
    let i = pt.x / s;
    let j = pt.y / s;
    let k = pt.z / s;
    assert(0 <= u < s && 0 <= v < s && 0 <= w < s);
    let gu = fp_sub(s, u);
    let gv = fp_sub(s, v);
    let gw = fp_sub(s, w);
    assert(gu == s - u && gv == s - v && gw == s - w);
    let t000 = corner_term(pn, i, j, k, u, v, w, 0, 0, 0);
    let t001 = corner_term(pn, i, j, k, u, v, w, 0, 0, 1);
    let t010 = corner_term(pn, i, j, k, u, v, w, 0, 1, 0);
    let t011 = corner_term(pn, i, j, k, u, v, w, 0, 1, 1);
    let t100 = corner_term(pn, i, j, k, u, v, w, 1, 0, 0);
    let t101 = corner_term(pn, i, j, k, u, v, w, 1, 0, 1);
    let t110 = corner_term(pn, i, j, k, u, v, w, 1, 1, 0);
    let t111 = corner_term(pn, i, j, k, u, v, w, 1, 1, 1);
    lemma_term_tight(pn, i, j, k, u, v, w, 0, 0, 0);
    lemma_term_tight(pn, i, j, k, u, v, w, 0, 0, 1);
    lemma_term_tight(pn, i, j, k, u, v, w, 0, 1, 0);
    lemma_term_tight(pn, i, j, k, u, v, w, 0, 1, 1);
    lemma_term_tight(pn, i, j, k, u, v, w, 1, 0, 0);
    lemma_term_tight(pn, i, j, k, u, v, w, 1, 0, 1);
    lemma_term_tight(pn, i, j, k, u, v, w, 1, 1, 0);
    lemma_term_tight(pn, i, j, k, u, v, w, 1, 1, 1);
    lemma_term_range(pn, i, j, k, u, v, w, 0, 0, 0);
    lemma_term_range(pn, i, j, k, u, v, w, 0, 0, 1);
    lemma_term_range(pn, i, j, k, u, v, w, 0, 1, 0);
    lemma_term_range(pn, i, j, k, u, v, w, 0, 1, 1);
    lemma_term_range(pn, i, j, k, u, v, w, 1, 0, 0);
    lemma_term_range(pn, i, j, k, u, v, w, 1, 0, 1);
    lemma_term_range(pn, i, j, k, u, v, w, 1, 1, 0);
    lemma_term_range(pn, i, j, k, u, v, w, 1, 1, 1);
    let total = t000 + t001 + t010 + t011 + t100 + t101 + t110 + t111;
    let kk = s * s * s;
    lemma_sum_step(t000, t001, kk, gu * gv * gw, gu * gv * w, s - 1);
    lemma_sum_step(t000 + t001, t010, kk, gu * gv * gw + gu * gv * w, gu * v * gw, s - 1);
    lemma_sum_step(
        t000 + t001 + t010,
        t011,
        kk,
        gu * gv * gw + gu * gv * w + gu * v * gw,
        gu * v * w,
        s - 1,
    );
    lemma_sum_step(
        t000 + t001 + t010 + t011,
        t100,
        kk,
        gu * gv * gw + gu * gv * w + gu * v * gw + gu * v * w,
        u * gv * gw,
        s - 1,
    );
    lemma_sum_step(
        t000 + t001 + t010 + t011 + t100,
        t101,
        kk,
        gu * gv * gw + gu * gv * w + gu * v * gw + gu * v * w + u * gv * gw,
        u * gv * w,
        s - 1,
    );
    lemma_sum_step(
        t000 + t001 + t010 + t011 + t100 + t101,
        t110,
        kk,
        gu * gv * gw + gu * gv * w + gu * v * gw + gu * v * w + u * gv * gw + u * gv * w,
        u * v * gw,
        s - 1,
    );
    lemma_sum_step(
        t000 + t001 + t010 + t011 + t100 + t101 + t110,
        t111,
        kk,
        gu * gv * gw + gu * gv * w + gu * v * gw + gu * v * w + u * gv * gw + u * gv * w + u * v
            * gw,
        u * v * w,
        s - 1,
    );
    assert(gu * gv * gw + gu * gv * w == gu * gv * s) by (nonlinear_arith)
        requires
            gw + w == s,
    ;
    assert(gu * v * gw + gu * v * w == gu * v * s) by (nonlinear_arith)
        requires
            gw + w == s,
    ;
    assert(u * gv * gw + u * gv * w == u * gv * s) by (nonlinear_arith)
        requires
            gw + w == s,
    ;
    assert(u * v * gw + u * v * w == u * v * s) by (nonlinear_arith)
        requires
            gw + w == s,
    ;
    assert(gu * gv * s + gu * v * s == gu * s * s) by (nonlinear_arith)
        requires
            gv + v == s,
    ;
    assert(u * gv * s + u * v * s == u * s * s) by (nonlinear_arith)
        requires
            gv + v == s,
    ;
    assert(gu * s * s + u * s * s == s * s * s) by (nonlinear_arith)
        requires
            gu + u == s,
    ;
    assert(total * kk <= kk * (s - 1)) by (nonlinear_arith)
        requires
            total * kk <= (gu * gv * gw + gu * gv * w + gu * v * gw + gu * v * w + u * gv * gw + u
                * gv * w + u * v * gw + u * v * w) * (s - 1),
            gu * gv * gw + gu * gv * w + gu * v * gw + gu * v * w + u * gv * gw + u * gv * w + u
                * v * gw + u * v * w == kk,
    ;
    assert(total <= s - 1) by (nonlinear_arith)
        requires
            total * kk <= kk * (s - 1),
            kk == 65536 * 65536 * 65536,
    ;
}

} // verus!
