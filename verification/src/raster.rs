//! The verified half of the rasterization pipeline.
//!
//! The surrounding application transforms vertices and scans triangles with
//! floating-point math; what it hands this module are plain values. Two
//! decisions live here and are proved: which index triples of a mesh name a
//! triangle that may be rasterized at all (`valid_triangles`), and how a
//! stream of shaded fragments lands in the framebuffer through the depth test
//! (`draw_fragments`). On top of those sit the proofs that a draw changes
//! nothing when every triangle is malformed, that a draw into a cleared
//! framebuffer depends on nothing but the clear color, the dimensions and the
//! fragments, and that triangle submission order does not matter.

use vstd::prelude::*;

use crate::framebuffer::Color;
use crate::framebuffer::FbView;
use crate::framebuffer::Framebuffer;
use crate::framebuffer::lemma_write_order_independent;
use crate::framebuffer::lemma_written_wf;

verus! {

/// One covered pixel produced by scanning a triangle: its pixel coordinates,
/// its shaded color, and its interpolated depth code.
#[derive(Clone, Copy, Debug, PartialEq, Eq, Structural)]
pub struct Fragment {
    pub x: usize,
    pub y: usize,
    pub color: Color,
    pub depth: u32,
}

/// The framebuffer state after submitting the fragments in order, each through
/// the depth-tested write.
pub open spec fn drawn(v: FbView, fs: Seq<Fragment>) -> FbView
    decreases fs.len(),
{
    if fs.len() == 0 {
        v
    } else {
        drawn(v.written(fs[0].x as int, fs[0].y as int, fs[0].color, fs[0].depth), fs.drop_first())
    }
}

/// Submits every fragment in order through the framebuffer's depth-tested
/// write; out-of-bounds fragments are dropped silently and nearer fragments
/// win, exactly as `drawn` states.
pub fn draw_fragments(fb: &mut Framebuffer, fragments: &Vec<Fragment>)
    requires
        old(fb).wf(),
    ensures
        final(fb)@ == drawn(old(fb)@, fragments@),
        final(fb).wf(),
{
    let ghost orig = fb@;
    let mut i: usize = 0;
    proof {
        assert(fragments@.skip(0) =~= fragments@);
    }
    while i < fragments.len()
        invariant
            i <= fragments.len(),
            fb.wf(),
            drawn(orig, fragments@) == drawn(fb@, fragments@.skip(i as int)),
        decreases fragments.len() - i,
    {
        let f = fragments[i];
        proof {
            assert(fragments@.skip(i as int)[0] == fragments@[i as int]);
            assert(fragments@.skip(i as int).drop_first() =~= fragments@.skip(i as int + 1));
        }
        fb.set_pixel(f.x, f.y, f.color, f.depth);
        i = i + 1;
    }
    proof {
        assert(fragments@.skip(fragments@.len() as int) =~= Seq::<Fragment>::empty());
    }
}

/// Whether every index of the triple names a vertex, that is, lies below the
/// vertex count.
pub open spec fn triple_ok(t: (u32, u32, u32), n: int) -> bool {
    t.0 < n && t.1 < n && t.2 < n
}

/// The triangles of an index stream that may be rasterized: the consecutive
/// complete triples whose indices all lie below the vertex count, in stream
/// order. A trailing incomplete triple and every triple with an out-of-range
/// index are skipped silently.
pub open spec fn valid_triples(s: Seq<u32>, n: int) -> Seq<(u32, u32, u32)>
    decreases s.len(),
{
    if s.len() < 3 {
        Seq::empty()
    } else {
        let t = (s[0], s[1], s[2]);
        let rest = valid_triples(s.skip(3), n);
        if triple_ok(t, n) {
            seq![t] + rest
        } else {
            rest
        }
    }
}

/// Walks the index stream in consecutive triples and keeps exactly those whose
/// three indices all lie below `vertex_count`, in order.
pub fn valid_triangles(indices: &Vec<u32>, vertex_count: usize) -> (ts: Vec<(u32, u32, u32)>)
    ensures
        ts@ == valid_triples(indices@, vertex_count as int),
{
    let mut ts: Vec<(u32, u32, u32)> = Vec::new();
    let mut i: usize = 0;
    proof {
        assert(indices@.skip(0) =~= indices@);
        assert(ts@ + valid_triples(indices@, vertex_count as int) =~= valid_triples(
            indices@,
            vertex_count as int,
        ));
    }
    while indices.len() - i >= 3
        invariant
            i <= indices.len(),
            valid_triples(indices@, vertex_count as int) == ts@ + valid_triples(
                indices@.skip(i as int),
                vertex_count as int,
            ),
        decreases indices.len() - i,
    {
        let i0 = indices[i];
        let i1 = indices[i + 1];
        let i2 = indices[i + 2];
        let ghost pre = ts@;
        if (i0 as usize) < vertex_count && (i1 as usize) < vertex_count && (i2 as usize)
            < vertex_count {
            ts.push((i0, i1, i2));
        }
        proof {
            let n = vertex_count as int;
            let s = indices@.skip(i as int);
            assert(s[0] == indices@[i as int] && s[1] == indices@[i as int + 1] && s[2]
                == indices@[i as int + 2]);
            assert(s.skip(3) =~= indices@.skip(i as int + 3));
            if triple_ok((i0, i1, i2), n) {
                assert(ts@ =~= pre + seq![(i0, i1, i2)]);
                assert(pre + (seq![(i0, i1, i2)] + valid_triples(s.skip(3), n)) =~= ts@
                    + valid_triples(s.skip(3), n));
            }
        }
        i = i + 3;
    }
    proof {
        assert(ts@ + valid_triples(indices@.skip(i as int), vertex_count as int) =~= ts@);
    }
    ts
}

/// A mesh whose indices all lie at or above the vertex count yields no
/// triangle at all: every triple is skipped, so a draw call over it submits no
/// fragment and a pre-cleared framebuffer stays as cleared.
pub proof fn lemma_out_of_range_mesh_skipped(s: Seq<u32>, n: int)
    requires
        forall|k: int| 0 <= k < s.len() ==> s[k] >= n,
    ensures
        valid_triples(s, n) == Seq::<(u32, u32, u32)>::empty(),
    decreases s.len(),
{
    if s.len() >= 3 {
        assert(s[0] >= n);
        assert(forall|k: int| 0 <= k < s.skip(3).len() ==> s.skip(3)[k] >= n);
        lemma_out_of_range_mesh_skipped(s.skip(3), n);
    }
}

/// Drawing no fragments changes nothing.
pub proof fn lemma_drawn_empty(v: FbView)
    ensures
        drawn(v, Seq::<Fragment>::empty()) == v,
{
}

/// Rendering is a pure function of its inputs: drawing one fragment stream
/// into two independently cleared framebuffers of identical dimensions gives
/// identical results, whatever either framebuffer held before its clear.
pub proof fn lemma_draw_into_cleared_deterministic(
    v1: FbView,
    v2: FbView,
    c: Color,
    fs: Seq<Fragment>,
)
    requires
        v1.width == v2.width,
        v1.height == v2.height,
    ensures
        drawn(v1.cleared(c), fs) == drawn(v2.cleared(c), fs),
{
    assert(v1.cleared(c) =~= v2.cleared(c));
}

/// Two fragments interfere only when they hit the same pixel with the same
/// depth code; every other pair lands on the same final state in either order.
pub open spec fn compatible(f1: Fragment, f2: Fragment) -> bool {
    f1.x != f2.x || f1.y != f2.y || f1.depth != f2.depth
}

/// Splitting a fragment stream splits the draw.
pub proof fn lemma_drawn_append(v: FbView, a: Seq<Fragment>, b: Seq<Fragment>)
    ensures
        drawn(v, a + b) == drawn(drawn(v, a), b),
    decreases a.len(),
{
    if a.len() == 0 {
        assert(a + b =~= b);
    } else {
        let v1 = v.written(a[0].x as int, a[0].y as int, a[0].color, a[0].depth);
        assert((a + b)[0] == a[0]);
        assert((a + b).drop_first() =~= a.drop_first() + b);
        lemma_drawn_append(v1, a.drop_first(), b);
    }
}

/// A single fragment compatible with a whole stream can be submitted before
/// or after it, with the same final state.
pub proof fn lemma_drawn_one_commutes(v: FbView, f: Fragment, b: Seq<Fragment>)
    requires
        v.wf(),
        forall|j: int| 0 <= j < b.len() ==> compatible(f, b[j]),
    ensures
        drawn(v, b).written(f.x as int, f.y as int, f.color, f.depth) == drawn(
            v.written(f.x as int, f.y as int, f.color, f.depth),
            b,
        ),
    decreases b.len(),
{
    if b.len() > 0 {
        let g = b[0];
        lemma_write_order_independent(
            v,
            f.x as int,
            f.y as int,
            f.color,
            f.depth,
            g.x as int,
            g.y as int,
            g.color,
            g.depth,
        );
        lemma_written_wf(v, g.x as int, g.y as int, g.color, g.depth);
        lemma_drawn_one_commutes(
            v.written(g.x as int, g.y as int, g.color, g.depth),
            f,
            b.drop_first(),
        );
    }
}

/// Draw-order independence: two fragment streams that interfere nowhere (for
/// instance, two triangles whose covered pixels carry distinct depth codes
/// wherever they overlap) can be submitted in either order; the framebuffer
/// ends in the same state.
pub proof fn lemma_draw_order_independent(v: FbView, a: Seq<Fragment>, b: Seq<Fragment>)
    requires
        v.wf(),
        forall|i: int, j: int|
            0 <= i < a.len() && 0 <= j < b.len() ==> compatible(a[i], b[j]),
    ensures
        drawn(v, a + b) == drawn(v, b + a),
    decreases a.len(),
{
    if a.len() == 0 {
        assert(a + b =~= b);
        assert(b + a =~= b);
    } else {
        let f = a[0];
        let v1 = v.written(f.x as int, f.y as int, f.color, f.depth);
        assert((a + b)[0] == f);
        assert((a + b).drop_first() =~= a.drop_first() + b);
        lemma_written_wf(v, f.x as int, f.y as int, f.color, f.depth);
        assert(forall|i: int, j: int|
            0 <= i < a.drop_first().len() && 0 <= j < b.len() ==> compatible(
                a.drop_first()[i],
                b[j],
            ));
        lemma_draw_order_independent(v1, a.drop_first(), b);
        lemma_drawn_append(v1, b, a.drop_first());
        assert(forall|j: int| 0 <= j < b.len() ==> compatible(f, b[j]));
        lemma_drawn_one_commutes(v, f, b);
        lemma_drawn_append(v, b, a);
        assert((b + a).skip(b.len() as int) =~= a);
        assert(drawn(drawn(v, b), a) == drawn(
            drawn(v, b).written(f.x as int, f.y as int, f.color, f.depth),
            a.drop_first(),
        ));
    }
}

/// The same, in the shape the renderer uses: two draw calls over triangles
/// that interfere nowhere — say a far one and a near one, with distinct depth
/// codes wherever their covered pixels coincide — leave the framebuffer in the
/// same final state whichever is submitted first.
pub proof fn lemma_two_draws_commute(v: FbView, a: Seq<Fragment>, b: Seq<Fragment>)
    requires
        v.wf(),
        forall|i: int, j: int|
            0 <= i < a.len() && 0 <= j < b.len() ==> compatible(a[i], b[j]),
    ensures
        drawn(drawn(v, a), b) == drawn(drawn(v, b), a),
{
    lemma_drawn_append(v, a, b);
    lemma_drawn_append(v, b, a);
    lemma_draw_order_independent(v, a, b);
}

} // verus!
