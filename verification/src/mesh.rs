//! The index topology of a procedurally generated UV sphere.
//!
//! A sphere mesh with `rings` latitude divisions and `sectors` longitude
//! divisions has one north-pole vertex, `rings - 1` rings of `sectors + 1`
//! vertices each (the seam vertex repeated), and one south-pole vertex. Its
//! triangles are a north cap fanned from the pole, two triangles per quad
//! between consecutive rings, and a south cap. The vertex positions and
//! normals are trigonometric and belong to the surrounding application; the
//! index stream below is pure integer logic, and `sphere_indices` is proved to
//! produce exactly it, with every index naming a vertex.

use vstd::prelude::*;

verus! {

/// Vertices of the sphere: both poles plus `rings - 1` rings of `sectors + 1`
/// vertices.
pub open spec fn sphere_vertex_count(rings: int, sectors: int) -> int {
    (rings - 1) * (sectors + 1) + 2
}

/// Triangles of the sphere: `sectors` in each cap and `2 * sectors` per quad
/// row between consecutive rings.
pub open spec fn sphere_triangle_count(rings: int, sectors: int) -> int {
    2 * sectors * (rings - 1)
}

/// An index stream read as mathematical integers.
pub open spec fn as_ints(s: Seq<u32>) -> Seq<int> {
    s.map_values(|v: u32| v as int)
}

/// The first `s` triangles of the north cap: triangle `k` fans from the pole
/// (vertex 0) to the first ring's vertices `1 + k` and `2 + k`.
pub open spec fn north_cap_indices(s: int) -> Seq<int>
    decreases s,
{
    if s <= 0 {
        Seq::empty()
    } else {
        north_cap_indices(s - 1) + seq![0, s, s + 1]
    }
}

/// The two triangles of quad `s` in quad row `r`, between ring `r` and ring
/// `r + 1`.
pub open spec fn quad_indices(sectors: int, r: int, s: int) -> Seq<int> {
    let current = 1 + r * (sectors + 1) + s;
    let next = current + sectors + 1;
    seq![current, next, current + 1, current + 1, next, next + 1]
}

/// The first `s` quads of quad row `r`.
pub open spec fn quad_row_indices(sectors: int, r: int, s: int) -> Seq<int>
    decreases s,
{
    if s <= 0 {
        Seq::empty()
    } else {
        quad_row_indices(sectors, r, s - 1) + quad_indices(sectors, r, s - 1)
    }
}

/// The first `r` full quad rows.
pub open spec fn quad_rows_indices(sectors: int, r: int) -> Seq<int>
    decreases r,
{
    if r <= 0 {
        Seq::empty()
    } else {
        quad_rows_indices(sectors, r - 1) + quad_row_indices(sectors, r - 1, sectors)
    }
}

/// The first `s` triangles of the south cap: triangle `k` fans from the south
/// pole (the last vertex) to the last ring's vertices `k` and `k + 1`.
pub open spec fn south_cap_indices(rings: int, sectors: int, s: int) -> Seq<int>
    decreases s,
{
    if s <= 0 {
        Seq::empty()
    } else {
        let south = sphere_vertex_count(rings, sectors) - 1;
        let start = south - (sectors + 1);
        south_cap_indices(rings, sectors, s - 1) + seq![start + (s - 1), south, start + s]
    }
}

/// The whole index stream of the sphere: north cap, all quad rows, south cap.
pub open spec fn sphere_index_seq(rings: int, sectors: int) -> Seq<int> {
    north_cap_indices(sectors) + quad_rows_indices(sectors, rings - 2) + south_cap_indices(
        rings,
        sectors,
        sectors,
    )
}

/// Builds the index stream of a UV sphere with the given divisions: exactly
/// `sphere_index_seq`, three indices per triangle, and every index below the
/// vertex count, so every triangle of the stream is rasterizable.
pub fn sphere_indices(rings: u32, sectors: u32) -> (indices: Vec<u32>)
    requires
        rings >= 2,
        sectors >= 1,
        sphere_vertex_count(rings as int, sectors as int) <= u32::MAX,
    ensures
        as_ints(indices@) == sphere_index_seq(rings as int, sectors as int),
        indices@.len() == 3 * sphere_triangle_count(rings as int, sectors as int),
        forall|k: int|
            0 <= k < indices@.len() ==> (indices@[k] as int) < sphere_vertex_count(
                rings as int,
                sectors as int,
            ),
{
    let ghost ri = rings as int;
    let ghost si = sectors as int;
    let ghost vci = sphere_vertex_count(ri, si);
    proof {
        assert(si + 1 + 2 <= vci) by (nonlinear_arith)
            requires
                vci == (ri - 1) * (si + 1) + 2,
                ri >= 2,
                si >= 1,
        ;
    }
    let sp1 = sectors + 1;
    let vc = (rings - 1) * sp1 + 2;
    let mut indices: Vec<u32> = Vec::new();

    // North cap.
    let mut s: u32 = 0;
    while s < sectors
        invariant
            s <= sectors,
            sectors >= 1,
            vci == sphere_vertex_count(ri, si),
            vci <= u32::MAX,
            si == sectors as int,
            si + 3 <= vci,
            as_ints(indices@) == north_cap_indices(s as int),
            forall|k: int| 0 <= k < indices@.len() ==> (indices@[k] as int) < vci,
        decreases sectors - s,
    {
        indices.push(0);
        indices.push(1 + s);
        indices.push(2 + s);
        proof {
            assert(as_ints(indices@) =~= north_cap_indices(s as int) + seq![
                0int,
                s as int + 1,
                s as int + 2,
            ]);
        }
        s = s + 1;
    }

    // Quad rows between consecutive rings.
    let ghost north_done = as_ints(indices@);
    let mut r: u32 = 0;
    while r < rings - 2
        invariant
            r <= rings - 2,
            rings >= 2,
            sectors >= 1,
            ri == rings as int,
            si == sectors as int,
            sp1 == sectors + 1,
            vci == sphere_vertex_count(ri, si),
            vci <= u32::MAX,
            north_done == north_cap_indices(si),
            as_ints(indices@) == north_done + quad_rows_indices(si, r as int),
            forall|k: int| 0 <= k < indices@.len() ==> (indices@[k] as int) < vci,
        decreases rings - 2 - r,
    {
        let mut s2: u32 = 0;
        while s2 < sectors
            invariant
                s2 <= sectors,
                r < rings - 2,
                rings >= 2,
                sectors >= 1,
                ri == rings as int,
                si == sectors as int,
                sp1 == sectors + 1,
                vci == sphere_vertex_count(ri, si),
                vci <= u32::MAX,
                north_done == north_cap_indices(si),
                as_ints(indices@) == north_done + quad_rows_indices(si, r as int)
                    + quad_row_indices(si, r as int, s2 as int),
                forall|k: int| 0 <= k < indices@.len() ==> (indices@[k] as int) < vci,
            decreases sectors - s2,
        {
            proof {
                assert((r as int) * (sp1 as int) + (sp1 as int) + (s2 as int) + 2 < vci)
                    by (nonlinear_arith)
                    requires
                        vci == (ri - 1) * (sp1 as int) + 2,
                        sp1 as int == si + 1,
                        0 <= r as int <= ri - 3,
                        0 <= s2 as int <= si - 1,
                        ri >= 2,
                        si >= 1,
                ;
            }
            let current = 1 + r * sp1 + s2;
            let next = current + sp1;
            indices.push(current);
            indices.push(next);
            indices.push(current + 1);
            indices.push(current + 1);
            indices.push(next);
            indices.push(next + 1);
            proof {
                assert(as_ints(indices@) =~= north_done + quad_rows_indices(si, r as int)
                    + quad_row_indices(si, r as int, s2 as int) + quad_indices(
                    si,
                    r as int,
                    s2 as int,
                ));
                assert(north_done + quad_rows_indices(si, r as int) + (quad_row_indices(
                    si,
                    r as int,
                    s2 as int,
                ) + quad_indices(si, r as int, s2 as int)) =~= north_done + quad_rows_indices(
                    si,
                    r as int,
                ) + quad_row_indices(si, r as int, s2 as int) + quad_indices(
                    si,
                    r as int,
                    s2 as int,
                ));
            }
            s2 = s2 + 1;
        }
        proof {
            assert(north_done + (quad_rows_indices(si, r as int) + quad_row_indices(
                si,
                r as int,
                si,
            )) =~= north_done + quad_rows_indices(si, r as int) + quad_row_indices(
                si,
                r as int,
                si,
            ));
        }
        r = r + 1;
    }

    // South cap.
    let ghost middle_done = as_ints(indices@);
    proof {
        assert((ri - 1) * (sp1 as int) + 1 > sp1 as int) by (nonlinear_arith)
            requires
                ri >= 2,
                sp1 as int == si + 1,
                si >= 1,
        ;
    }
    let south = vc - 1;
    let start = south - sp1;
    let mut s3: u32 = 0;
    while s3 < sectors
        invariant
            s3 <= sectors,
            rings >= 2,
            sectors >= 1,
            ri == rings as int,
            si == sectors as int,
            sp1 == sectors + 1,
            vci == sphere_vertex_count(ri, si),
            vci <= u32::MAX,
            south as int == vci - 1,
            start as int == vci - 1 - (si + 1),
            start as int >= 0,
            middle_done == north_cap_indices(si) + quad_rows_indices(si, ri - 2),
            as_ints(indices@) == middle_done + south_cap_indices(ri, si, s3 as int),
            forall|k: int| 0 <= k < indices@.len() ==> (indices@[k] as int) < vci,
        decreases sectors - s3,
    {
        indices.push(start + s3);
        indices.push(south);
        indices.push(start + s3 + 1);
        proof {
            assert(as_ints(indices@) =~= middle_done + south_cap_indices(ri, si, s3 as int)
                + seq![start as int + s3 as int, vci - 1, start as int + s3 as int + 1]);
            assert(middle_done + (south_cap_indices(ri, si, s3 as int) + seq![
                start as int + s3 as int,
                vci - 1,
                start as int + s3 as int + 1,
            ]) =~= middle_done + south_cap_indices(ri, si, s3 as int) + seq![
                start as int + s3 as int,
                vci - 1,
                start as int + s3 as int + 1,
            ]);
        }
        s3 = s3 + 1;
    }
    proof {
        assert(as_ints(indices@) =~= sphere_index_seq(ri, si));
        lemma_sphere_index_seq_len(ri, si);
        assert(indices@.len() == as_ints(indices@).len());
    }
    indices
}

/// The north cap holds three indices per triangle.
pub proof fn lemma_north_cap_len(s: int)
    requires
        s >= 0,
    ensures
        north_cap_indices(s).len() == 3 * s,
    decreases s,
{
    if s > 0 {
        lemma_north_cap_len(s - 1);
    }
}

/// A quad row holds six indices per quad.
pub proof fn lemma_quad_row_len(sectors: int, r: int, s: int)
    requires
        s >= 0,
    ensures
        quad_row_indices(sectors, r, s).len() == 6 * s,
    decreases s,
{
    if s > 0 {
        lemma_quad_row_len(sectors, r, s - 1);
    }
}

/// The quad rows together hold six indices per quad, `sectors` quads per row.
pub proof fn lemma_quad_rows_len(sectors: int, r: int)
    requires
        r >= 0,
        sectors >= 0,
    ensures
        quad_rows_indices(sectors, r).len() == 6 * sectors * r,
    decreases r,
{
    if r > 0 {
        lemma_quad_rows_len(sectors, r - 1);
        lemma_quad_row_len(sectors, r - 1, sectors);
        assert(6 * sectors * (r - 1) + 6 * sectors == 6 * sectors * r) by (nonlinear_arith);
    } else {
        assert(6 * sectors * r == 0) by (nonlinear_arith)
            requires
                r == 0,
        ;
    }
}

/// The south cap holds three indices per triangle.
pub proof fn lemma_south_cap_len(rings: int, sectors: int, s: int)
    requires
        s >= 0,
    ensures
        south_cap_indices(rings, sectors, s).len() == 3 * s,
    decreases s,
{
    if s > 0 {
        lemma_south_cap_len(rings, sectors, s - 1);
    }
}

/// The sphere's index stream holds three indices for each of its triangles:
/// `sectors` triangles per cap and `2 * sectors` per quad row.
pub proof fn lemma_sphere_index_seq_len(rings: int, sectors: int)
    requires
        rings >= 2,
        sectors >= 0,
    ensures
        sphere_index_seq(rings, sectors).len() == 3 * sphere_triangle_count(rings, sectors),
{
    lemma_north_cap_len(sectors);
    lemma_quad_rows_len(sectors, rings - 2);
    lemma_south_cap_len(rings, sectors, sectors);
    assert(3 * sectors + 6 * sectors * (rings - 2) + 3 * sectors == 3 * (2 * sectors * (rings
        - 1))) by (nonlinear_arith);
}

} // verus!
