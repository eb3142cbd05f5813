use vstd::prelude::*;

use crate::export::{TextPoint2, TextTriangle};
use crate::model::{Face, Tetrahedron};

verus! {

/// One `vertex` line of an ASCII STL facet, with the z coordinate fixed to
/// zero for planar input.
pub open spec fn spec_stl_vertex_line(p: TextPoint2) -> Seq<char> {
    "      vertex "@ + p.x@ + " "@ + p.y@ + " 0\n"@
}

/// One complete facet block of an ASCII STL file for a planar triangle; the
/// normal points in the positive z direction.
pub open spec fn spec_stl_facet(t: TextTriangle) -> Seq<char> {
    "  facet normal 0 0 1\n"@ + "    outer loop\n"@ + spec_stl_vertex_line(t.a)
        + spec_stl_vertex_line(t.b) + spec_stl_vertex_line(t.c) + "    endloop\n"@
        + "  endfacet\n"@
}

/// The facet blocks of all triangles, in order.
pub open spec fn spec_stl_facets(ts: Seq<TextTriangle>) -> Seq<char>
    decreases ts.len(),
{
    if ts.len() == 0 {
        Seq::empty()
    } else {
        spec_stl_facets(ts.drop_last()) + spec_stl_facet(ts.last())
    }
}

fn append_stl_vertex(out: &mut String, p: &TextPoint2)
    ensures
        final(out)@ == old(out)@ + spec_stl_vertex_line(*p),
{
    out.append("      vertex ");
    out.append(p.x.as_str());
    out.append(" ");
    out.append(p.y.as_str());
    out.append(" 0\n");
    proof {
        assert(out@ =~= old(out)@ + spec_stl_vertex_line(*p));
    }
}

fn append_stl_facet(out: &mut String, t: &TextTriangle)
    ensures
        final(out)@ == old(out)@ + spec_stl_facet(*t),
{
    out.append("  facet normal 0 0 1\n");
    out.append("    outer loop\n");
    append_stl_vertex(out, &t.a);
    append_stl_vertex(out, &t.b);
    append_stl_vertex(out, &t.c);
    out.append("    endloop\n");
    out.append("  endfacet\n");
    proof {
        assert(out@ =~= old(out)@ + spec_stl_facet(*t));
    }
}

/// Renders triangles as an ASCII STL solid named `name`.
///
/// Planar input: every vertex is printed with a zero z coordinate and every
/// facet normal is `0 0 1`.  The output is pinned character by character.
pub fn triangles_to_stl(triangles: &Vec<TextTriangle>, name: &str) -> (r: String)
    ensures
        r@ == "solid "@ + name@ + "\n"@ + spec_stl_facets(triangles@) + "endsolid "@ + name@
            + "\n"@,
{
    let ghost header = "solid "@ + name@ + "\n"@;
    let mut out = String::new();
    out.append("solid ");
    out.append(name);
    out.append("\n");
    proof {
        assert(out@ =~= header + spec_stl_facets(triangles@.subrange(0, 0)));
    }
    let mut i: usize = 0;
    while i < triangles.len()
        invariant
            0 <= i <= triangles@.len(),
            header == "solid "@ + name@ + "\n"@,
            out@ == header + spec_stl_facets(triangles@.subrange(0, i as int)),
        decreases triangles@.len() - i,
    {
        append_stl_facet(&mut out, &triangles[i]);
        proof {
            assert(triangles@.subrange(0, i + 1 as int).drop_last() =~= triangles@.subrange(
                0,
                i as int,
            ));
            assert(triangles@.subrange(0, i + 1 as int).last() == triangles@[i as int]);
            assert(out@ =~= header + spec_stl_facets(triangles@.subrange(0, i + 1 as int)));
        }
        i += 1;
    }
    out.append("endsolid ");
    out.append(name);
    out.append("\n");
    proof {
        assert(triangles@.subrange(0, triangles@.len() as int) =~= triangles@);
        assert(out@ =~= header + spec_stl_facets(triangles@) + "endsolid "@ + name@ + "\n"@);
    }
    out
}

/// All faces of all tetrahedra, four per tetrahedron, in order.
pub open spec fn spec_all_faces(tetrahedra: Seq<Tetrahedron>) -> Seq<Face>
    decreases tetrahedra.len(),
{
    if tetrahedra.len() == 0 {
        Seq::empty()
    } else {
        spec_all_faces(tetrahedra.drop_last()) + tetrahedra.last().spec_faces()
    }
}

/// How many faces of `faces` match `face` as an unordered vertex triple.
pub open spec fn spec_count_matching(faces: Seq<Face>, face: Face) -> nat
    decreases faces.len(),
{
    if faces.len() == 0 {
        0
    } else {
        spec_count_matching(faces.drop_last(), face) + if faces.last().same(face) {
            1nat
        } else {
            0nat
        }
    }
}

/// Whether some face of `faces` matches `face` as an unordered vertex
/// triple.
pub open spec fn spec_contains_matching(faces: Seq<Face>, face: Face) -> bool {
    exists|i: int| 0 <= i < faces.len() && (#[trigger] faces[i]).same(face)
}

/// The position of the first face of `faces` matching `face`.
pub open spec fn spec_first_match(faces: Seq<Face>, face: Face) -> int
    decreases faces.len(),
{
    if faces.len() == 0 {
        0
    } else if faces[0].same(face) {
        0
    } else {
        1 + spec_first_match(faces.drop_first(), face)
    }
}

proof fn lemma_first_match(faces: Seq<Face>, face: Face, q: int)
    requires
        0 <= q < faces.len(),
        faces[q].same(face),
        forall|p: int| 0 <= p < q ==> !(#[trigger] faces[p]).same(face),
    ensures
        spec_first_match(faces, face) == q,
    decreases q,
{
    if q > 0 {
        assert(forall|p: int|
            0 <= p < q - 1 ==> faces.drop_first()[p] == #[trigger] faces[p + 1]);
        lemma_first_match(faces.drop_first(), face, q - 1);
    }
}

proof fn lemma_count_at_least_one(faces: Seq<Face>, face: Face, p: int)
    requires
        0 <= p < faces.len(),
        faces[p].same(face),
    ensures
        spec_count_matching(faces, face) >= 1,
    decreases faces.len(),
{
    if p < faces.len() - 1 {
        assert(faces.drop_last()[p] == faces[p]);
        lemma_count_at_least_one(faces.drop_last(), face, p);
    }
}

proof fn lemma_count_at_least_two(faces: Seq<Face>, face: Face, p: int, q: int)
    requires
        0 <= p < q < faces.len(),
        faces[p].same(face),
        faces[q].same(face),
    ensures
        spec_count_matching(faces, face) >= 2,
    decreases faces.len(),
{
    if q == faces.len() - 1 {
        assert(faces.drop_last()[p] == faces[p]);
        lemma_count_at_least_one(faces.drop_last(), face, p);
    } else {
        assert(faces.drop_last()[p] == faces[p]);
        assert(faces.drop_last()[q] == faces[q]);
        lemma_count_at_least_two(faces.drop_last(), face, p, q);
    }
}

proof fn lemma_all_faces_push(tetrahedra: Seq<Tetrahedron>, t: Tetrahedron)
    ensures
        spec_all_faces(tetrahedra.push(t)) == spec_all_faces(tetrahedra) + t.spec_faces(),
{
    assert(tetrahedra.push(t).drop_last() =~= tetrahedra);
}

proof fn lemma_count_matching_push(faces: Seq<Face>, f: Face, face: Face)
    ensures
        spec_count_matching(faces.push(f), face) == spec_count_matching(faces, face) + if f.same(
            face,
        ) {
            1nat
        } else {
            0nat
        },
{
    assert(faces.push(f).drop_last() =~= faces);
}

/// Extracts the boundary surface of a tetrahedral mesh: exactly those faces
/// that occur in a single tetrahedron, each reported once.
///
/// A face shared by two tetrahedra is interior and never appears; matching is
/// on unordered vertex triples throughout.
pub fn extract_surface_faces(tetrahedra: &Vec<Tetrahedron>) -> (surface: Vec<Face>)
    ensures
        // every reported face is a face of the mesh and occurs in it exactly once
        forall|i: int|
            0 <= i < surface@.len() ==> spec_all_faces(tetrahedra@).contains(#[trigger] surface@[i])
                && spec_count_matching(spec_all_faces(tetrahedra@), surface@[i]) == 1,
        // every face that occurs exactly once is reported
        forall|j: int|
            0 <= j < spec_all_faces(tetrahedra@).len() && spec_count_matching(
                spec_all_faces(tetrahedra@),
                #[trigger] spec_all_faces(tetrahedra@)[j],
            ) == 1 ==> spec_contains_matching(surface@, spec_all_faces(tetrahedra@)[j]),
        // no face is reported twice
        forall|i: int, j: int|
            0 <= i < j < surface@.len() ==> !(#[trigger] surface@[i]).same(#[trigger] surface@[j]),
        // boundary faces appear in order of first occurrence
        forall|i: int, j: int|
            0 <= i < j < surface@.len() ==> spec_first_match(
                spec_all_faces(tetrahedra@),
                #[trigger] surface@[i],
            ) < spec_first_match(spec_all_faces(tetrahedra@), #[trigger] surface@[j]),
{
    let ghost all = spec_all_faces(tetrahedra@);

    // Collect the four faces of every tetrahedron.
    let mut all_faces: Vec<Face> = Vec::new();
    let mut ti: usize = 0;
    while ti < tetrahedra.len()
        invariant
            0 <= ti <= tetrahedra@.len(),
            all_faces@ == spec_all_faces(tetrahedra@.subrange(0, ti as int)),
        decreases tetrahedra@.len() - ti,
    {
        let faces = tetrahedra[ti].faces();
        proof {
            assert(tetrahedra@.subrange(0, ti + 1 as int) =~= tetrahedra@.subrange(
                0,
                ti as int,
            ).push(tetrahedra@[ti as int]));
            lemma_all_faces_push(tetrahedra@.subrange(0, ti as int), tetrahedra@[ti as int]);
            assert(all_faces@ + tetrahedra@[ti as int].spec_faces() =~= all_faces@.push(
                faces@[0],
            ).push(faces@[1]).push(faces@[2]).push(faces@[3]));
        }
        all_faces.push(faces[0]);
        all_faces.push(faces[1]);
        all_faces.push(faces[2]);
        all_faces.push(faces[3]);
        ti += 1;
    }
    proof {
        assert(tetrahedra@.subrange(0, tetrahedra@.len() as int) =~= tetrahedra@);
    }

    let mut surface: Vec<Face> = Vec::new();
    let mut fi: usize = 0;
    while fi < all_faces.len()
        invariant
            0 <= fi <= all_faces@.len(),
            all_faces@ == all,
            all == spec_all_faces(tetrahedra@),
            forall|i: int|
                0 <= i < surface@.len() ==> all.contains(#[trigger] surface@[i])
                    && spec_count_matching(all, surface@[i]) == 1,
            forall|j: int|
                0 <= j < fi && spec_count_matching(all, #[trigger] all[j]) == 1
                    ==> spec_contains_matching(surface@, all[j]),
            forall|i: int, j: int|
                0 <= i < j < surface@.len() ==> !(#[trigger] surface@[i]).same(
                    #[trigger] surface@[j],
                ),
            forall|a: int|
                0 <= a < surface@.len() ==> 0 <= spec_first_match(all, #[trigger] surface@[a])
                    < fi,
            forall|i: int, j: int|
                0 <= i < j < surface@.len() ==> spec_first_match(all, #[trigger] surface@[i])
                    < spec_first_match(all, #[trigger] surface@[j]),
        decreases all_faces@.len() - fi,
    {
        let face = all_faces[fi];
        let ghost pre_surface = surface@;

        // Count how many faces of the mesh match this one.
        let mut count: usize = 0;
        let mut ci: usize = 0;
        while ci < all_faces.len()
            invariant
                0 <= ci <= all_faces@.len(),
                all_faces@ == all,
                count == spec_count_matching(all.subrange(0, ci as int), face),
                count <= ci,
            decreases all_faces@.len() - ci,
        {
            proof {
                assert(all.subrange(0, ci + 1 as int) =~= all.subrange(0, ci as int).push(
                    all[ci as int],
                ));
                lemma_count_matching_push(all.subrange(0, ci as int), all[ci as int], face);
            }
            if all_faces[ci].equals(&face) {
                count += 1;
            }
            ci += 1;
        }
        proof {
            assert(all.subrange(0, all.len() as int) =~= all);
        }

        if count == 1 {
            // Report each boundary face only once.
            let mut present = false;
            let mut si: usize = 0;
            while si < surface.len()
                invariant
                    0 <= si <= surface@.len(),
                    present == exists|i: int|
                        0 <= i < si && (#[trigger] surface@[i]).same(face),
                decreases surface@.len() - si,
            {
                if surface[si].equals(&face) {
                    present = true;
                }
                si += 1;
            }
            if !present {
                proof {
                    assert(all.contains(all[fi as int]));
                    assert(face.same(face));
                    // this is the face's first occurrence: a second match
                    // would contradict the count of one
                    assert forall|p: int| 0 <= p < fi implies !(#[trigger] all[p]).same(face) by {
                        if all[p].same(face) {
                            lemma_count_at_least_two(all, face, p, fi as int);
                        }
                    }
                    lemma_first_match(all, face, fi as int);
                }
                surface.push(face);
                proof {
                    assert(surface@[pre_surface.len() as int] == face);
                    assert(spec_contains_matching(surface@, face));
                }
            }
        }
        proof {
            assert forall|j: int|
                0 <= j < fi + 1 && spec_count_matching(all, #[trigger] all[j]) == 1 implies
                spec_contains_matching(surface@, all[j]) by {
                if j < fi {
                    assert(spec_contains_matching(pre_surface, all[j]));
                    let w = choose|i: int|
                        0 <= i < pre_surface.len() && (#[trigger] pre_surface[i]).same(all[j]);
                    assert(surface@[w] == pre_surface[w]);
                    assert((surface@[w]).same(all[j]));
                } else {
                    assert(all[j] == face);
                    if spec_contains_matching(pre_surface, face) {
                        let w = choose|i: int|
                            0 <= i < pre_surface.len() && (#[trigger] pre_surface[i]).same(face);
                        assert(surface@[w] == pre_surface[w]);
                        assert((surface@[w]).same(all[j]));
                    } else {
                        assert(spec_contains_matching(surface@, face));
                    }
                }
            }
        }
        fi += 1;
    }
    surface
}

} // verus!
