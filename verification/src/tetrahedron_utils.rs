use vstd::prelude::*;

use crate::model::Tetrahedron;

verus! {

/// Whether `tetrahedron` and `super_tetrahedron` have at least one vertex in
/// common.
pub open spec fn spec_tetrahedron_shares_vertex(
    tetrahedron: Tetrahedron,
    super_tetrahedron: Tetrahedron,
) -> bool {
    tetrahedron.has_vertex(super_tetrahedron.a) || tetrahedron.has_vertex(super_tetrahedron.b)
        || tetrahedron.has_vertex(super_tetrahedron.c) || tetrahedron.has_vertex(
        super_tetrahedron.d,
    )
}

/// Whether `tetrahedron` carries any vertex of the enclosing
/// super-tetrahedron.
pub fn tetrahedron_contains_vertex_from_super_tetrahedron(
    tetrahedron: &Tetrahedron,
    super_tetrahedron: &Tetrahedron,
) -> (r: bool)
    ensures
        r == spec_tetrahedron_shares_vertex(*tetrahedron, *super_tetrahedron),
{
    let super_vertices = super_tetrahedron.vertices();
    let tet_vertices = tetrahedron.vertices();
    let mut i: usize = 0;
    while i < 4
        invariant
            0 <= i <= 4,
            super_vertices@ == super_tetrahedron.spec_vertices(),
            tet_vertices@ == tetrahedron.spec_vertices(),
            forall|j: int|
                0 <= j < i ==> !tetrahedron.has_vertex(
                    #[trigger] super_tetrahedron.spec_vertices()[j],
                ),
        decreases 4 - i,
    {
        let sv = super_vertices[i];
        let mut k: usize = 0;
        while k < 4
            invariant
                0 <= k <= 4,
                i < 4,
                sv == super_tetrahedron.spec_vertices()[i as int],
                tet_vertices@ == tetrahedron.spec_vertices(),
                forall|j: int| 0 <= j < k ==> tetrahedron.spec_vertices()[j] != sv,
            decreases 4 - k,
        {
            if sv == tet_vertices[k] {
                return true;
            }
            k += 1;
        }
        i += 1;
    }
    false
}

/// Keeps exactly the tetrahedra that share no vertex with the
/// super-tetrahedron, in their original order.
pub fn remove_tetrahedra_with_vertices_from_super_tetrahedron(
    tetrahedra: &Vec<Tetrahedron>,
    super_tetrahedron: &Tetrahedron,
) -> (res: Vec<Tetrahedron>)
    ensures
        res@ == tetrahedra@.filter(
            |t: Tetrahedron| !spec_tetrahedron_shares_vertex(t, *super_tetrahedron),
        ),
        forall|i: int|
            0 <= i < res@.len() ==> !spec_tetrahedron_shares_vertex(
                #[trigger] res@[i],
                *super_tetrahedron,
            ),
        forall|i: int| 0 <= i < res@.len() ==> tetrahedra@.contains(#[trigger] res@[i]),
{
    let ghost pred = |t: Tetrahedron| !spec_tetrahedron_shares_vertex(t, *super_tetrahedron);
    let mut res: Vec<Tetrahedron> = Vec::new();
    let mut i: usize = 0;
    while i < tetrahedra.len()
        invariant
            0 <= i <= tetrahedra@.len(),
            pred == (|t: Tetrahedron| !spec_tetrahedron_shares_vertex(t, *super_tetrahedron)),
            res@ == tetrahedra@.subrange(0, i as int).filter(pred),
        decreases tetrahedra@.len() - i,
    {
        let tet = tetrahedra[i];
        proof {
            assert(tetrahedra@.subrange(0, i + 1 as int) =~= tetrahedra@.subrange(
                0,
                i as int,
            ).push(tetrahedra@[i as int]));
            tetrahedra@.subrange(0, i as int).lemma_filter_push(tetrahedra@[i as int], pred);
        }
        if !tetrahedron_contains_vertex_from_super_tetrahedron(&tet, super_tetrahedron) {
            res.push(tet);
        }
        i += 1;
    }
    proof {
        broadcast use vstd::seq_lib::group_filter_ensures;

        assert(tetrahedra@.subrange(0, tetrahedra@.len() as int) =~= tetrahedra@);
        assert forall|i: int| 0 <= i < res@.len() implies tetrahedra@.contains(
            #[trigger] res@[i],
        ) by {
            assert(res@.contains(res@[i]));
            tetrahedra@.lemma_filter_contains_rev(pred, res@[i]);
        }
    }
    res
}

} // verus!
