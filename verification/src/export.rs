use vstd::prelude::*;

mod gltf;
mod obj;
mod stl;
mod vtk;

pub use gltf::{
    base64_encode, build_glb, spec_b64_char, spec_base64, spec_glb, spec_glb_chunk, spec_pad4,
    spec_u32_le,
};
pub use obj::{
    faces_to_obj, spec_obj3_fline, spec_obj3_flines, spec_obj3_labels, spec_obj3_text,
    spec_obj3_vertex, spec_obj3_vline, spec_obj3_vlines, spec_obj_fline, spec_obj_flines,
    spec_obj_labels, spec_obj_text, spec_obj_vline, spec_obj_vlines, spec_stream_vertex,
    triangles_to_obj,
};
pub use stl::extract_surface_faces;
pub use stl::{
    spec_all_faces, spec_contains_matching, spec_count_matching, spec_stl_facet, spec_stl_facets,
    spec_stl_vertex_line, triangles_to_stl,
};
pub use vtk::{
    spec_vtk_cellline, spec_vtk_celllines, spec_vtk_celltypes, spec_vtk_labels, spec_vtk_pointline,
    spec_vtk_pointlines, spec_vtk_text, spec_vtk_vertex, tetrahedra_to_vtk,
};

verus! {

/// Whether the table's labels are strictly increasing.
pub open spec fn spec_table_sorted(table: Seq<(i64, usize)>) -> bool {
    forall|k1: int, k2: int|
        0 <= k1 < k2 < table.len() ==> (#[trigger] table[k1]).0 < (#[trigger] table[k2]).0
}

/// Whether every table entry records the first position of its label in the
/// label stream.
pub open spec fn spec_table_first_occurrences(table: Seq<(i64, usize)>, labels: Seq<i64>) -> bool {
    forall|k: int|
        0 <= k < table.len() ==> (#[trigger] table[k]).1 < labels.len() && labels[table[k].1 as int]
            == table[k].0 && (forall|q: int| 0 <= q < table[k].1 ==> labels[q] != table[k].0)
}

/// Whether some table entry carries the given label.
pub open spec fn spec_label_in_table(table: Seq<(i64, usize)>, label: i64) -> bool {
    exists|k: int| 0 <= k < table.len() && (#[trigger] table[k]).0 == label
}

/// Whether every label of the stream has a table entry.
pub open spec fn spec_table_complete(table: Seq<(i64, usize)>, labels: Seq<i64>) -> bool {
    forall|p: int| 0 <= p < labels.len() ==> spec_label_in_table(table, #[trigger] labels[p])
}

/// The position of the first table entry with the given label.
pub open spec fn spec_table_pos(table: Seq<(i64, usize)>, label: i64) -> int
    decreases table.len(),
{
    if table.len() == 0 {
        0
    } else if table[0].0 == label {
        0
    } else {
        1 + spec_table_pos(table.drop_first(), label)
    }
}

pub proof fn lemma_table_pos(table: Seq<(i64, usize)>, label: i64, k: int)
    requires
        0 <= k < table.len(),
        table[k].0 == label,
        forall|q: int| 0 <= q < k ==> (#[trigger] table[q]).0 != label,
    ensures
        spec_table_pos(table, label) == k,
    decreases k,
{
    if k > 0 {
        assert(forall|q: int|
            0 <= q < k - 1 ==> (#[trigger] table.drop_first()[q]).0 == table[q + 1].0);
        lemma_table_pos(table.drop_first(), label, k - 1);
    }
}

/// Builds the vertex table of an export: one entry for the first occurrence
/// of every label, sorted by label.
pub(crate) fn build_label_table(labels: &Vec<i64>) -> (table: Vec<(i64, usize)>)
    ensures
        spec_table_sorted(table@),
        spec_table_first_occurrences(table@, labels@),
        spec_table_complete(table@, labels@),
        table@.len() <= labels@.len(),
{
    let mut table: Vec<(i64, usize)> = Vec::new();
    let mut p: usize = 0;
    while p < labels.len()
        invariant
            0 <= p <= labels@.len(),
            table@.len() <= p,
            spec_table_sorted(table@),
            spec_table_first_occurrences(table@, labels@),
            spec_table_complete(table@, labels@.subrange(0, p as int)),
        decreases labels@.len() - p,
    {
        let label = labels[p];
        let mut k: usize = 0;
        while k < table.len() && table[k].0 < label
            invariant
                0 <= k <= table@.len(),
                forall|q: int| 0 <= q < k ==> (#[trigger] table@[q]).0 < label,
            decreases table@.len() - k,
        {
            k += 1;
        }
        let ghost pre = table@;
        if k < table.len() && table[k].0 == label {
            // already recorded
            proof {
                assert(labels@.subrange(0, p + 1 as int) =~= labels@.subrange(0, p as int).push(
                    labels@[p as int],
                ));
                assert forall|pp: int|
                    #![trigger labels@.subrange(0, p + 1 as int)[pp]]
                    0 <= pp < p + 1 implies spec_label_in_table(
                    table@,
                    labels@.subrange(0, p + 1 as int)[pp],
                ) by {
                    if pp < p {
                        assert(spec_label_in_table(table@, labels@.subrange(0, p as int)[pp]));
                    } else {
                        assert(table@[k as int].0 == labels@[p as int]);
                    }
                }
            }
        } else {
            table.insert(k, (label, p));
            proof {
                assert(table@.len() == pre.len() + 1);
                assert(forall|q: int| 0 <= q < k ==> #[trigger] table@[q] == pre[q]);
                assert(table@[k as int] == (label, p));
                assert(forall|q: int| k < q < table@.len() ==> #[trigger] table@[q] == pre[q - 1]);
                // everything at or after the insertion point is larger
                assert(k < pre.len() ==> pre[k as int].0 > label);
                assert forall|q: int| k <= q < pre.len() implies (#[trigger] pre[q]).0 > label by {
                    if q > k {
                        assert(pre[k as int].0 < pre[q].0);
                    }
                }
                // the label was not seen earlier in the stream
                assert forall|q: int| 0 <= q < p implies labels@[q] != label by {
                    if labels@[q] == label {
                        assert(labels@.subrange(0, p as int)[q] == labels@[q]);
                        assert(spec_label_in_table(pre, labels@.subrange(0, p as int)[q]));
                        let w = choose|w: int|
                            0 <= w < pre.len() && (#[trigger] pre[w]).0 == labels@.subrange(
                                0,
                                p as int,
                            )[q];
                        assert(pre[w].0 == label);
                        assert(false);
                    }
                }
                assert(labels@.subrange(0, p + 1 as int) =~= labels@.subrange(0, p as int).push(
                    labels@[p as int],
                ));
                assert forall|pp: int|
                    #![trigger labels@.subrange(0, p + 1 as int)[pp]]
                    0 <= pp < p + 1 implies spec_label_in_table(
                    table@,
                    labels@.subrange(0, p + 1 as int)[pp],
                ) by {
                    if pp < p {
                        assert(spec_label_in_table(pre, labels@.subrange(0, p as int)[pp]));
                        let w = choose|w: int|
                            0 <= w < pre.len() && (#[trigger] pre[w]).0 == labels@.subrange(
                                0,
                                p as int,
                            )[pp];
                        if w < k {
                            assert(table@[w].0 == labels@.subrange(0, p + 1 as int)[pp]);
                        } else {
                            assert(table@[w + 1].0 == labels@.subrange(0, p + 1 as int)[pp]);
                        }
                    } else {
                        assert(table@[k as int].0 == labels@.subrange(0, p + 1 as int)[pp]);
                    }
                }
            }
        }
        p += 1;
    }
    proof {
        assert(labels@.subrange(0, labels@.len() as int) =~= labels@);
    }
    table
}

/// Finds the position of `label` in the table by scanning from the front.
fn table_position(table: &Vec<(i64, usize)>, label: i64) -> (pos: usize)
    requires
        spec_label_in_table(table@, label),
    ensures
        pos < table@.len(),
        table@[pos as int].0 == label,
        pos == spec_table_pos(table@, label),
{
    let mut k: usize = 0;
    while k < table.len()
        invariant
            0 <= k <= table@.len(),
            forall|q: int| 0 <= q < k ==> (#[trigger] table@[q]).0 != label,
            spec_label_in_table(table@, label),
        decreases table@.len() - k,
    {
        if table[k].0 == label {
            proof {
                lemma_table_pos(table@, label, k as int);
            }
            return k;
        }
        k += 1;
    }
    proof {
        let j = choose|j: int| 0 <= j < table@.len() && (#[trigger] table@[j]).0 == label;
        assert(false);
    }
    vstd::pervasive::unreached()
}

/// A planar vertex prepared for text export: the caller has already rendered
/// each coordinate as the exact text to print.
///
/// A floating-point front end formats its coordinates however it prints
/// numbers and hands the strings over; the exporters are then verified to
/// place every character of the output.
pub struct TextPoint2 {
    pub index: i64,
    pub x: String,
    pub y: String,
}

/// A triangle of [`TextPoint2`] vertices, ready for text export.
pub struct TextTriangle {
    pub a: TextPoint2,
    pub b: TextPoint2,
    pub c: TextPoint2,
}

/// A spatial vertex prepared for text export.
pub struct TextPoint3 {
    pub index: i64,
    pub x: String,
    pub y: String,
    pub z: String,
}

/// A triangular face of [`TextPoint3`] vertices, ready for text export.
pub struct TextFace {
    pub a: TextPoint3,
    pub b: TextPoint3,
    pub c: TextPoint3,
}

/// A tetrahedron of [`TextPoint3`] vertices, ready for text export.
pub struct TextTetrahedron {
    pub a: TextPoint3,
    pub b: TextPoint3,
    pub c: TextPoint3,
    pub d: TextPoint3,
}

} // verus!
