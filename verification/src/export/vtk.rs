use vstd::prelude::*;

use super::{build_label_table, table_position};
use super::{
    spec_label_in_table, spec_table_complete, spec_table_first_occurrences, spec_table_pos,
    spec_table_sorted,
};
use super::{TextPoint3, TextTetrahedron};
use crate::numtext::{append_usize, spec_decimal};

verus! {

/// The vertex labels of the tetrahedron stream: four per tetrahedron, in
/// order.
pub open spec fn spec_vtk_labels(ts: Seq<TextTetrahedron>) -> Seq<i64>
    decreases ts.len(),
{
    if ts.len() == 0 {
        Seq::empty()
    } else {
        spec_vtk_labels(ts.drop_last()) + seq![
            ts.last().a.index,
            ts.last().b.index,
            ts.last().c.index,
            ts.last().d.index,
        ]
    }
}

/// The vertex at stream position `p`: position `4 i + s` is corner `s` of
/// tetrahedron `i`.
pub open spec fn spec_vtk_vertex(ts: Seq<TextTetrahedron>, p: int) -> TextPoint3 {
    if p % 4 == 0 {
        ts[p / 4].a
    } else if p % 4 == 1 {
        ts[p / 4].b
    } else if p % 4 == 2 {
        ts[p / 4].c
    } else {
        ts[p / 4].d
    }
}

proof fn lemma_vtk_labels(ts: Seq<TextTetrahedron>)
    ensures
        spec_vtk_labels(ts).len() == 4 * ts.len(),
        forall|p: int|
            0 <= p < 4 * ts.len() ==> spec_vtk_labels(ts)[p] == spec_vtk_vertex(ts, p).index,
    decreases ts.len(),
{
    if ts.len() > 0 {
        lemma_vtk_labels(ts.drop_last());
        assert forall|p: int| 0 <= p < 4 * ts.len() implies spec_vtk_labels(ts)[p]
            == spec_vtk_vertex(ts, p).index by {
            if p < 4 * (ts.len() - 1) {
                assert(spec_vtk_labels(ts)[p] == spec_vtk_labels(ts.drop_last())[p]);
                assert(spec_vtk_vertex(ts.drop_last(), p) == spec_vtk_vertex(ts, p));
            } else {
                assert(p / 4 == ts.len() - 1) by (nonlinear_arith)
                    requires
                        4 * (ts.len() - 1) <= p < 4 * ts.len(),
                ;
                assert(p % 4 == p - 4 * (ts.len() - 1)) by (nonlinear_arith)
                    requires
                        4 * (ts.len() - 1) <= p < 4 * ts.len(),
                ;
            }
        }
    }
}

/// One point line: the three rendered coordinates of a table entry's
/// vertex.
pub open spec fn spec_vtk_pointline(ts: Seq<TextTetrahedron>, e: (i64, usize)) -> Seq<char> {
    let v = spec_vtk_vertex(ts, e.1 as int);
    v.x@ + " "@ + v.y@ + " "@ + v.z@ + "\n"@
}

/// The point lines of all table entries, in table order.
pub open spec fn spec_vtk_pointlines(ts: Seq<TextTetrahedron>, table: Seq<(i64, usize)>) -> Seq<
    char,
>
    decreases table.len(),
{
    if table.len() == 0 {
        Seq::empty()
    } else {
        spec_vtk_pointlines(ts, table.drop_last()) + spec_vtk_pointline(ts, table.last())
    }
}

/// One cell line: the vertex count `4` and the zero-based table positions
/// of the tetrahedron's corners.
pub open spec fn spec_vtk_cellline(t: TextTetrahedron, table: Seq<(i64, usize)>) -> Seq<char> {
    "4 "@ + spec_decimal(spec_table_pos(table, t.a.index) as nat) + " "@ + spec_decimal(
        spec_table_pos(table, t.b.index) as nat,
    ) + " "@ + spec_decimal(spec_table_pos(table, t.c.index) as nat) + " "@ + spec_decimal(
        spec_table_pos(table, t.d.index) as nat,
    ) + "\n"@
}

/// The cell lines of all tetrahedra, in order.
pub open spec fn spec_vtk_celllines(ts: Seq<TextTetrahedron>, table: Seq<(i64, usize)>) -> Seq<
    char,
>
    decreases ts.len(),
{
    if ts.len() == 0 {
        Seq::empty()
    } else {
        spec_vtk_celllines(ts.drop_last(), table) + spec_vtk_cellline(ts.last(), table)
    }
}

/// `n` lines of the tetrahedron cell type, `10`.
pub open spec fn spec_vtk_celltypes(n: nat) -> Seq<char>
    decreases n,
{
    if n == 0 {
        Seq::empty()
    } else {
        spec_vtk_celltypes((n - 1) as nat) + "10\n"@
    }
}

/// A complete VTK legacy unstructured-grid document.
pub open spec fn spec_vtk_text(
    ts: Seq<TextTetrahedron>,
    table: Seq<(i64, usize)>,
    title: Seq<char>,
) -> Seq<char> {
    "# vtk DataFile Version 3.0\n"@ + title + "\n"@ + "ASCII\n"@ + "DATASET UNSTRUCTURED_GRID\n"@
        + "POINTS "@ + spec_decimal(table.len()) + " double\n"@ + spec_vtk_pointlines(ts, table)
        + "CELLS "@ + spec_decimal(ts.len()) + " "@ + spec_decimal(5 * ts.len()) + "\n"@
        + spec_vtk_celllines(ts, table) + "CELL_TYPES "@ + spec_decimal(ts.len()) + "\n"@
        + spec_vtk_celltypes(ts.len())
}

/// Renders a tetrahedral mesh as a VTK legacy unstructured grid.
///
/// Vertices are deduplicated by label and listed in ascending label order;
/// every cell refers to its corners by their zero-based position in that
/// list and carries the tetrahedron cell type `10`.
#[verifier::rlimit(100)]
pub fn tetrahedra_to_vtk(tetrahedra: &Vec<TextTetrahedron>, title: &str) -> (r: String)
    requires
        tetrahedra@.len() * 5 <= usize::MAX,
    ensures
        exists|table: Seq<(i64, usize)>|
            #![auto]
            {
                &&& spec_table_sorted(table)
                &&& spec_table_first_occurrences(table, spec_vtk_labels(tetrahedra@))
                &&& spec_table_complete(table, spec_vtk_labels(tetrahedra@))
                &&& r@ == spec_vtk_text(tetrahedra@, table, title@)
            },
{
    let ghost ts = tetrahedra@;
    let ghost all_labels = spec_vtk_labels(ts);
    proof {
        lemma_vtk_labels(ts);
    }

    let mut labels: Vec<i64> = Vec::new();
    let mut i: usize = 0;
    while i < tetrahedra.len()
        invariant
            0 <= i <= ts.len(),
            ts == tetrahedra@,
            labels@ == spec_vtk_labels(ts.subrange(0, i as int)),
        decreases ts.len() - i,
    {
        let t = &tetrahedra[i];
        labels.push(t.a.index);
        labels.push(t.b.index);
        labels.push(t.c.index);
        labels.push(t.d.index);
        proof {
            assert(ts.subrange(0, i + 1 as int).drop_last() =~= ts.subrange(0, i as int));
            assert(labels@ =~= spec_vtk_labels(ts.subrange(0, i + 1 as int)));
        }
        i += 1;
    }
    proof {
        assert(ts.subrange(0, ts.len() as int) =~= ts);
    }

    let table = build_label_table(&labels);

    let mut out = String::new();
    out.append("# vtk DataFile Version 3.0\n");
    out.append(title);
    out.append("\n");
    out.append("ASCII\n");
    out.append("DATASET UNSTRUCTURED_GRID\n");
    out.append("POINTS ");
    append_usize(&mut out, table.len());
    out.append(" double\n");
    let ghost head1 = "# vtk DataFile Version 3.0\n"@ + title@ + "\n"@ + "ASCII\n"@
        + "DATASET UNSTRUCTURED_GRID\n"@ + "POINTS "@ + spec_decimal(table@.len()) + " double\n"@;
    proof {
        assert(out@ =~= head1);
    }

    let mut k: usize = 0;
    while k < table.len()
        invariant
            0 <= k <= table@.len(),
            ts == tetrahedra@,
            labels@ == all_labels,
            all_labels == spec_vtk_labels(ts),
            spec_table_first_occurrences(table@, labels@),
            out@ == head1 + spec_vtk_pointlines(ts, table@.subrange(0, k as int)),
        decreases table@.len() - k,
    {
        let e = table[k];
        let pos = e.1;
        proof {
            lemma_vtk_labels(ts);
            assert(pos < all_labels.len());
            assert(pos / 4 < ts.len()) by (nonlinear_arith)
                requires
                    pos < 4 * ts.len(),
            ;
        }
        let ti = pos / 4;
        let slot = pos % 4;
        let t = &tetrahedra[ti];
        if slot == 0 {
            append_pointline(&mut out, &t.a);
        } else if slot == 1 {
            append_pointline(&mut out, &t.b);
        } else if slot == 2 {
            append_pointline(&mut out, &t.c);
        } else {
            append_pointline(&mut out, &t.d);
        }
        proof {
            assert(table@.subrange(0, k + 1 as int).drop_last() =~= table@.subrange(0, k as int));
            assert(table@.subrange(0, k + 1 as int).last() == table@[k as int]);
            assert(out@ =~= head1 + spec_vtk_pointlines(ts, table@.subrange(0, k + 1 as int)));
        }
        k += 1;
    }
    proof {
        assert(table@.subrange(0, table@.len() as int) =~= table@);
    }

    let num_cells = tetrahedra.len();
    out.append("CELLS ");
    append_usize(&mut out, num_cells);
    out.append(" ");
    append_usize(&mut out, num_cells * 5);
    out.append("\n");
    let ghost head2 = head1 + spec_vtk_pointlines(ts, table@) + "CELLS "@ + spec_decimal(ts.len())
        + " "@ + spec_decimal(5 * ts.len()) + "\n"@;
    proof {
        assert(out@ =~= head2);
    }

    let tcount = table.len();
    let mut fi: usize = 0;
    while fi < tetrahedra.len()
        invariant
            0 <= fi <= ts.len(),
            table@.len() == tcount,
            ts == tetrahedra@,
            labels@ == all_labels,
            all_labels == spec_vtk_labels(ts),
            spec_table_first_occurrences(table@, labels@),
            spec_table_complete(table@, labels@),
            out@ == head2 + spec_vtk_celllines(ts.subrange(0, fi as int), table@),
        decreases ts.len() - fi,
    {
        let t = &tetrahedra[fi];
        proof {
            lemma_vtk_labels(ts);
            assert(all_labels[4 * fi] == t.a.index);
            assert(all_labels[4 * fi + 1] == t.b.index);
            assert(all_labels[4 * fi + 2] == t.c.index);
            assert(all_labels[4 * fi + 3] == t.d.index);
            assert(spec_label_in_table(table@, all_labels[4 * fi]));
            assert(spec_label_in_table(table@, all_labels[4 * fi + 1]));
            assert(spec_label_in_table(table@, all_labels[4 * fi + 2]));
            assert(spec_label_in_table(table@, all_labels[4 * fi + 3]));
        }
        let pa = table_position(&table, t.a.index);
        let pb = table_position(&table, t.b.index);
        let pc = table_position(&table, t.c.index);
        let pd = table_position(&table, t.d.index);
        out.append("4 ");
        append_usize(&mut out, pa);
        out.append(" ");
        append_usize(&mut out, pb);
        out.append(" ");
        append_usize(&mut out, pc);
        out.append(" ");
        append_usize(&mut out, pd);
        out.append("\n");
        proof {
            assert(ts.subrange(0, fi + 1 as int).drop_last() =~= ts.subrange(0, fi as int));
            assert(ts.subrange(0, fi + 1 as int).last() == ts[fi as int]);
            assert(out@ =~= head2 + spec_vtk_celllines(ts.subrange(0, fi + 1 as int), table@));
        }
        fi += 1;
    }
    proof {
        assert(ts.subrange(0, ts.len() as int) =~= ts);
    }

    out.append("CELL_TYPES ");
    append_usize(&mut out, num_cells);
    out.append("\n");
    let ghost head3 = head2 + spec_vtk_celllines(ts, table@) + "CELL_TYPES "@ + spec_decimal(
        ts.len(),
    ) + "\n"@;
    proof {
        assert(out@ =~= head3);
    }
    let mut c: usize = 0;
    while c < num_cells
        invariant
            0 <= c <= ts.len(),
            num_cells == ts.len(),
            out@ == head3 + spec_vtk_celltypes(c as nat),
        decreases ts.len() - c,
    {
        out.append("10\n");
        proof {
            assert(out@ =~= head3 + spec_vtk_celltypes((c + 1) as nat));
        }
        c += 1;
    }
    proof {
        assert(out@ =~= spec_vtk_text(ts, table@, title@));
    }
    out
}

fn append_pointline(out: &mut String, p: &TextPoint3)
    ensures
        final(out)@ == old(out)@ + (p.x@ + " "@ + p.y@ + " "@ + p.z@ + "\n"@),
{
    out.append(p.x.as_str());
    out.append(" ");
    out.append(p.y.as_str());
    out.append(" ");
    out.append(p.z.as_str());
    out.append("\n");
    proof {
        assert(out@ =~= old(out)@ + (p.x@ + " "@ + p.y@ + " "@ + p.z@ + "\n"@));
    }
}

} // verus!
