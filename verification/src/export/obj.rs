use vstd::prelude::*;

use super::{build_label_table, table_position};
use super::{
    spec_label_in_table, spec_table_complete, spec_table_first_occurrences, spec_table_pos,
    spec_table_sorted,
};
use super::{TextFace, TextPoint2, TextPoint3, TextTriangle};
use crate::numtext::{append_usize, spec_decimal};

verus! {

/// The vertex labels of the triangle stream: three per triangle, in order.
pub open spec fn spec_obj_labels(ts: Seq<TextTriangle>) -> Seq<i64>
    decreases ts.len(),
{
    if ts.len() == 0 {
        Seq::empty()
    } else {
        spec_obj_labels(ts.drop_last()) + seq![
            ts.last().a.index,
            ts.last().b.index,
            ts.last().c.index,
        ]
    }
}

/// The vertex at stream position `p`: position `3 i + s` is corner `s` of
/// triangle `i`.
pub open spec fn spec_stream_vertex(ts: Seq<TextTriangle>, p: int) -> TextPoint2 {
    if p % 3 == 0 {
        ts[p / 3].a
    } else if p % 3 == 1 {
        ts[p / 3].b
    } else {
        ts[p / 3].c
    }
}

proof fn lemma_obj_labels(ts: Seq<TextTriangle>)
    ensures
        spec_obj_labels(ts).len() == 3 * ts.len(),
        forall|p: int|
            0 <= p < 3 * ts.len() ==> spec_obj_labels(ts)[p] == spec_stream_vertex(
                ts,
                p,
            ).index,
    decreases ts.len(),
{
    if ts.len() > 0 {
        lemma_obj_labels(ts.drop_last());
        assert forall|p: int| 0 <= p < 3 * ts.len() implies spec_obj_labels(ts)[p]
            == spec_stream_vertex(ts, p).index by {
            if p < 3 * (ts.len() - 1) {
                assert(spec_obj_labels(ts)[p] == spec_obj_labels(ts.drop_last())[p]);
                assert(spec_stream_vertex(ts.drop_last(), p) == spec_stream_vertex(ts, p));
            } else {
                assert(p / 3 == ts.len() - 1) by (nonlinear_arith)
                    requires
                        3 * (ts.len() - 1) <= p < 3 * ts.len(),
                ;
                assert(p % 3 == p - 3 * (ts.len() - 1)) by (nonlinear_arith)
                    requires
                        3 * (ts.len() - 1) <= p < 3 * ts.len(),
                ;
            }
        }
    }
}

/// One `v` line: the rendered coordinates of a table entry's vertex, with a
/// zero z coordinate.
pub open spec fn spec_obj_vline(ts: Seq<TextTriangle>, e: (i64, usize)) -> Seq<char> {
    let v = spec_stream_vertex(ts, e.1 as int);
    "v "@ + v.x@ + " "@ + v.y@ + " 0\n"@
}

/// The `v` lines of all table entries, in table order.
pub open spec fn spec_obj_vlines(ts: Seq<TextTriangle>, table: Seq<(i64, usize)>) -> Seq<char>
    decreases table.len(),
{
    if table.len() == 0 {
        Seq::empty()
    } else {
        spec_obj_vlines(ts, table.drop_last()) + spec_obj_vline(ts, table.last())
    }
}

/// One `f` line: the one-based table positions of the triangle's corners.
pub open spec fn spec_obj_fline(t: TextTriangle, table: Seq<(i64, usize)>) -> Seq<char> {
    "f "@ + spec_decimal((spec_table_pos(table, t.a.index) + 1) as nat) + " "@ + spec_decimal(
        (spec_table_pos(table, t.b.index) + 1) as nat,
    ) + " "@ + spec_decimal((spec_table_pos(table, t.c.index) + 1) as nat) + "\n"@
}

/// The `f` lines of all triangles, in order.
pub open spec fn spec_obj_flines(ts: Seq<TextTriangle>, table: Seq<(i64, usize)>) -> Seq<char>
    decreases ts.len(),
{
    if ts.len() == 0 {
        Seq::empty()
    } else {
        spec_obj_flines(ts.drop_last(), table) + spec_obj_fline(ts.last(), table)
    }
}

/// A complete Wavefront OBJ document: the deduplicated vertex list followed
/// by one face line per triangle.
pub open spec fn spec_obj_text(ts: Seq<TextTriangle>, table: Seq<(i64, usize)>) -> Seq<char> {
    spec_obj_vlines(ts, table) + spec_obj_flines(ts, table)
}

fn append_vline(out: &mut String, p: &TextPoint2)
    ensures
        final(out)@ == old(out)@ + ("v "@ + p.x@ + " "@ + p.y@ + " 0\n"@),
{
    out.append("v ");
    out.append(p.x.as_str());
    out.append(" ");
    out.append(p.y.as_str());
    out.append(" 0\n");
    proof {
        assert(out@ =~= old(out)@ + ("v "@ + p.x@ + " "@ + p.y@ + " 0\n"@));
    }
}

/// Renders triangles as a Wavefront OBJ document.
///
/// Vertices are deduplicated by label and listed in ascending label order,
/// each with a zero z coordinate; every face line refers to its corners by
/// their one-based position in that list.  The returned text equals
/// [`spec_obj_text`] for a vertex table that is sorted, complete and made of
/// first occurrences.
#[verifier::rlimit(100)]
pub fn triangles_to_obj(triangles: &Vec<TextTriangle>) -> (r: String)
    ensures
        exists|table: Seq<(i64, usize)>|
            #![auto]
            {
                &&& spec_table_sorted(table)
                &&& spec_table_first_occurrences(table, spec_obj_labels(triangles@))
                &&& spec_table_complete(table, spec_obj_labels(triangles@))
                &&& r@ == spec_obj_text(triangles@, table)
            },
{
    let ghost ts = triangles@;
    let ghost all_labels = spec_obj_labels(ts);
    proof {
        lemma_obj_labels(ts);
    }

    // The label stream: three labels per triangle.
    let mut labels: Vec<i64> = Vec::new();
    let mut i: usize = 0;
    while i < triangles.len()
        invariant
            0 <= i <= ts.len(),
            ts == triangles@,
            labels@ == spec_obj_labels(ts.subrange(0, i as int)),
        decreases ts.len() - i,
    {
        let t = &triangles[i];
        labels.push(t.a.index);
        labels.push(t.b.index);
        labels.push(t.c.index);
        proof {
            assert(ts.subrange(0, i + 1 as int).drop_last() =~= ts.subrange(0, i as int));
            assert(labels@ =~= spec_obj_labels(ts.subrange(0, i + 1 as int)));
        }
        i += 1;
    }
    proof {
        assert(ts.subrange(0, ts.len() as int) =~= ts);
    }

    let table = build_label_table(&labels);

    let mut out = String::new();
    let mut k: usize = 0;
    while k < table.len()
        invariant
            0 <= k <= table@.len(),
            ts == triangles@,
            labels@ == all_labels,
            all_labels == spec_obj_labels(ts),
            spec_table_first_occurrences(table@, labels@),
            out@ == spec_obj_vlines(ts, table@.subrange(0, k as int)),
        decreases table@.len() - k,
    {
        let e = table[k];
        let pos = e.1;
        proof {
            lemma_obj_labels(ts);
            assert(pos < all_labels.len());
            assert(pos / 3 < ts.len()) by (nonlinear_arith)
                requires
                    pos < 3 * ts.len(),
            ;
        }
        let ti = pos / 3;
        let slot = pos % 3;
        let t = &triangles[ti];
        if slot == 0 {
            append_vline(&mut out, &t.a);
        } else if slot == 1 {
            append_vline(&mut out, &t.b);
        } else {
            append_vline(&mut out, &t.c);
        }
        proof {
            assert(spec_stream_vertex(ts, pos as int) == if slot == 0 {
                ts[ti as int].a
            } else if slot == 1 {
                ts[ti as int].b
            } else {
                ts[ti as int].c
            });
            assert(table@.subrange(0, k + 1 as int).drop_last() =~= table@.subrange(0, k as int));
            assert(table@.subrange(0, k + 1 as int).last() == table@[k as int]);
            assert(out@ =~= spec_obj_vlines(ts, table@.subrange(0, k + 1 as int)));
        }
        k += 1;
    }
    proof {
        assert(table@.subrange(0, table@.len() as int) =~= table@);
    }

    let tcount = table.len();
    let mut fi: usize = 0;
    while fi < triangles.len()
        invariant
            0 <= fi <= ts.len(),
            table@.len() == tcount,
            ts == triangles@,
            labels@ == all_labels,
            all_labels == spec_obj_labels(ts),
            spec_table_first_occurrences(table@, labels@),
            spec_table_complete(table@, labels@),
            out@ == spec_obj_vlines(ts, table@) + spec_obj_flines(
                ts.subrange(0, fi as int),
                table@,
            ),
        decreases ts.len() - fi,
    {
        let t = &triangles[fi];
        proof {
            lemma_obj_labels(ts);
            assert(all_labels[3 * fi] == t.a.index);
            assert(all_labels[3 * fi + 1] == t.b.index);
            assert(all_labels[3 * fi + 2] == t.c.index);
            assert(spec_label_in_table(table@, all_labels[3 * fi]));
            assert(spec_label_in_table(table@, all_labels[3 * fi + 1]));
            assert(spec_label_in_table(table@, all_labels[3 * fi + 2]));
        }
        let pa = table_position(&table, t.a.index);
        let pb = table_position(&table, t.b.index);
        let pc = table_position(&table, t.c.index);
        out.append("f ");
        append_usize(&mut out, pa + 1);
        out.append(" ");
        append_usize(&mut out, pb + 1);
        out.append(" ");
        append_usize(&mut out, pc + 1);
        out.append("\n");
        proof {
            assert(ts.subrange(0, fi + 1 as int).drop_last() =~= ts.subrange(0, fi as int));
            assert(ts.subrange(0, fi + 1 as int).last() == ts[fi as int]);
            assert(out@ =~= spec_obj_vlines(ts, table@) + spec_obj_flines(
                ts.subrange(0, fi + 1 as int),
                table@,
            ));
        }
        fi += 1;
    }
    proof {
        assert(ts.subrange(0, ts.len() as int) =~= ts);
        assert(out@ == spec_obj_text(ts, table@));
    }
    out
}

/// The vertex labels of the face stream: three per face, in order.
pub open spec fn spec_obj3_labels(fs: Seq<TextFace>) -> Seq<i64>
    decreases fs.len(),
{
    if fs.len() == 0 {
        Seq::empty()
    } else {
        spec_obj3_labels(fs.drop_last()) + seq![
            fs.last().a.index,
            fs.last().b.index,
            fs.last().c.index,
        ]
    }
}

/// The vertex at stream position `p` of a face list.
pub open spec fn spec_obj3_vertex(fs: Seq<TextFace>, p: int) -> TextPoint3 {
    if p % 3 == 0 {
        fs[p / 3].a
    } else if p % 3 == 1 {
        fs[p / 3].b
    } else {
        fs[p / 3].c
    }
}

proof fn lemma_obj3_labels(fs: Seq<TextFace>)
    ensures
        spec_obj3_labels(fs).len() == 3 * fs.len(),
        forall|p: int|
            0 <= p < 3 * fs.len() ==> spec_obj3_labels(fs)[p] == spec_obj3_vertex(fs, p).index,
    decreases fs.len(),
{
    if fs.len() > 0 {
        lemma_obj3_labels(fs.drop_last());
        assert forall|p: int| 0 <= p < 3 * fs.len() implies spec_obj3_labels(fs)[p]
            == spec_obj3_vertex(fs, p).index by {
            if p < 3 * (fs.len() - 1) {
                assert(spec_obj3_labels(fs)[p] == spec_obj3_labels(fs.drop_last())[p]);
                assert(spec_obj3_vertex(fs.drop_last(), p) == spec_obj3_vertex(fs, p));
            } else {
                assert(p / 3 == fs.len() - 1) by (nonlinear_arith)
                    requires
                        3 * (fs.len() - 1) <= p < 3 * fs.len(),
                ;
                assert(p % 3 == p - 3 * (fs.len() - 1)) by (nonlinear_arith)
                    requires
                        3 * (fs.len() - 1) <= p < 3 * fs.len(),
                ;
            }
        }
    }
}

/// One `v` line of a spatial vertex: all three rendered coordinates.
pub open spec fn spec_obj3_vline(fs: Seq<TextFace>, e: (i64, usize)) -> Seq<char> {
    let v = spec_obj3_vertex(fs, e.1 as int);
    "v "@ + v.x@ + " "@ + v.y@ + " "@ + v.z@ + "\n"@
}

/// The `v` lines of all table entries, in table order.
pub open spec fn spec_obj3_vlines(fs: Seq<TextFace>, table: Seq<(i64, usize)>) -> Seq<char>
    decreases table.len(),
{
    if table.len() == 0 {
        Seq::empty()
    } else {
        spec_obj3_vlines(fs, table.drop_last()) + spec_obj3_vline(fs, table.last())
    }
}

/// One `f` line: the one-based table positions of the face's corners.
pub open spec fn spec_obj3_fline(f: TextFace, table: Seq<(i64, usize)>) -> Seq<char> {
    "f "@ + spec_decimal((spec_table_pos(table, f.a.index) + 1) as nat) + " "@ + spec_decimal(
        (spec_table_pos(table, f.b.index) + 1) as nat,
    ) + " "@ + spec_decimal((spec_table_pos(table, f.c.index) + 1) as nat) + "\n"@
}

/// The `f` lines of all faces, in order.
pub open spec fn spec_obj3_flines(fs: Seq<TextFace>, table: Seq<(i64, usize)>) -> Seq<char>
    decreases fs.len(),
{
    if fs.len() == 0 {
        Seq::empty()
    } else {
        spec_obj3_flines(fs.drop_last(), table) + spec_obj3_fline(fs.last(), table)
    }
}

/// A complete Wavefront OBJ document for spatial faces.
pub open spec fn spec_obj3_text(fs: Seq<TextFace>, table: Seq<(i64, usize)>) -> Seq<char> {
    spec_obj3_vlines(fs, table) + spec_obj3_flines(fs, table)
}

fn append_vline3(out: &mut String, p: &TextPoint3)
    ensures
        final(out)@ == old(out)@ + ("v "@ + p.x@ + " "@ + p.y@ + " "@ + p.z@ + "\n"@),
{
    out.append("v ");
    out.append(p.x.as_str());
    out.append(" ");
    out.append(p.y.as_str());
    out.append(" ");
    out.append(p.z.as_str());
    out.append("\n");
    proof {
        assert(out@ =~= old(out)@ + ("v "@ + p.x@ + " "@ + p.y@ + " "@ + p.z@ + "\n"@));
    }
}

/// Renders spatial faces as a Wavefront OBJ document.
///
/// Vertices are deduplicated by label and listed in ascending label order;
/// every face line refers to its corners by their one-based position in that
/// list.
#[verifier::rlimit(100)]
pub fn faces_to_obj(faces: &Vec<TextFace>) -> (r: String)
    ensures
        exists|table: Seq<(i64, usize)>|
            #![auto]
            {
                &&& spec_table_sorted(table)
                &&& spec_table_first_occurrences(table, spec_obj3_labels(faces@))
                &&& spec_table_complete(table, spec_obj3_labels(faces@))
                &&& r@ == spec_obj3_text(faces@, table)
            },
{
    let ghost fs = faces@;
    let ghost all_labels = spec_obj3_labels(fs);
    proof {
        lemma_obj3_labels(fs);
    }

    let mut labels: Vec<i64> = Vec::new();
    let mut i: usize = 0;
    while i < faces.len()
        invariant
            0 <= i <= fs.len(),
            fs == faces@,
            labels@ == spec_obj3_labels(fs.subrange(0, i as int)),
        decreases fs.len() - i,
    {
        let f = &faces[i];
        labels.push(f.a.index);
        labels.push(f.b.index);
        labels.push(f.c.index);
        proof {
            assert(fs.subrange(0, i + 1 as int).drop_last() =~= fs.subrange(0, i as int));
            assert(labels@ =~= spec_obj3_labels(fs.subrange(0, i + 1 as int)));
        }
        i += 1;
    }
    proof {
        assert(fs.subrange(0, fs.len() as int) =~= fs);
    }

    let table = build_label_table(&labels);

    let mut out = String::new();
    let mut k: usize = 0;
    while k < table.len()
        invariant
            0 <= k <= table@.len(),
            fs == faces@,
            labels@ == all_labels,
            all_labels == spec_obj3_labels(fs),
            spec_table_first_occurrences(table@, labels@),
            out@ == spec_obj3_vlines(fs, table@.subrange(0, k as int)),
        decreases table@.len() - k,
    {
        let e = table[k];
        let pos = e.1;
        proof {
            lemma_obj3_labels(fs);
            assert(pos < all_labels.len());
            assert(pos / 3 < fs.len()) by (nonlinear_arith)
                requires
                    pos < 3 * fs.len(),
            ;
        }
        let ti = pos / 3;
        let slot = pos % 3;
        let f = &faces[ti];
        if slot == 0 {
            append_vline3(&mut out, &f.a);
        } else if slot == 1 {
            append_vline3(&mut out, &f.b);
        } else {
            append_vline3(&mut out, &f.c);
        }
        proof {
            assert(spec_obj3_vertex(fs, pos as int) == if slot == 0 {
                fs[ti as int].a
            } else if slot == 1 {
                fs[ti as int].b
            } else {
                fs[ti as int].c
            });
            assert(table@.subrange(0, k + 1 as int).drop_last() =~= table@.subrange(0, k as int));
            assert(table@.subrange(0, k + 1 as int).last() == table@[k as int]);
            assert(out@ =~= spec_obj3_vlines(fs, table@.subrange(0, k + 1 as int)));
        }
        k += 1;
    }
    proof {
        assert(table@.subrange(0, table@.len() as int) =~= table@);
    }

    let tcount = table.len();
    let mut fi: usize = 0;
    while fi < faces.len()
        invariant
            0 <= fi <= fs.len(),
            table@.len() == tcount,
            fs == faces@,
            labels@ == all_labels,
            all_labels == spec_obj3_labels(fs),
            spec_table_first_occurrences(table@, labels@),
            spec_table_complete(table@, labels@),
            out@ == spec_obj3_vlines(fs, table@) + spec_obj3_flines(
                fs.subrange(0, fi as int),
                table@,
            ),
        decreases fs.len() - fi,
    {
        let f = &faces[fi];
        proof {
            lemma_obj3_labels(fs);
            assert(all_labels[3 * fi] == f.a.index);
            assert(all_labels[3 * fi + 1] == f.b.index);
            assert(all_labels[3 * fi + 2] == f.c.index);
            assert(spec_label_in_table(table@, all_labels[3 * fi]));
            assert(spec_label_in_table(table@, all_labels[3 * fi + 1]));
            assert(spec_label_in_table(table@, all_labels[3 * fi + 2]));
        }
        let pa = table_position(&table, f.a.index);
        let pb = table_position(&table, f.b.index);
        let pc = table_position(&table, f.c.index);
        out.append("f ");
        append_usize(&mut out, pa + 1);
        out.append(" ");
        append_usize(&mut out, pb + 1);
        out.append(" ");
        append_usize(&mut out, pc + 1);
        out.append("\n");
        proof {
            assert(fs.subrange(0, fi + 1 as int).drop_last() =~= fs.subrange(0, fi as int));
            assert(fs.subrange(0, fi + 1 as int).last() == fs[fi as int]);
            assert(out@ =~= spec_obj3_vlines(fs, table@) + spec_obj3_flines(
                fs.subrange(0, fi + 1 as int),
                table@,
            ));
        }
        fi += 1;
    }
    proof {
        assert(fs.subrange(0, fs.len() as int) =~= fs);
        assert(out@ == spec_obj3_text(fs, table@));
    }
    out
}

} // verus!
