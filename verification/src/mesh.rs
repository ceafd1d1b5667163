//! Grouping of per-vertex asset rows into renderable mesh batches.
//!
//! The asset store hands back one row per vertex, tagged with a 1-based
//! mesh id and a texture id, ordered so that a new mesh id can only
//! appear once every smaller id has.  Grouping collects each mesh's
//! vertices in row order and remembers the texture of the row that
//! opened the mesh.

use vstd::prelude::*;

verus! {

/// The largest mesh id among `rows` (0 if there are none).
pub open spec fn spec_max_id<V>(rows: Seq<(usize, i32, V)>) -> int
    decreases rows.len(),
{
    if rows.len() == 0 {
        0
    } else {
        let rest = spec_max_id(rows.drop_last());
        if rows.last().0 as int > rest {
            rows.last().0 as int
        } else {
            rest
        }
    }
}

/// Some row carries mesh id `id`.
pub open spec fn has_id<V>(rows: Seq<(usize, i32, V)>, id: int) -> bool {
    exists|x: int| 0 <= x < rows.len() && (#[trigger] rows[x]).0 as int == id
}

/// The vertices of all rows with mesh id `id`, in row order.
pub open spec fn verts_with_id<V>(rows: Seq<(usize, i32, V)>, id: int) -> Seq<V>
    decreases rows.len(),
{
    if rows.len() == 0 {
        Seq::empty()
    } else {
        let rest = verts_with_id(rows.drop_last(), id);
        if rows.last().0 as int == id {
            rest.push(rows.last().2)
        } else {
            rest
        }
    }
}

/// The texture id of the first row with mesh id `id` (0 if none has it).
pub open spec fn tex_first<V>(rows: Seq<(usize, i32, V)>, id: int) -> i32
    decreases rows.len(),
{
    if rows.len() == 0 {
        0
    } else {
        let rest = tex_first(rows.drop_last(), id);
        if has_id(rows.drop_last(), id) {
            rest
        } else if rows.last().0 as int == id {
            rows.last().1
        } else {
            rest
        }
    }
}

/// Rows arrive in an order where mesh ids start at 1 and never jump:
/// each row's id is at most one past the largest id seen before it.
pub open spec fn rows_wf<V>(rows: Seq<(usize, i32, V)>) -> bool {
    forall|k: int|
        0 <= k < rows.len() ==> 1 <= (#[trigger] rows[k]).0 as int <= spec_max_id(rows.take(k)) + 1
}

/// A mesh id no row carries groups no vertices.
proof fn lemma_verts_absent<V>(rows: Seq<(usize, i32, V)>, id: int)
    requires
        !has_id(rows, id),
    ensures
        verts_with_id(rows, id) == Seq::<V>::empty(),
    decreases rows.len(),
{
    if rows.len() > 0 {
        assert(rows[rows.len() - 1] == rows.last());
        assert(!has_id(rows.drop_last(), id)) by {
            if has_id(rows.drop_last(), id) {
                let x = choose|x: int|
                    0 <= x < rows.drop_last().len() && rows.drop_last()[x].0 as int == id;
                assert(rows[x] == rows.drop_last()[x]);
            }
        }
        lemma_verts_absent(rows.drop_last(), id);
    }
}

/// Well-ordered rows stay well-ordered when cut short.
proof fn lemma_wf_take<V>(rows: Seq<(usize, i32, V)>, k: int)
    requires
        rows_wf(rows),
        0 <= k <= rows.len(),
    ensures
        rows_wf(rows.take(k)),
{
    assert forall|x: int|
        0 <= x < rows.take(k).len() implies 1 <= (#[trigger] rows.take(k)[x]).0 as int
        <= spec_max_id(rows.take(k).take(x)) + 1 by {
        assert(rows.take(k)[x] == rows[x]);
        assert(rows.take(k).take(x) =~= rows.take(x));
    }
}

/// In a well-ordered row list the mesh ids are exactly `1 ..= max`.
proof fn lemma_ids_dense<V>(rows: Seq<(usize, i32, V)>, id: int)
    requires
        rows_wf(rows),
    ensures
        has_id(rows, id) <==> 1 <= id <= spec_max_id(rows),
    decreases rows.len(),
{
    if rows.len() == 0 {
    } else {
        let r = rows.drop_last();
        let c = rows.last().0 as int;
        assert(rows[rows.len() - 1] == rows.last());
        assert(rows.take(rows.len() - 1) =~= r);
        assert(1 <= c <= spec_max_id(r) + 1);
        lemma_wf_take(rows, rows.len() - 1);
        lemma_ids_dense(r, id);
        if has_id(rows, id) {
            let x = choose|x: int| 0 <= x < rows.len() && rows[x].0 as int == id;
            if x < rows.len() - 1 {
                assert(r[x] == rows[x]);
                assert(has_id(r, id));
            }
        }
        if 1 <= id <= spec_max_id(rows) {
            if id <= spec_max_id(r) {
                let x = choose|x: int| 0 <= x < r.len() && r[x].0 as int == id;
                assert(rows[x] == r[x]);
                assert(has_id(rows, id));
            } else {
                assert(id == c);
                assert(has_id(rows, id));
            }
        }
    }
}

/// A mutable borrow of the mesh batch at `i`.
fn mesh_at<V>(list: &mut Vec<(Vec<V>, i32)>, i: usize) -> (e: &mut (Vec<V>, i32))
    requires
        i < old(list)@.len(),
    ensures
        *e == old(list)@[i as int],
        final(list)@ == old(list)@.update(i as int, *final(e)),
{
    &mut list[i]
}

/// Groups vertex rows into mesh batches: batch `j` (0-based) holds, in
/// row order, the vertices of all rows with mesh id `j + 1`, together
/// with the texture id of the first such row.
pub fn group_mesh_rows<V: Copy>(rows: Vec<(usize, i32, V)>) -> (r: Vec<(Vec<V>, i32)>)
    requires
        rows_wf(rows@),
    ensures
        r@.len() == spec_max_id(rows@),
        forall|j: int| 0 <= j < r@.len() ==> (#[trigger] r@[j]).0@ == verts_with_id(rows@, j + 1),
        forall|j: int| 0 <= j < r@.len() ==> (#[trigger] r@[j]).1 == tex_first(rows@, j + 1),
{
    let n = rows.len();
    let mut meshes: Vec<(Vec<V>, i32)> = Vec::new();
    let mut k: usize = 0;
    proof {
        assert(rows@.take(0) =~= Seq::<(usize, i32, V)>::empty());
    }
    while k < n
        invariant
            rows_wf(rows@),
            n == rows@.len(),
            k <= n,
            meshes@.len() == spec_max_id(rows@.take(k as int)),
            forall|j: int|
                0 <= j < meshes@.len() ==> (#[trigger] meshes@[j]).0@ == verts_with_id(
                    rows@.take(k as int),
                    j + 1,
                ),
            forall|j: int|
                0 <= j < meshes@.len() ==> (#[trigger] meshes@[j]).1 == tex_first(
                    rows@.take(k as int),
                    j + 1,
                ),
        decreases n - k,
    {
        let ghost gk: int = k as int;
        let ghost pre: Seq<(usize, i32, V)> = rows@.take(gk);
        let ghost post: Seq<(usize, i32, V)> = rows@.take(gk + 1);
        proof {
            assert(rows@[gk].0 as int <= spec_max_id(rows@.take(gk)) + 1);
            assert(post.drop_last() =~= pre);
            assert(post.last() == rows@[gk]);
            lemma_wf_take(rows@, gk);
        }
        let row = rows[k];
        if meshes.len() < row.0 {
            meshes.push((Vec::new(), row.1));
            proof {
                lemma_ids_dense(pre, row.0 as int);
                lemma_verts_absent(pre, row.0 as int);
            }
        }
        let e = mesh_at(&mut meshes, row.0 - 1);
        e.0.push(row.2);
        k += 1;
        proof {
            let ghost cur = meshes@;
            assert(spec_max_id(post) == cur.len());
            assert forall|j: int| 0 <= j < cur.len() implies (#[trigger] cur[j]).0@
                == verts_with_id(post, j + 1) && cur[j].1 == tex_first(post, j + 1) by {
                lemma_ids_dense(pre, j + 1);
                if j + 1 == row.0 as int {
                    assert(verts_with_id(post, j + 1) == verts_with_id(pre, j + 1).push(row.2));
                } else {
                    assert(verts_with_id(post, j + 1) == verts_with_id(pre, j + 1));
                    assert(tex_first(post, j + 1) == tex_first(pre, j + 1));
                }
            }
        }
    }
    proof {
        assert(rows@.take(n as int) =~= rows@);
    }
    meshes
}

} // verus!
