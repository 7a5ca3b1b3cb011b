//! Emission of output assets into an output directory.
use vstd::prelude::*;
use crate::graph::{children_assets, graph_assets, AggregatedGraph, OutputAsset};

verus! {

/// A path inside a file system, named by the handle of that file system.
#[derive(Debug)]
pub struct FileSystemPath {
    pub fs: u64,
    pub path: String,
}

/// `path` lies strictly below `dir` (or `dir` is the root of the same file system).
pub open spec fn spec_is_inside(path: FileSystemPath, dir: FileSystemPath) -> bool {
    &&& path.fs == dir.fs
    &&& path.path@.len() >= dir.path@.len()
    &&& path.path@.subrange(0, dir.path@.len() as int) == dir.path@
    &&& (dir.path@.len() == 0 || (path.path@.len() > dir.path@.len()
        && path.path@[dir.path@.len() as int] == '/'))
}

impl FileSystemPath {
    /// Whether this path is inside `context`: same file system, and either `context`
    /// is the root or this path continues `context` with a `/`.
    pub fn is_inside_ref(&self, context: &FileSystemPath) -> (r: bool)
        ensures
            r == spec_is_inside(*self, *context),
    {
        if self.fs != context.fs {
            return false;
        }
        let n = self.path.as_str().unicode_len();
        let m = context.path.as_str().unicode_len();
        if n < m {
            return false;
        }
        let mut i: usize = 0;
        while i < m
            invariant
                i <= m <= n,
                n == self.path@.len(),
                m == context.path@.len(),
                forall|k: int| 0 <= k < i ==> self.path@[k] == context.path@[k],
            decreases m - i,
        {
            if self.path.as_str().get_char(i) != context.path.as_str().get_char(i) {
                return false;
            }
            i = i + 1;
        }
        assert(self.path@.subrange(0, m as int) =~= context.path@);
        if m == 0 {
            true
        } else if n > m {
            self.path.as_str().get_char(m) == '/'
        } else {
            false
        }
    }
}


/// The handles of the assets among `assets` that lie inside `dir`, in order.
pub open spec fn emitted_ids(assets: Seq<OutputAsset>, dir: FileSystemPath) -> Seq<u64>
    decreases assets.len(),
{
    if assets.len() == 0 {
        Seq::empty()
    } else {
        emitted_ids(assets.drop_last(), dir) + if spec_is_inside(assets.last().path, dir) {
            seq![assets.last().id]
        } else {
            Seq::empty()
        }
    }
}

/// Emitting two groups of assets one after the other writes what each group
/// writes, in that order.
pub proof fn law_emitted_ids_concat(a: Seq<OutputAsset>, b: Seq<OutputAsset>, dir: FileSystemPath)
    ensures
        emitted_ids(a + b, dir) == emitted_ids(a, dir) + emitted_ids(b, dir),
    decreases b.len(),
{
    if b.len() == 0 {
        assert(a + b =~= a);
        assert(emitted_ids(b, dir) =~= Seq::<u64>::empty());
    } else {
        law_emitted_ids_concat(a, b.drop_last(), dir);
        assert((a + b).drop_last() =~= a + b.drop_last());
        assert((a + b).last() == b.last());
    }
}

/// A path is inside a directory exactly when it is on the same file system and
/// either the directory is the root or the path is the directory's path followed
/// by a `/` and the rest of the path.
pub proof fn law_is_inside(path: FileSystemPath, dir: FileSystemPath)
    ensures
        spec_is_inside(path, dir) <==> path.fs == dir.fs && (dir.path@.len() == 0 || exists|rest: Seq<char>|
            path.path@ == dir.path@ + "/"@ + rest),
{
    reveal_strlit("/");
    let p = path.path@;
    let d = dir.path@;
    if spec_is_inside(path, dir) && d.len() > 0 {
        let rest = p.subrange(d.len() as int + 1, p.len() as int);
        assert(p =~= d + "/"@ + rest);
        assert(exists|rest: Seq<char>| p == d + "/"@ + rest);
    }
    if path.fs == dir.fs && d.len() > 0 && exists|rest: Seq<char>| p == d + "/"@ + rest {
        let rest = choose|rest: Seq<char>| p == d + "/"@ + rest;
        assert(("/"@)[0] == '/');
        assert(p.subrange(0, d.len() as int) =~= d);
        assert(p[d.len() as int] == '/');
    }
    if d.len() == 0 {
        assert(p.subrange(0, 0) =~= d);
    }
}

/// One asset is emitted, by its handle, exactly when its path lies inside the
/// directory; with the law for two groups this fixes what any sequence emits.
pub proof fn law_emitted_ids_single(a: OutputAsset, dir: FileSystemPath)
    ensures
        emitted_ids(seq![a], dir) == if spec_is_inside(a.path, dir) {
            seq![a.id]
        } else {
            Seq::<u64>::empty()
        },
{
    assert(seq![a].drop_last() =~= Seq::<OutputAsset>::empty());
    assert(emitted_ids(Seq::<OutputAsset>::empty(), dir) =~= Seq::<u64>::empty());
    assert(Seq::<u64>::empty() + seq![a.id] =~= seq![a.id]);
    assert(Seq::<u64>::empty() + Seq::<u64>::empty() =~= Seq::<u64>::empty());
}

/// Whether `asset` is written when emitting into `output_dir`: exactly when its
/// path lies inside that directory.
pub fn emit_asset_into_dir(asset: &OutputAsset, output_dir: &FileSystemPath) -> (r: bool)
    ensures
        r == spec_is_inside(asset.path, *output_dir),
{
    asset.path.is_inside_ref(output_dir)
}

fn collect_emitted(g: &AggregatedGraph, dir: &FileSystemPath, out: &mut Vec<u64>)
    ensures
        final(out)@ == old(out)@ + emitted_ids(graph_assets(*g), *dir),
    decreases g,
{
    match g {
        AggregatedGraph::Asset(a) => {
            assert(graph_assets(*g).drop_last() =~= Seq::<OutputAsset>::empty());
            assert(emitted_ids(Seq::<OutputAsset>::empty(), *dir) =~= Seq::<u64>::empty());
            if emit_asset_into_dir(a, dir) {
                out.push(a.id);
                assert(out@ =~= old(out)@ + emitted_ids(graph_assets(*g), *dir));
            } else {
                assert(out@ =~= old(out)@ + emitted_ids(graph_assets(*g), *dir));
            }
        },
        AggregatedGraph::Children(v) => {
            let ghost start = out@;
            let mut i: usize = 0;
            assert(children_assets(v@.take(0)) =~= Seq::<OutputAsset>::empty());
            assert(start + emitted_ids(Seq::<OutputAsset>::empty(), *dir) =~= start);
            while i < v.len()
                invariant
                    *g == AggregatedGraph::Children(*v),
                    i <= v.len(),
                    out@ == start + emitted_ids(children_assets(v@.take(i as int)), *dir),
                decreases v.len() - i,
            {
                proof {
                    assert(decreases_to!(*g => (*g)->Children_0));
                    assert(decreases_to!(*v => v[i as int]));
                }
                collect_emitted(&v[i], dir, out);
                proof {
                    assert(v@.take(i + 1).drop_last() =~= v@.take(i as int));
                    assert(v@.take(i + 1).last() == v@[i as int]);
                    law_emitted_ids_concat(
                        children_assets(v@.take(i as int)),
                        graph_assets(v@[i as int]),
                        *dir,
                    );
                }
                i = i + 1;
                assert(out@ =~= start + emitted_ids(children_assets(v@.take(i as int)), *dir));
            }
            assert(v@.take(v.len() as int) =~= v@);
        },
    }
}

/// The handles of the assets of an aggregated graph to write into `output_dir`:
/// every asset whose path lies inside it, in depth-first order.
pub fn emit_aggregated_assets(graph: &AggregatedGraph, output_dir: &FileSystemPath) -> (r: Vec<u64>)
    ensures
        r@ == emitted_ids(graph_assets(*graph), *output_dir),
{
    let mut out: Vec<u64> = Vec::new();
    collect_emitted(graph, output_dir, &mut out);
    assert(out@ =~= emitted_ids(graph_assets(*graph), *output_dir));
    out
}

} // verus!
