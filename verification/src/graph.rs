//! The aggregated graph of output assets: assets grouped into nested children.
use vstd::prelude::*;
use crate::emit::FileSystemPath;

verus! {

/// An output asset: its handle, the path it is written to and the handles of the
/// assets it references.
#[derive(Debug)]
pub struct OutputAsset {
    pub id: u64,
    pub path: FileSystemPath,
    pub references: Vec<u64>,
}

/// An aggregated graph node: one asset, or a group of child nodes.
#[derive(Debug)]
pub enum AggregatedGraph {
    Asset(OutputAsset),
    Children(Vec<AggregatedGraph>),
}

/// The assets of a graph, in depth-first order.
pub open spec fn graph_assets(g: AggregatedGraph) -> Seq<OutputAsset>
    decreases g,
{
    match g {
        AggregatedGraph::Asset(a) => seq![a],
        AggregatedGraph::Children(v) => children_assets(v@),
    }
}

/// The assets of a sequence of graphs, one graph after another.
pub open spec fn children_assets(s: Seq<AggregatedGraph>) -> Seq<OutputAsset>
    decreases s,
{
    if s.len() == 0 {
        Seq::empty()
    } else {
        children_assets(s.drop_last()) + graph_assets(s.last())
    }
}

} // verus!
