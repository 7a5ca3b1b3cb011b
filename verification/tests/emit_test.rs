use turbopack::emit::{emit_aggregated_assets, emit_asset_into_dir, FileSystemPath};
use turbopack::graph::{AggregatedGraph, OutputAsset};

fn path(fs: u64, p: &str) -> FileSystemPath {
    FileSystemPath { fs, path: p.to_string() }
}

fn asset(id: u64, p: &str) -> AggregatedGraph {
    AggregatedGraph::Asset(OutputAsset { id, path: path(1, p), references: vec![] })
}

#[test]
fn inside_needs_separator_after_directory() {
    assert!(path(1, "out/a.js").is_inside_ref(&path(1, "out")));
    assert!(!path(1, "outer/a.js").is_inside_ref(&path(1, "out")));
    assert!(!path(1, "out").is_inside_ref(&path(1, "out")));
    assert!(path(1, "out/x/y").is_inside_ref(&path(1, "out/x")));
}

#[test]
fn everything_is_inside_the_root() {
    assert!(path(1, "a").is_inside_ref(&path(1, "")));
    assert!(path(1, "").is_inside_ref(&path(1, "")));
}

#[test]
fn other_file_system_is_never_inside() {
    assert!(!path(2, "out/a.js").is_inside_ref(&path(1, "out")));
}

#[test]
fn emit_into_dir_checks_the_path() {
    let a = OutputAsset { id: 1, path: path(1, "dist/main.js"), references: vec![] };
    assert!(emit_asset_into_dir(&a, &path(1, "dist")));
    assert!(!emit_asset_into_dir(&a, &path(1, "build")));
}

#[test]
fn aggregated_assets_emitted_in_order_inside_dir() {
    let g = AggregatedGraph::Children(vec![
        asset(1, "dist/a.js"),
        AggregatedGraph::Children(vec![asset(2, "other/b.js"), asset(3, "dist/c/d.js")]),
        AggregatedGraph::Children(vec![]),
        asset(4, "dist/e.css"),
    ]);
    assert_eq!(emit_aggregated_assets(&g, &path(1, "dist")), vec![1, 3, 4]);
    assert_eq!(emit_aggregated_assets(&g, &path(1, "")), vec![1, 2, 3, 4]);
    assert_eq!(emit_aggregated_assets(&g, &path(7, "")), Vec::<u64>::new());
}
