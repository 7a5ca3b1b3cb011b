use std::collections::HashSet;
use turbopack::context::{ModuleAssetContext, Processing, ResolveOptionsContext, TransitionsByName};
use turbopack::emit::{emit_aggregated_assets, FileSystemPath};
use turbopack::graph::{AggregatedGraph, OutputAsset};
use turbopack::module_type::{ModulePlan, ModuleType};
use turbopack::references::{compute_back_references, top_references};
use turbopack::rules::{process_default, Action, Event, ModuleRule, ReferenceType, RuleEffect, RuleWalk};
use turbopack::top::select_top;

fn asset(id: u64, p: &str, refs: Vec<u64>) -> AggregatedGraph {
    AggregatedGraph::Asset(OutputAsset {
        id,
        path: FileSystemPath { fs: 1, path: p.to_string() },
        references: refs,
    })
}

/// Runs the walk with every rule matching and every transform changing the
/// identity, counting restarts.
fn run_all_changing(rules: &Vec<ModuleRule>) -> (usize, ModulePlan) {
    let mut processed = vec![];
    let mut restarts = 0;
    loop {
        let mut w = RuleWalk::new(processed.clone(), ReferenceType::Other);
        let mut e = Event::Continue;
        loop {
            let (nw, a) = process_default(w, rules, e);
            w = nw;
            match a {
                Action::TestRule(_) => e = Event::Matched(true),
                Action::TransformSource(_) => e = Event::Transformed(true),
                Action::ReportIssue(_) => e = Event::Continue,
                Action::Restart(p) => {
                    assert_eq!(p.len(), processed.len() + 1);
                    processed = p;
                    restarts += 1;
                    break;
                }
                Action::Finish(plan) => return (restarts, plan),
            }
        }
    }
}

#[test]
fn restarts_are_bounded_by_the_rules() {
    let rules = vec![
        ModuleRule { effects: vec![RuleEffect::SourceTransforms(1)] },
        ModuleRule { effects: vec![RuleEffect::SourceTransforms(2), RuleEffect::ModuleType(ModuleType::Json)] },
        ModuleRule { effects: vec![RuleEffect::ModuleType(ModuleType::Static)] },
    ];
    let (restarts, plan) = run_all_changing(&rules);
    assert_eq!(restarts, 2);
    assert!(matches!(plan, ModulePlan::Static));
}

#[test]
fn enabling_types_twice_is_enabling_once() {
    let c = ModuleAssetContext::new(
        TransitionsByName::new(),
        2,
        3,
        ResolveOptionsContext { enable_types: false, enable_typescript: true, settings: 4 },
        "a".to_string(),
    );
    let once = c.with_types_resolving_enabled();
    let twice = once.with_types_resolving_enabled();
    assert!(once.is_types_resolving_enabled());
    assert_eq!(once.resolve_options_context, twice.resolve_options_context);
    assert_eq!(once.process(), twice.process());
    assert_eq!(once.layer(), twice.layer());
    assert_eq!(twice.resolve_options_context.settings, 4);
}

#[test]
fn choosing_a_transition_twice_is_choosing_once() {
    let mut t = TransitionsByName::new();
    t.insert("x".to_string(), 5);
    let c = ModuleAssetContext::new(
        t,
        2,
        3,
        ResolveOptionsContext { enable_types: true, enable_typescript: true, settings: 4 },
        "a".to_string(),
    );
    let once = c.with_transition(&"x".to_string());
    let twice = once.with_transition(&"x".to_string());
    assert_eq!(once.process(), Processing::ByTransition(5));
    assert_eq!(twice.process(), once.process());
    assert_eq!(twice.compile_time_info(), 2);
}

#[test]
fn selection_holds_the_largest_sorted() {
    let entries: Vec<(u64, usize)> = vec![(1, 4), (2, 9), (3, 1), (4, 7), (5, 3), (6, 8), (7, 2), (8, 6)];
    let top = select_top(&entries);
    assert_eq!(top, vec![(2, 9), (6, 8), (4, 7), (8, 6), (1, 4)]);
    for w in top.windows(2) {
        assert!(w[0].1 >= w[1].1);
    }
    let min = top.iter().map(|e| e.1).min().unwrap();
    for e in entries.iter() {
        assert!(top.contains(e) || e.1 <= min);
    }
}

#[test]
fn back_references_of_a_group_merge_its_parts() {
    let a = asset(1, "o/1", vec![10, 11]);
    let b = asset(2, "o/2", vec![10]);
    let whole = compute_back_references(&AggregatedGraph::Children(vec![
        asset(1, "o/1", vec![10, 11]),
        asset(2, "o/2", vec![10]),
    ]));
    let left = compute_back_references(&a);
    let right = compute_back_references(&b);
    let mut keys: HashSet<u64> = left.referenced_by.keys().copied().collect();
    keys.extend(right.referenced_by.keys().copied());
    assert_eq!(whole.referenced_by.keys().copied().collect::<HashSet<u64>>(), keys);
    for k in keys {
        let mut expect: HashSet<u64> = HashSet::new();
        if let Some(s) = left.referenced_by.get(&k) {
            expect.extend(s.iter().copied());
        }
        if let Some(s) = right.referenced_by.get(&k) {
            expect.extend(s.iter().copied());
        }
        assert_eq!(whole.referenced_by[&k], expect);
    }
}

#[test]
fn emitting_a_group_emits_its_parts_in_order() {
    let dir = FileSystemPath { fs: 1, path: "d".to_string() };
    let left = vec![asset(1, "d/1", vec![]), asset(2, "x/2", vec![])];
    let right = vec![asset(3, "d/3", vec![])];
    let l = emit_aggregated_assets(&AggregatedGraph::Children(left), &dir);
    let r = emit_aggregated_assets(&AggregatedGraph::Children(right), &dir);
    let whole = emit_aggregated_assets(
        &AggregatedGraph::Children(vec![
            asset(1, "d/1", vec![]),
            asset(2, "x/2", vec![]),
            asset(3, "d/3", vec![]),
        ]),
        &dir,
    );
    let mut joined = l.clone();
    joined.extend(r);
    assert_eq!(whole, joined);
    assert_eq!(whole, vec![1, 3]);
}

#[test]
fn walk_answered_as_asked_ends_within_its_measure() {
    // rule 0 matches and has a transform that keeps the identity, an added
    // transform without type (reported) and then a type; rule 1 does not match.
    let rules = vec![
        ModuleRule {
            effects: vec![
                RuleEffect::SourceTransforms(7),
                RuleEffect::AddEcmascriptTransforms(vec![1]),
                RuleEffect::ModuleType(ModuleType::Json),
            ],
        },
        ModuleRule { effects: vec![RuleEffect::ModuleType(ModuleType::Static)] },
    ];
    let mut w = RuleWalk::new(vec![], ReferenceType::Other);
    let mut e = Event::Continue;
    let mut steps = 0;
    let mut actions = vec![];
    let plan = loop {
        let (nw, a) = process_default(w, &rules, e);
        w = nw;
        steps += 1;
        match a {
            Action::TestRule(i) => {
                actions.push(format!("test {}", i));
                e = Event::Matched(i == 0);
            }
            Action::TransformSource(h) => {
                actions.push(format!("transform {}", h));
                e = Event::Transformed(false);
            }
            Action::ReportIssue(_) => {
                actions.push("issue".to_string());
                e = Event::Continue;
            }
            Action::Restart(_) => panic!("no transform changed the identity"),
            Action::Finish(plan) => break plan,
        }
    };
    assert_eq!(actions, vec!["test 0", "transform 7", "issue", "test 1"]);
    assert_eq!(steps, 5);
    assert!(matches!(plan, ModulePlan::Json));
}

#[test]
fn back_references_of_many_children_do_not_depend_on_their_order() {
    let parts = || {
        vec![
            asset(1, "o/1", vec![10, 11]),
            AggregatedGraph::Children(vec![asset(2, "o/2", vec![10])]),
            asset(3, "o/3", vec![12, 10]),
        ]
    };
    let forward = compute_back_references(&AggregatedGraph::Children(parts()));
    let mut reversed_parts = parts();
    reversed_parts.reverse();
    let backward = compute_back_references(&AggregatedGraph::Children(reversed_parts));
    assert_eq!(forward.referenced_by, backward.referenced_by);
    let mut union: std::collections::HashMap<u64, HashSet<u64>> = std::collections::HashMap::new();
    for child in parts() {
        for (k, s) in compute_back_references(&child).referenced_by {
            union.entry(k).or_default().extend(s);
        }
    }
    assert_eq!(forward.referenced_by, union);
}

#[test]
fn selecting_the_most_referenced_twice_selects_the_same() {
    let g = AggregatedGraph::Children(vec![
        asset(1, "o/1", vec![10, 11, 12, 13, 14, 15, 16]),
        asset(2, "o/2", vec![10, 11, 12, 13]),
        asset(3, "o/3", vec![10, 11]),
        asset(4, "o/4", vec![10]),
    ]);
    let list = compute_back_references(&g);
    assert_eq!(list.referenced_by.len(), 7);
    let once = top_references(&list);
    let twice = top_references(&once);
    assert_eq!(once.referenced_by.len(), 5);
    assert_eq!(twice.referenced_by, once.referenced_by);
    let small = compute_back_references(&asset(9, "o/9", vec![20, 21]));
    assert_eq!(top_references(&small).referenced_by, small.referenced_by);
}
