use turbopack::module_type::{
    CssModuleAssetType, EcmascriptModuleAssetType, EcmascriptOptions, ModulePlan, ModuleType,
};
use turbopack::issue::ModuleIssueKind;
use turbopack::rules::{
    process_default, Action, Cursor, Event, ModuleRule, ReferenceType, RuleEffect, RuleWalk,
};

fn opts(split: bool) -> EcmascriptOptions {
    EcmascriptOptions { split_into_parts: split, import_parts: false }
}

fn rule(effects: Vec<RuleEffect>) -> ModuleRule {
    ModuleRule { effects }
}

fn step(w: RuleWalk, rules: &Vec<ModuleRule>, e: Event) -> (RuleWalk, Action) {
    process_default(w, rules, e)
}

#[test]
fn no_rules_gives_raw_module() {
    let rules: Vec<ModuleRule> = vec![];
    let w = RuleWalk::new(vec![], ReferenceType::Other);
    let (w, a) = step(w, &rules, Event::Continue);
    assert!(matches!(a, Action::Finish(ModulePlan::Raw)));
    assert_eq!(w.cursor, Cursor::Done);
}

#[test]
fn unmatched_rules_give_raw_module() {
    let rules = vec![rule(vec![RuleEffect::ModuleType(ModuleType::Json)])];
    let w = RuleWalk::new(vec![], ReferenceType::Other);
    let (w, a) = step(w, &rules, Event::Continue);
    assert!(matches!(a, Action::TestRule(0)));
    let (_, a) = step(w, &rules, Event::Matched(false));
    assert!(matches!(a, Action::Finish(ModulePlan::Raw)));
}

#[test]
fn matching_rule_sets_module_type() {
    let rules = vec![
        rule(vec![RuleEffect::ModuleType(ModuleType::Json)]),
        rule(vec![RuleEffect::ModuleType(ModuleType::Static)]),
    ];
    let w = RuleWalk::new(vec![], ReferenceType::Other);
    let (w, _) = step(w, &rules, Event::Continue);
    let (w, a) = step(w, &rules, Event::Matched(true));
    assert!(matches!(a, Action::TestRule(1)));
    let (_, a) = step(w, &rules, Event::Matched(false));
    assert!(matches!(a, Action::Finish(ModulePlan::Json)));
}

#[test]
fn later_module_type_wins() {
    let rules = vec![
        rule(vec![RuleEffect::ModuleType(ModuleType::Json)]),
        rule(vec![RuleEffect::ModuleType(ModuleType::Css {
            ty: CssModuleAssetType::Module,
            transforms: vec![4],
        })]),
    ];
    let w = RuleWalk::new(vec![], ReferenceType::Other);
    let (w, _) = step(w, &rules, Event::Continue);
    let (w, _) = step(w, &rules, Event::Matched(true));
    let (_, a) = step(w, &rules, Event::Matched(true));
    match a {
        Action::Finish(ModulePlan::Css { ty, transforms }) => {
            assert_eq!(ty, CssModuleAssetType::Module);
            assert_eq!(transforms, vec![4]);
        }
        other => panic!("unexpected {:?}", other),
    }
}

#[test]
fn processed_rules_are_skipped() {
    let rules = vec![
        rule(vec![RuleEffect::SourceTransforms(7)]),
        rule(vec![RuleEffect::ModuleType(ModuleType::Json)]),
    ];
    let w = RuleWalk::new(vec![0], ReferenceType::Other);
    let (_, a) = step(w, &rules, Event::Continue);
    assert!(matches!(a, Action::TestRule(1)));
}

#[test]
fn changed_identity_restarts_with_rule_processed() {
    let rules = vec![
        rule(vec![RuleEffect::ModuleType(ModuleType::Json)]),
        rule(vec![RuleEffect::SourceTransforms(7), RuleEffect::ModuleType(ModuleType::Static)]),
    ];
    let w = RuleWalk::new(vec![0], ReferenceType::Other);
    let (w, a) = step(w, &rules, Event::Continue);
    assert!(matches!(a, Action::TestRule(1)));
    let (w, a) = step(w, &rules, Event::Matched(true));
    assert!(matches!(a, Action::TransformSource(7)));
    let (w, a) = step(w, &rules, Event::Transformed(true));
    match a {
        Action::Restart(p) => assert_eq!(p, vec![0, 1]),
        other => panic!("unexpected {:?}", other),
    }
    assert_eq!(w.cursor, Cursor::Done);
}

#[test]
fn unchanged_identity_continues_with_next_effect() {
    let rules = vec![rule(vec![
        RuleEffect::SourceTransforms(7),
        RuleEffect::ModuleType(ModuleType::Static),
    ])];
    let w = RuleWalk::new(vec![], ReferenceType::Other);
    let (w, _) = step(w, &rules, Event::Continue);
    let (w, a) = step(w, &rules, Event::Matched(true));
    assert!(matches!(a, Action::TransformSource(7)));
    let (_, a) = step(w, &rules, Event::Transformed(false));
    assert!(matches!(a, Action::Finish(ModulePlan::Static)));
}

#[test]
fn transforms_without_module_type_are_reported_missing() {
    let rules = vec![rule(vec![RuleEffect::AddEcmascriptTransforms(vec![1])])];
    let w = RuleWalk::new(vec![], ReferenceType::Other);
    let (w, _) = step(w, &rules, Event::Continue);
    let (w, a) = step(w, &rules, Event::Matched(true));
    assert!(matches!(a, Action::ReportIssue(ModuleIssueKind::MissingModuleType)));
    let (_, a) = step(w, &rules, Event::Continue);
    assert!(matches!(a, Action::Finish(ModulePlan::Raw)));
}

#[test]
fn transforms_on_json_are_reported_invalid() {
    let rules = vec![rule(vec![
        RuleEffect::ModuleType(ModuleType::Json),
        RuleEffect::AddEcmascriptTransforms(vec![1]),
    ])];
    let w = RuleWalk::new(vec![], ReferenceType::Other);
    let (w, _) = step(w, &rules, Event::Continue);
    let (w, a) = step(w, &rules, Event::Matched(true));
    assert!(matches!(a, Action::ReportIssue(ModuleIssueKind::InvalidModuleType)));
    let (_, a) = step(w, &rules, Event::Continue);
    assert!(matches!(a, Action::Finish(ModulePlan::Json)));
}

#[test]
fn transforms_are_appended_to_ecmascript() {
    let rules = vec![
        rule(vec![RuleEffect::ModuleType(ModuleType::Ecmascript {
            transforms: vec![1, 2],
            options: opts(true),
        })]),
        rule(vec![RuleEffect::AddEcmascriptTransforms(vec![3])]),
    ];
    let w = RuleWalk::new(vec![], ReferenceType::EcmaScriptImportPart(9));
    let (w, _) = step(w, &rules, Event::Continue);
    let (w, _) = step(w, &rules, Event::Matched(true));
    let (_, a) = step(w, &rules, Event::Matched(true));
    match a {
        Action::Finish(ModulePlan::Ecmascript { ty, transforms, enable_types, part, inner_assets, .. }) => {
            assert_eq!(ty, EcmascriptModuleAssetType::Ecmascript);
            assert_eq!(transforms, vec![1, 2, 3]);
            assert!(!enable_types);
            assert_eq!(part, Some(9));
            assert_eq!(inner_assets, None);
        }
        other => panic!("unexpected {:?}", other),
    }
}

#[test]
fn internal_reference_brings_inner_assets() {
    let rules = vec![rule(vec![RuleEffect::ModuleType(ModuleType::TypescriptWithTypes {
        transforms: vec![],
        options: opts(false),
    })])];
    let w = RuleWalk::new(vec![], ReferenceType::Internal(5));
    let (w, _) = step(w, &rules, Event::Continue);
    let (_, a) = step(w, &rules, Event::Matched(true));
    match a {
        Action::Finish(ModulePlan::Ecmascript { ty, enable_types, part, inner_assets, .. }) => {
            assert_eq!(ty, EcmascriptModuleAssetType::TypescriptWithTypes);
            assert!(enable_types);
            assert_eq!(part, None);
            assert_eq!(inner_assets, Some(5));
        }
        other => panic!("unexpected {:?}", other),
    }
}
