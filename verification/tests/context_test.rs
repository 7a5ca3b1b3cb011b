use turbopack::context::{ModuleAssetContext, Processing, ResolveOptionsContext, TransitionsByName};

fn named() -> TransitionsByName {
    let mut t = TransitionsByName::new();
    t.insert("a".to_string(), 5);
    t
}

fn resolve(types: bool, ts: bool) -> ResolveOptionsContext {
    ResolveOptionsContext { enable_types: types, enable_typescript: ts, settings: 11 }
}

#[test]
fn types_resolving_needs_both_flags() {
    let c = ModuleAssetContext::new(named(), 2, 3, resolve(true, false), "ssr".to_string());
    assert!(!c.is_types_resolving_enabled());
    let c = ModuleAssetContext::new(named(), 2, 3, resolve(false, true), "ssr".to_string());
    assert!(!c.is_types_resolving_enabled());
    let c = ModuleAssetContext::new(named(), 2, 3, resolve(true, true), "ssr".to_string());
    assert!(c.is_types_resolving_enabled());
}

#[test]
fn enabling_types_makes_new_context_without_transition() {
    let c = ModuleAssetContext::new_transition(named(), 2, 3, resolve(false, false), "ssr".to_string(), 9);
    assert_eq!(c.process(), Processing::ByTransition(9));
    let t = c.with_types_resolving_enabled();
    assert!(t.is_types_resolving_enabled());
    assert_eq!(t.resolve_options_context, resolve(true, true));
    assert_eq!(t.process(), Processing::Default);
    assert_eq!(t.transitions.get(&"a".to_string()), Some(5));
    assert_eq!(t.transitions.get(&"b".to_string()), None);
    assert_eq!(t.compile_time_info(), 2);
    assert_eq!(t.module_options_context(), 3);
    assert_eq!(t.layer(), "ssr".to_string());
}

#[test]
fn enabling_types_keeps_a_context_that_has_them() {
    let c = ModuleAssetContext::new_transition(named(), 2, 3, resolve(true, true), "ssr".to_string(), 9);
    let t = c.with_types_resolving_enabled();
    assert_eq!(t.process(), Processing::ByTransition(9));
    assert_eq!(t.resolve_options_context, resolve(true, true));
}

#[test]
fn with_transition_uses_the_named_transition() {
    let mut transitions = TransitionsByName::new();
    transitions.insert("client".to_string(), 40);
    transitions.insert("server".to_string(), 41);
    transitions.insert("client".to_string(), 42);
    assert_eq!(transitions.get(&"client".to_string()), Some(42));
    assert_eq!(transitions.get(&"server".to_string()), Some(41));
    assert_eq!(transitions.get(&"edge".to_string()), None);
    let c = ModuleAssetContext::new(transitions, 2, 3, resolve(false, false), "ssr".to_string());
    assert_eq!(c.process(), Processing::Default);
    let t = c.with_transition(&"server".to_string());
    assert_eq!(t.process(), Processing::ByTransition(41));
    assert_eq!(t.layer(), "ssr".to_string());
    assert_eq!(t.transitions.get(&"client".to_string()), Some(42));
    let u = t.with_transition(&"edge".to_string());
    assert_eq!(u.process(), Processing::Default);
    let v = u.with_transition(&"client".to_string());
    assert_eq!(v.process(), Processing::ByTransition(42));
}

#[test]
fn resolve_settings_with_types_enabled() {
    let r = resolve(false, false).with_types_enabled();
    assert_eq!(r, resolve(true, true));
}
