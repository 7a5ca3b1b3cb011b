use turbopack::css_import::{
    CssImport, CssReferenceSubType, Declaration, ImportAssetReference, ImportAttributes,
    ImportConditions, ImportLayer, ImportRule, LayerName, PreludeComponent, Request,
    SupportsCondition,
};

fn s(x: &str) -> String {
    x.to_string()
}

fn attributes(layer: Option<Vec<&str>>, supports: Option<SupportsCondition>, media: Option<Vec<&str>>) -> ImportAttributes {
    ImportAttributes {
        layer_name: layer.map(|l| LayerName { name: l.into_iter().map(s).collect() }),
        supports,
        media: media.map(|m| m.into_iter().map(s).collect()),
    }
}

#[test]
fn print_block_nests_layer_supports_media() {
    let a = attributes(
        Some(vec!["base", "reset"]),
        Some(SupportsCondition::Feature(Declaration { name: s("display"), value: s("grid") })),
        Some(vec!["screen", "print"]),
    );
    let (open, close) = a.print_block();
    assert_eq!(open, "@layer base.reset {\n@supports (display: grid) {\n@media screen, print {");
    assert_eq!(close, "}\n}\n}");
}

#[test]
fn print_block_without_attributes_is_empty() {
    let (open, close) = attributes(None, None, None).print_block();
    assert_eq!(open, "");
    assert_eq!(close, "");
}

#[test]
fn print_block_anonymous_layer() {
    let (open, close) = attributes(Some(vec![]), None, None).print_block();
    assert_eq!(open, "@layer {");
    assert_eq!(close, "}");
}

#[test]
fn print_block_media_only() {
    let (open, close) = attributes(None, None, Some(vec!["(min-width: 100px)"])).print_block();
    assert_eq!(open, "@media (min-width: 100px) {");
    assert_eq!(close, "}");
}

#[test]
fn print_block_supports_condition_as_written() {
    let a = attributes(None, Some(SupportsCondition::Condition(s("not (display: grid)"))), None);
    let (open, close) = a.print_block();
    assert_eq!(open, "@supports not (display: grid) {");
    assert_eq!(close, "}");
}

#[test]
fn attributes_from_prelude_with_layer_function() {
    let prelude = ImportRule {
        layer: Some(ImportLayer::Function(vec![PreludeComponent::LayerName(LayerName {
            name: vec![s("theme"), s("dark")],
        })])),
        import_conditions: Some(ImportConditions {
            supports: Some(vec![
                PreludeComponent::Other,
                PreludeComponent::Declaration(Declaration { name: s("color"), value: s("red") }),
                PreludeComponent::SupportsCondition(s("(gap: 1px)")),
            ]),
            media: Some(vec![s("screen")]),
        }),
    };
    let a = ImportAttributes::new_from_prelude(&prelude);
    assert_eq!(a.layer_name.as_ref().unwrap().name, vec![s("theme"), s("dark")]);
    match a.supports.as_ref().unwrap() {
        SupportsCondition::Feature(d) => {
            assert_eq!(d.name, "color");
            assert_eq!(d.value, "red");
        }
        other => panic!("unexpected {:?}", other),
    }
    assert_eq!(a.media, Some(vec![s("screen")]));
    let (open, close) = a.print_block();
    assert_eq!(open, "@layer theme.dark {\n@supports (color: red) {\n@media screen {");
    assert_eq!(close, "}\n}\n}");
}

#[test]
fn attributes_from_prelude_with_anonymous_layer() {
    let prelude = ImportRule {
        layer: Some(ImportLayer::Anonymous),
        import_conditions: Some(ImportConditions {
            supports: Some(vec![PreludeComponent::SupportsCondition(s("(gap: 1px)"))]),
            media: None,
        }),
    };
    let a = ImportAttributes::new_from_prelude(&prelude);
    assert_eq!(a.layer_name.as_ref().unwrap().name, Vec::<String>::new());
    assert!(matches!(a.supports, Some(SupportsCondition::Condition(ref t)) if t == "(gap: 1px)"));
    assert_eq!(a.media, None);
}

#[test]
fn attributes_from_prelude_without_anything() {
    let prelude = ImportRule { layer: None, import_conditions: None };
    let a = ImportAttributes::new_from_prelude(&prelude);
    assert!(a.layer_name.is_none());
    assert!(a.supports.is_none());
    assert!(a.media.is_none());
}

#[test]
fn supports_without_condition_gives_none() {
    let prelude = ImportRule {
        layer: None,
        import_conditions: Some(ImportConditions {
            supports: Some(vec![PreludeComponent::Other]),
            media: None,
        }),
    };
    let a = ImportAttributes::new_from_prelude(&prelude);
    assert!(a.supports.is_none());
}

fn reference(request: Request) -> ImportAssetReference {
    ImportAssetReference::new(1, request, 2, attributes(None, None, None), 3)
}

#[test]
fn reference_describes_itself() {
    let r = reference(Request::Other(4));
    assert_eq!(r.to_string(&s("./a.css")), "import(url) ./a.css");
}

#[test]
fn uri_request_is_imported_externally() {
    let r = reference(Request::Uri { protocol: s("https://"), remainder: s("example.com/a.css") });
    let g = r.code_generation();
    assert!(g.visitors.is_empty());
    assert_eq!(g.imports.len(), 1);
    match &g.imports[0] {
        CssImport::External(url) => assert_eq!(url, "https://example.com/a.css"),
    }
}

#[test]
fn other_request_has_no_import() {
    let g = reference(Request::Other(4)).code_generation();
    assert!(g.imports.is_empty());
    assert!(g.visitors.is_empty());
}

#[test]
fn reference_resolves_as_at_import() {
    let r = reference(Request::Other(4));
    let c = r.resolve_reference();
    assert_eq!(c.origin, 1);
    assert_eq!(c.sub_type, CssReferenceSubType::AtImport);
    assert_eq!(c.issue_source, Some(3));
    assert!(matches!(c.request, Request::Other(4)));
}
