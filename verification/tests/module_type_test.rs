use turbopack::module_type::{
    apply_module_type, extend_handles, EcmascriptModuleAssetType, EcmascriptOptions, ModulePlan,
    ModuleType, WebAssemblySourceType,
};

fn opts(split: bool) -> EcmascriptOptions {
    EcmascriptOptions { split_into_parts: split, import_parts: false }
}

#[test]
fn ecmascript_without_splitting_drops_part() {
    let plan = apply_module_type(
        ModuleType::Ecmascript { transforms: vec![1], options: opts(false) },
        Some(3),
        Some(4),
    );
    match plan {
        ModulePlan::Ecmascript { ty, transforms, options, enable_types, inner_assets, part } => {
            assert_eq!(ty, EcmascriptModuleAssetType::Ecmascript);
            assert_eq!(transforms, vec![1]);
            assert_eq!(options, opts(false));
            assert!(!enable_types);
            assert_eq!(inner_assets, Some(4));
            assert_eq!(part, None);
        }
        other => panic!("unexpected {:?}", other),
    }
}

#[test]
fn typescript_declaration_resolves_types() {
    let plan = apply_module_type(
        ModuleType::TypescriptDeclaration { transforms: vec![], options: opts(true) },
        Some(3),
        None,
    );
    match plan {
        ModulePlan::Ecmascript { ty, enable_types, part, .. } => {
            assert_eq!(ty, EcmascriptModuleAssetType::TypescriptDeclaration);
            assert!(enable_types);
            assert_eq!(part, Some(3));
        }
        other => panic!("unexpected {:?}", other),
    }
}

#[test]
fn plain_typescript_does_not_resolve_types() {
    let plan = apply_module_type(
        ModuleType::Typescript { transforms: vec![2], options: opts(true) },
        None,
        None,
    );
    match plan {
        ModulePlan::Ecmascript { ty, enable_types, .. } => {
            assert_eq!(ty, EcmascriptModuleAssetType::Typescript);
            assert!(!enable_types);
        }
        other => panic!("unexpected {:?}", other),
    }
}

#[test]
fn custom_module_type_gets_the_part() {
    let plan = apply_module_type(ModuleType::Custom(8), Some(2), Some(1));
    assert!(matches!(plan, ModulePlan::Custom { custom: 8, part: Some(2) }));
}

#[test]
fn other_module_types_map_to_their_assets() {
    assert!(matches!(apply_module_type(ModuleType::Json, None, None), ModulePlan::Json));
    assert!(matches!(apply_module_type(ModuleType::Raw, None, None), ModulePlan::Raw));
    assert!(matches!(apply_module_type(ModuleType::CssGlobal, None, None), ModulePlan::CssGlobal));
    assert!(matches!(apply_module_type(ModuleType::CssModule, None, None), ModulePlan::CssModule));
    assert!(matches!(apply_module_type(ModuleType::Static, None, None), ModulePlan::Static));
    assert!(matches!(
        apply_module_type(
            ModuleType::WebAssembly { source_ty: WebAssemblySourceType::Text },
            None,
            None
        ),
        ModulePlan::WebAssembly { source_ty: WebAssemblySourceType::Text }
    ));
    match apply_module_type(ModuleType::Mdx { transforms: vec![5, 6], options: 7 }, Some(1), None) {
        ModulePlan::Mdx { transforms, options } => {
            assert_eq!(transforms, vec![5, 6]);
            assert_eq!(options, 7);
        }
        other => panic!("unexpected {:?}", other),
    }
}

#[test]
fn extending_transforms_appends_in_order() {
    assert_eq!(extend_handles(&vec![1, 2], &vec![3, 4]), vec![1, 2, 3, 4]);
    assert_eq!(extend_handles(&vec![], &vec![3]), vec![3]);
}

#[test]
fn duplicate_module_type_is_equal() {
    let t = ModuleType::Ecmascript { transforms: vec![1, 2], options: opts(true) };
    match t.duplicate() {
        ModuleType::Ecmascript { transforms, options } => {
            assert_eq!(transforms, vec![1, 2]);
            assert_eq!(options, opts(true));
        }
        other => panic!("unexpected {:?}", other),
    }
}
