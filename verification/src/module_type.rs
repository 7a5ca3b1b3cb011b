//! Module types that rules assign to a source, and the plan by which a source of
//! a given module type becomes a module.
use vstd::prelude::*;

verus! {

/// Whether a CSS asset is global CSS or a CSS module.
#[derive(Clone, Copy, PartialEq, Eq, Structural, Debug)]
pub enum CssModuleAssetType {
    Global,
    Module,
}

/// The encoding of a WebAssembly source.
#[derive(Clone, Copy, PartialEq, Eq, Structural, Debug)]
pub enum WebAssemblySourceType {
    Binary,
    Text,
}

/// Options of an ECMAScript module.
#[derive(Clone, Copy, PartialEq, Eq, Structural, Debug)]
pub struct EcmascriptOptions {
    /// Split the module into parts (tree shaking).
    pub split_into_parts: bool,
    /// Import only the parts that are used.
    pub import_parts: bool,
}

/// The flavour of an ECMAScript module asset.
#[derive(Clone, Copy, PartialEq, Eq, Structural, Debug)]
pub enum EcmascriptModuleAssetType {
    Ecmascript,
    Typescript,
    TypescriptWithTypes,
    TypescriptDeclaration,
}

/// The module type a source is processed as. Transform lists hold the handles
/// of their transforms, in the order they are applied; other handles name values
/// that are carried through unchanged.
#[derive(Debug)]
pub enum ModuleType {
    Ecmascript { transforms: Vec<u64>, options: EcmascriptOptions },
    Typescript { transforms: Vec<u64>, options: EcmascriptOptions },
    TypescriptWithTypes { transforms: Vec<u64>, options: EcmascriptOptions },
    TypescriptDeclaration { transforms: Vec<u64>, options: EcmascriptOptions },
    Json,
    Raw,
    Mdx { transforms: Vec<u64>, options: u64 },
    CssGlobal,
    CssModule,
    Css { ty: CssModuleAssetType, transforms: Vec<u64> },
    Static,
    WebAssembly { source_ty: WebAssemblySourceType },
    Custom(u64),
}

/// Mathematical model of [`ModuleType`]: transform lists as sequences.
pub enum ModuleTypeModel {
    Ecmascript { transforms: Seq<u64>, options: EcmascriptOptions },
    Typescript { transforms: Seq<u64>, options: EcmascriptOptions },
    TypescriptWithTypes { transforms: Seq<u64>, options: EcmascriptOptions },
    TypescriptDeclaration { transforms: Seq<u64>, options: EcmascriptOptions },
    Json,
    Raw,
    Mdx { transforms: Seq<u64>, options: u64 },
    CssGlobal,
    CssModule,
    Css { ty: CssModuleAssetType, transforms: Seq<u64> },
    Static,
    WebAssembly { source_ty: WebAssemblySourceType },
    Custom(u64),
}

impl View for ModuleType {
    type V = ModuleTypeModel;

    open spec fn view(&self) -> ModuleTypeModel {
        match self {
            ModuleType::Ecmascript { transforms, options } => ModuleTypeModel::Ecmascript {
                transforms: transforms@,
                options: *options,
            },
            ModuleType::Typescript { transforms, options } => ModuleTypeModel::Typescript {
                transforms: transforms@,
                options: *options,
            },
            ModuleType::TypescriptWithTypes { transforms, options } =>
                ModuleTypeModel::TypescriptWithTypes { transforms: transforms@, options: *options },
            ModuleType::TypescriptDeclaration { transforms, options } =>
                ModuleTypeModel::TypescriptDeclaration {
                transforms: transforms@,
                options: *options,
            },
            ModuleType::Json => ModuleTypeModel::Json,
            ModuleType::Raw => ModuleTypeModel::Raw,
            ModuleType::Mdx { transforms, options } => ModuleTypeModel::Mdx {
                transforms: transforms@,
                options: *options,
            },
            ModuleType::CssGlobal => ModuleTypeModel::CssGlobal,
            ModuleType::CssModule => ModuleTypeModel::CssModule,
            ModuleType::Css { ty, transforms } => ModuleTypeModel::Css {
                ty: *ty,
                transforms: transforms@,
            },
            ModuleType::Static => ModuleTypeModel::Static,
            ModuleType::WebAssembly { source_ty } => ModuleTypeModel::WebAssembly {
                source_ty: *source_ty,
            },
            ModuleType::Custom(c) => ModuleTypeModel::Custom(*c),
        }
    }
}

/// A copy of a list of handles.
pub fn copy_handles(v: &Vec<u64>) -> (r: Vec<u64>)
    ensures
        r@ == v@,
{
    let mut r: Vec<u64> = Vec::new();
    let mut i: usize = 0;
    while i < v.len()
        invariant
            i <= v.len(),
            r@ == v@.subrange(0, i as int),
        decreases v.len() - i,
    {
        r.push(v[i]);
        i = i + 1;
        assert(r@ =~= v@.subrange(0, i as int));
    }
    assert(v@.subrange(0, v.len() as int) =~= v@);
    r
}

/// `transforms` followed by `more`: the list of an ECMAScript module type
/// after more input transforms were added to it.
pub fn extend_handles(transforms: &Vec<u64>, more: &Vec<u64>) -> (r: Vec<u64>)
    ensures
        r@ == transforms@ + more@,
{
    let mut r = copy_handles(transforms);
    let mut i: usize = 0;
    while i < more.len()
        invariant
            i <= more.len(),
            r@ == transforms@ + more@.subrange(0, i as int),
        decreases more.len() - i,
    {
        r.push(more[i]);
        i = i + 1;
        assert(r@ =~= transforms@ + more@.subrange(0, i as int));
    }
    assert(more@.subrange(0, more.len() as int) =~= more@);
    r
}

impl ModuleType {
    /// An equal copy of this module type.
    pub fn duplicate(&self) -> (r: ModuleType)
        ensures
            r@ == self@,
    {
        match self {
            ModuleType::Ecmascript { transforms, options } => ModuleType::Ecmascript {
                transforms: copy_handles(transforms),
                options: *options,
            },
            ModuleType::Typescript { transforms, options } => ModuleType::Typescript {
                transforms: copy_handles(transforms),
                options: *options,
            },
            ModuleType::TypescriptWithTypes { transforms, options } =>
                ModuleType::TypescriptWithTypes {
                transforms: copy_handles(transforms),
                options: *options,
            },
            ModuleType::TypescriptDeclaration { transforms, options } =>
                ModuleType::TypescriptDeclaration {
                transforms: copy_handles(transforms),
                options: *options,
            },
            ModuleType::Json => ModuleType::Json,
            ModuleType::Raw => ModuleType::Raw,
            ModuleType::Mdx { transforms, options } => ModuleType::Mdx {
                transforms: copy_handles(transforms),
                options: *options,
            },
            ModuleType::CssGlobal => ModuleType::CssGlobal,
            ModuleType::CssModule => ModuleType::CssModule,
            ModuleType::Css { ty, transforms } => ModuleType::Css {
                ty: *ty,
                transforms: copy_handles(transforms),
            },
            ModuleType::Static => ModuleType::Static,
            ModuleType::WebAssembly { source_ty } => ModuleType::WebAssembly {
                source_ty: *source_ty,
            },
            ModuleType::Custom(c) => ModuleType::Custom(*c),
        }
    }
}


/// How a source of some module type becomes a module: which asset is built and
/// with which settings. The source itself and the asset context travel beside it.
#[derive(Debug)]
pub enum ModulePlan {
    /// An ECMAScript module asset; `enable_types` asks for a context with type
    /// resolving enabled, `inner_assets` and `part` are set on the builder when present.
    Ecmascript {
        ty: EcmascriptModuleAssetType,
        transforms: Vec<u64>,
        options: EcmascriptOptions,
        enable_types: bool,
        inner_assets: Option<u64>,
        part: Option<u64>,
    },
    Json,
    Raw,
    CssGlobal,
    CssModule,
    Css { ty: CssModuleAssetType, transforms: Vec<u64> },
    Static,
    Mdx { transforms: Vec<u64>, options: u64 },
    WebAssembly { source_ty: WebAssemblySourceType },
    /// A module made by a custom module type, which receives the part.
    Custom { custom: u64, part: Option<u64> },
}

/// Mathematical model of [`ModulePlan`].
pub enum ModulePlanModel {
    Ecmascript {
        ty: EcmascriptModuleAssetType,
        transforms: Seq<u64>,
        options: EcmascriptOptions,
        enable_types: bool,
        inner_assets: Option<u64>,
        part: Option<u64>,
    },
    Json,
    Raw,
    CssGlobal,
    CssModule,
    Css { ty: CssModuleAssetType, transforms: Seq<u64> },
    Static,
    Mdx { transforms: Seq<u64>, options: u64 },
    WebAssembly { source_ty: WebAssemblySourceType },
    Custom { custom: u64, part: Option<u64> },
}

impl View for ModulePlan {
    type V = ModulePlanModel;

    open spec fn view(&self) -> ModulePlanModel {
        match self {
            ModulePlan::Ecmascript { ty, transforms, options, enable_types, inner_assets, part } =>
                ModulePlanModel::Ecmascript {
                ty: *ty,
                transforms: transforms@,
                options: *options,
                enable_types: *enable_types,
                inner_assets: *inner_assets,
                part: *part,
            },
            ModulePlan::Json => ModulePlanModel::Json,
            ModulePlan::Raw => ModulePlanModel::Raw,
            ModulePlan::CssGlobal => ModulePlanModel::CssGlobal,
            ModulePlan::CssModule => ModulePlanModel::CssModule,
            ModulePlan::Css { ty, transforms } => ModulePlanModel::Css {
                ty: *ty,
                transforms: transforms@,
            },
            ModulePlan::Static => ModulePlanModel::Static,
            ModulePlan::Mdx { transforms, options } => ModulePlanModel::Mdx {
                transforms: transforms@,
                options: *options,
            },
            ModulePlan::WebAssembly { source_ty } => ModulePlanModel::WebAssembly {
                source_ty: *source_ty,
            },
            ModulePlan::Custom { custom, part } => ModulePlanModel::Custom {
                custom: *custom,
                part: *part,
            },
        }
    }
}

/// The ECMAScript asset plan for one of the four ECMAScript module types: a
/// types-resolving context for the typed flavours, the inner assets when given,
/// and the part only when the options split modules into parts.
pub open spec fn spec_ecmascript_plan(
    ty: EcmascriptModuleAssetType,
    transforms: Seq<u64>,
    options: EcmascriptOptions,
    part: Option<u64>,
    inner_assets: Option<u64>,
) -> ModulePlanModel {
    ModulePlanModel::Ecmascript {
        ty,
        transforms,
        options,
        enable_types: ty == EcmascriptModuleAssetType::TypescriptWithTypes || ty
            == EcmascriptModuleAssetType::TypescriptDeclaration,
        inner_assets,
        part: if options.split_into_parts { part } else { None },
    }
}

/// The plan for a source of module type `t`, given the module part the source was
/// referenced for and the inner assets of an internal reference.
pub open spec fn spec_apply_module_type(
    t: ModuleTypeModel,
    part: Option<u64>,
    inner_assets: Option<u64>,
) -> ModulePlanModel {
    match t {
        ModuleTypeModel::Ecmascript { transforms, options } => spec_ecmascript_plan(
            EcmascriptModuleAssetType::Ecmascript,
            transforms,
            options,
            part,
            inner_assets,
        ),
        ModuleTypeModel::Typescript { transforms, options } => spec_ecmascript_plan(
            EcmascriptModuleAssetType::Typescript,
            transforms,
            options,
            part,
            inner_assets,
        ),
        ModuleTypeModel::TypescriptWithTypes { transforms, options } => spec_ecmascript_plan(
            EcmascriptModuleAssetType::TypescriptWithTypes,
            transforms,
            options,
            part,
            inner_assets,
        ),
        ModuleTypeModel::TypescriptDeclaration { transforms, options } => spec_ecmascript_plan(
            EcmascriptModuleAssetType::TypescriptDeclaration,
            transforms,
            options,
            part,
            inner_assets,
        ),
        ModuleTypeModel::Json => ModulePlanModel::Json,
        ModuleTypeModel::Raw => ModulePlanModel::Raw,
        ModuleTypeModel::Mdx { transforms, options } => ModulePlanModel::Mdx { transforms, options },
        ModuleTypeModel::CssGlobal => ModulePlanModel::CssGlobal,
        ModuleTypeModel::CssModule => ModulePlanModel::CssModule,
        ModuleTypeModel::Css { ty, transforms } => ModulePlanModel::Css { ty, transforms },
        ModuleTypeModel::Static => ModulePlanModel::Static,
        ModuleTypeModel::WebAssembly { source_ty } => ModulePlanModel::WebAssembly { source_ty },
        ModuleTypeModel::Custom(custom) => ModulePlanModel::Custom { custom, part },
    }
}

fn ecmascript_plan(
    ty: EcmascriptModuleAssetType,
    transforms: Vec<u64>,
    options: EcmascriptOptions,
    part: Option<u64>,
    inner_assets: Option<u64>,
) -> (r: ModulePlan)
    ensures
        r@ == spec_ecmascript_plan(ty, transforms@, options, part, inner_assets),
{
    let enable_types = match ty {
        EcmascriptModuleAssetType::TypescriptWithTypes
        | EcmascriptModuleAssetType::TypescriptDeclaration => true,
        _ => false,
    };
    let part = if options.split_into_parts {
        part
    } else {
        None
    };
    ModulePlan::Ecmascript { ty, transforms, options, enable_types, inner_assets, part }
}

/// Decides how a source of `module_type` becomes a module. ECMAScript and
/// TypeScript types become an ECMAScript asset of the matching flavour (the typed
/// flavours in a context that resolves types); every other type becomes its own
/// kind of asset; a custom type makes the module itself and gets the part.
pub fn apply_module_type(
    module_type: ModuleType,
    part: Option<u64>,
    inner_assets: Option<u64>,
) -> (r: ModulePlan)
    ensures
        r@ == spec_apply_module_type(module_type@, part, inner_assets),
{
    match module_type {
        ModuleType::Ecmascript { transforms, options } => ecmascript_plan(
            EcmascriptModuleAssetType::Ecmascript,
            transforms,
            options,
            part,
            inner_assets,
        ),
        ModuleType::Typescript { transforms, options } => ecmascript_plan(
            EcmascriptModuleAssetType::Typescript,
            transforms,
            options,
            part,
            inner_assets,
        ),
        ModuleType::TypescriptWithTypes { transforms, options } => ecmascript_plan(
            EcmascriptModuleAssetType::TypescriptWithTypes,
            transforms,
            options,
            part,
            inner_assets,
        ),
        ModuleType::TypescriptDeclaration { transforms, options } => ecmascript_plan(
            EcmascriptModuleAssetType::TypescriptDeclaration,
            transforms,
            options,
            part,
            inner_assets,
        ),
        ModuleType::Json => ModulePlan::Json,
        ModuleType::Raw => ModulePlan::Raw,
        ModuleType::Mdx { transforms, options } => ModulePlan::Mdx { transforms, options },
        ModuleType::CssGlobal => ModulePlan::CssGlobal,
        ModuleType::CssModule => ModulePlan::CssModule,
        ModuleType::Css { ty, transforms } => ModulePlan::Css { ty, transforms },
        ModuleType::Static => ModulePlan::Static,
        ModuleType::WebAssembly { source_ty } => ModulePlan::WebAssembly { source_ty },
        ModuleType::Custom(custom) => ModulePlan::Custom { custom, part },
    }
}

/// The plan of every module type carries that type's own settings unchanged. An
/// ECMAScript-family type gives an ECMAScript plan of the matching asset type with
/// its transforms and options, asking for type resolving exactly for TypeScript
/// with types and declarations, with the inner assets, and with the part only
/// when its options split modules into parts. MDX, CSS and WebAssembly types keep
/// their transforms, options, CSS asset type and WebAssembly source type; a custom
/// type receives the part; the other types give the plan of the same name.
pub proof fn law_plan_keeps_settings(t: ModuleTypeModel, part: Option<u64>, inner_assets: Option<u64>)
    ensures
        ({
            let plan = spec_apply_module_type(t, part, inner_assets);
            let ecma = |ty: EcmascriptModuleAssetType, transforms: Seq<u64>, options: EcmascriptOptions|
                ModulePlanModel::Ecmascript {
                    ty,
                    transforms,
                    options,
                    enable_types: ty == EcmascriptModuleAssetType::TypescriptWithTypes || ty
                        == EcmascriptModuleAssetType::TypescriptDeclaration,
                    inner_assets,
                    part: if options.split_into_parts { part } else { None },
                };
            &&& t matches ModuleTypeModel::Ecmascript { transforms, options } ==> plan == ecma(
                EcmascriptModuleAssetType::Ecmascript,
                transforms,
                options,
            )
            &&& t matches ModuleTypeModel::Typescript { transforms, options } ==> plan == ecma(
                EcmascriptModuleAssetType::Typescript,
                transforms,
                options,
            )
            &&& t matches ModuleTypeModel::TypescriptWithTypes { transforms, options } ==> plan
                == ecma(EcmascriptModuleAssetType::TypescriptWithTypes, transforms, options)
            &&& t matches ModuleTypeModel::TypescriptDeclaration { transforms, options } ==> plan
                == ecma(EcmascriptModuleAssetType::TypescriptDeclaration, transforms, options)
            &&& t is Json ==> plan is Json
            &&& t is Raw ==> plan is Raw
            &&& t is CssGlobal ==> plan is CssGlobal
            &&& t is CssModule ==> plan is CssModule
            &&& t is Static ==> plan is Static
            &&& t matches ModuleTypeModel::Mdx { transforms, options } ==> plan
                == ModulePlanModel::Mdx { transforms, options }
            &&& t matches ModuleTypeModel::Css { ty, transforms } ==> plan == ModulePlanModel::Css {
                ty,
                transforms,
            }
            &&& t matches ModuleTypeModel::WebAssembly { source_ty } ==> plan
                == ModulePlanModel::WebAssembly { source_ty }
            &&& t matches ModuleTypeModel::Custom(custom) ==> plan == ModulePlanModel::Custom {
                custom,
                part,
            }
        }),
{
}

} // verus!
