//! CSS `@import` references: the attributes an import carries (cascade layer,
//! `supports()` condition, media queries) and the blocks that wrap the imported
//! stylesheet so that those attributes still apply.
use vstd::prelude::*;
use crate::text::{join, join_strings, strings};

verus! {

/// A cascade layer name: its dot-separated segments.
#[derive(Debug)]
pub struct LayerName {
    pub name: Vec<String>,
}

/// A declaration `name: value`.
#[derive(Debug)]
pub struct Declaration {
    pub name: String,
    pub value: String,
}

/// Mathematical model of [`Declaration`].
pub struct DeclarationModel {
    pub name: Seq<char>,
    pub value: Seq<char>,
}

impl View for Declaration {
    type V = DeclarationModel;

    open spec fn view(&self) -> DeclarationModel {
        DeclarationModel { name: self.name@, value: self.value@ }
    }
}

/// A `supports()` condition: a condition as written, or a single declaration
/// tested as a feature.
#[derive(Debug)]
pub enum SupportsCondition {
    Condition(String),
    Feature(Declaration),
}

/// Mathematical model of [`SupportsCondition`].
pub enum SupportsConditionModel {
    Condition(Seq<char>),
    Feature(DeclarationModel),
}

impl View for SupportsCondition {
    type V = SupportsConditionModel;

    open spec fn view(&self) -> SupportsConditionModel {
        match self {
            SupportsCondition::Condition(t) => SupportsConditionModel::Condition(t@),
            SupportsCondition::Feature(d) => SupportsConditionModel::Feature(d@),
        }
    }
}

/// A component of an `@import` prelude function.
#[derive(Debug)]
pub enum PreludeComponent {
    SupportsCondition(String),
    Declaration(Declaration),
    LayerName(LayerName),
    Other,
}

/// Mathematical model of [`PreludeComponent`].
pub enum PreludeComponentModel {
    SupportsCondition(Seq<char>),
    Declaration(DeclarationModel),
    LayerName(Seq<Seq<char>>),
    Other,
}

impl View for PreludeComponent {
    type V = PreludeComponentModel;

    open spec fn view(&self) -> PreludeComponentModel {
        match self {
            PreludeComponent::SupportsCondition(t) => PreludeComponentModel::SupportsCondition(t@),
            PreludeComponent::Declaration(d) => PreludeComponentModel::Declaration(d@),
            PreludeComponent::LayerName(l) => PreludeComponentModel::LayerName(strings(l.name@)),
            PreludeComponent::Other => PreludeComponentModel::Other,
        }
    }
}

/// The layer of an `@import`: the bare `layer` keyword (an anonymous layer) or
/// the function `layer(...)` with its components.
#[derive(Debug)]
pub enum ImportLayer {
    Anonymous,
    Function(Vec<PreludeComponent>),
}

/// The conditions of an `@import`: the components of its `supports(...)`
/// function and its media queries.
#[derive(Debug)]
pub struct ImportConditions {
    pub supports: Option<Vec<PreludeComponent>>,
    pub media: Option<Vec<String>>,
}

/// The prelude of an `@import` rule, as far as its attributes go.
#[derive(Debug)]
pub struct ImportRule {
    pub layer: Option<ImportLayer>,
    pub import_conditions: Option<ImportConditions>,
}

/// The attributes of an `@import`: the layer it imports into, the condition it
/// is subject to and the media queries it applies to.
#[derive(Debug)]
pub struct ImportAttributes {
    pub layer_name: Option<LayerName>,
    pub supports: Option<SupportsCondition>,
    pub media: Option<Vec<String>>,
}

/// Mathematical model of [`ImportAttributes`].
pub struct ImportAttributesModel {
    pub layer_name: Option<Seq<Seq<char>>>,
    pub supports: Option<SupportsConditionModel>,
    pub media: Option<Seq<Seq<char>>>,
}

impl View for ImportAttributes {
    type V = ImportAttributesModel;

    open spec fn view(&self) -> ImportAttributesModel {
        ImportAttributesModel {
            layer_name: match &self.layer_name {
                Some(l) => Some(strings(l.name@)),
                None => None,
            },
            supports: match &self.supports {
                Some(s) => Some(s@),
                None => None,
            },
            media: match &self.media {
                Some(m) => Some(strings(m@)),
                None => None,
            },
        }
    }
}

/// The components as models.
pub open spec fn components(v: Seq<PreludeComponent>) -> Seq<PreludeComponentModel> {
    v.map_values(|c: PreludeComponent| c@)
}

/// The first component that is a supports condition or a declaration, as a
/// supports condition: a declaration becomes a feature test of itself.
pub open spec fn first_supports(v: Seq<PreludeComponentModel>) -> Option<SupportsConditionModel>
    decreases v.len(),
{
    if v.len() == 0 {
        None
    } else {
        match v[0] {
            PreludeComponentModel::SupportsCondition(t) => Some(
                SupportsConditionModel::Condition(t),
            ),
            PreludeComponentModel::Declaration(d) => Some(SupportsConditionModel::Feature(d)),
            _ => first_supports(v.drop_first()),
        }
    }
}

/// An `@import` prelude the attributes can be read from: a `layer(...)` function
/// holds exactly one component, a layer name.
pub open spec fn import_rule_wf(prelude: ImportRule) -> bool {
    prelude.layer matches Some(ImportLayer::Function(v)) ==> v@.len() == 1
        && v@[0] is LayerName
}

/// The attributes of an `@import`: an anonymous layer has the empty name, a
/// `layer(...)` function the name it holds; the condition is the first supports
/// condition or declaration of `supports(...)`; the media queries are kept.
pub open spec fn spec_new_from_prelude(prelude: ImportRule) -> ImportAttributesModel {
    ImportAttributesModel {
        layer_name: match prelude.layer {
            None => None,
            Some(ImportLayer::Anonymous) => Some(Seq::empty()),
            Some(ImportLayer::Function(v)) => Some(strings(v@[0]->LayerName_0.name@)),
        },
        supports: match prelude.import_conditions {
            Some(c) => match c.supports {
                Some(v) => first_supports(components(v@)),
                None => None,
            },
            None => None,
        },
        media: match prelude.import_conditions {
            Some(c) => match c.media {
                Some(m) => Some(strings(m@)),
                None => None,
            },
            None => None,
        },
    }
}

fn copy_strings(v: &Vec<String>) -> (r: Vec<String>)
    ensures
        strings(r@) == strings(v@),
{
    let mut r: Vec<String> = Vec::new();
    let mut i: usize = 0;
    while i < v.len()
        invariant
            i <= v.len(),
            r@.len() == i,
            forall|k: int| 0 <= k < i ==> (#[trigger] r@[k])@ == v@[k]@,
        decreases v.len() - i,
    {
        let c = v[i].clone();
        r.push(c);
        i = i + 1;
    }
    assert(strings(r@) =~= strings(v@));
    r
}

fn copy_declaration(d: &Declaration) -> (r: Declaration)
    ensures
        r@ == d@,
{
    Declaration { name: d.name.clone(), value: d.value.clone() }
}

fn find_supports(v: &Vec<PreludeComponent>) -> (r: Option<SupportsCondition>)
    ensures
        match r {
            Some(c) => first_supports(components(v@)) == Some(c@),
            None => first_supports(components(v@)) is None,
        },
{
    let mut i: usize = 0;
    let ghost all = components(v@);
    assert(all.skip(0) =~= all);
    while i < v.len()
        invariant
            i <= v.len(),
            all == components(v@),
            first_supports(all) == first_supports(all.skip(i as int)),
        decreases v.len() - i,
    {
        assert(all.skip(i as int)[0] == v@[i as int]@);
        assert(all.skip(i as int).drop_first() =~= all.skip(i + 1));
        match &v[i] {
            PreludeComponent::SupportsCondition(t) => {
                return Some(SupportsCondition::Condition(t.clone()));
            },
            PreludeComponent::Declaration(d) => {
                return Some(SupportsCondition::Feature(copy_declaration(d)));
            },
            _ => {},
        }
        i = i + 1;
    }
    assert(all.skip(i as int) =~= Seq::<PreludeComponentModel>::empty());
    None
}

impl ImportAttributes {
    /// Reads the attributes of an `@import` from its prelude.
    pub fn new_from_prelude(prelude: &ImportRule) -> (r: ImportAttributes)
        requires
            import_rule_wf(*prelude),
        ensures
            r@ == spec_new_from_prelude(*prelude),
    {
        let layer_name = match &prelude.layer {
            None => None,
            Some(ImportLayer::Anonymous) => Some(LayerName { name: Vec::new() }),
            Some(ImportLayer::Function(v)) => match &v[0] {
                PreludeComponent::LayerName(l) => Some(LayerName { name: copy_strings(&l.name) }),
                _ => None,
            },
        };
        proof {
            if prelude.layer matches Some(ImportLayer::Anonymous) {
                assert(strings(layer_name->0.name@) =~= Seq::<Seq<char>>::empty());
            }
        }
        let (supports, media) = match &prelude.import_conditions {
            Some(c) => {
                let supports = match &c.supports {
                    Some(v) => find_supports(v),
                    None => None,
                };
                let media = match &c.media {
                    Some(m) => Some(copy_strings(m)),
                    None => None,
                };
                (supports, media)
            },
            None => (None, None),
        };
        ImportAttributes { layer_name, supports, media }
    }
}

/// A component that can stand as the condition of `supports(...)`: a condition
/// or a declaration.
pub open spec fn is_condition(c: PreludeComponentModel) -> bool {
    c is SupportsCondition || c is Declaration
}

/// The condition a component stands for: a condition as written, a declaration
/// as a feature test.
pub open spec fn as_condition(c: PreludeComponentModel) -> SupportsConditionModel {
    match c {
        PreludeComponentModel::SupportsCondition(t) => SupportsConditionModel::Condition(t),
        PreludeComponentModel::Declaration(d) => SupportsConditionModel::Feature(d),
        _ => arbitrary(),
    }
}

proof fn lemma_first_supports(v: Seq<PreludeComponentModel>)
    ensures
        first_supports(v) is None <==> forall|k: int| 0 <= k < v.len() ==> !is_condition(#[trigger] v[k]),
        first_supports(v) matches Some(c) ==> exists|k: int|
            0 <= k < v.len() && is_condition(#[trigger] v[k]) && c == as_condition(v[k]) && forall|j: int|
                0 <= j < k ==> !is_condition(#[trigger] v[j]),
    decreases v.len(),
{
    if v.len() > 0 {
        let rest = v.drop_first();
        lemma_first_supports(rest);
        assert forall|k: int| 0 <= k < rest.len() implies rest[k] == v[k + 1] by {}
        if !is_condition(v[0]) {
            if first_supports(v) is None {
                assert forall|k: int| 0 <= k < v.len() implies !is_condition(#[trigger] v[k]) by {
                    if k > 0 {
                        assert(rest[k - 1] == v[k]);
                    }
                }
            } else {
                let c = first_supports(v)->0;
                let k = choose|k: int|
                    0 <= k < rest.len() && is_condition(#[trigger] rest[k]) && c == as_condition(rest[k])
                        && forall|j: int| 0 <= j < k ==> !is_condition(#[trigger] rest[j]);
                assert(v[k + 1] == rest[k]);
                assert forall|j: int| 0 <= j < k + 1 implies !is_condition(#[trigger] v[j]) by {
                    if j > 0 {
                        assert(rest[j - 1] == v[j]);
                    }
                }
            }
        } else {
            assert(is_condition(v[0]));
        }
    }
}

/// The attributes read from a prelude are those the prelude states. The layer
/// name is present exactly when the prelude has a layer: empty for the bare
/// `layer` keyword, else the segments of the name in `layer(...)`. The condition
/// is present exactly when `supports(...)` holds a condition or a declaration, and
/// is then the first of them. The media are present exactly when the prelude has
/// media queries, and are then those queries, in order, whatever the rest of the
/// prelude is.
pub proof fn law_new_from_prelude_attributes(prelude: ImportRule)
    requires
        import_rule_wf(prelude),
    ensures
        ({
            let a = spec_new_from_prelude(prelude);
            &&& a.layer_name is Some <==> prelude.layer is Some
            &&& prelude.layer matches Some(ImportLayer::Anonymous) ==> a.layer_name == Some(
                Seq::<Seq<char>>::empty(),
            )
            &&& prelude.layer matches Some(ImportLayer::Function(v)) ==> (v@[0] matches PreludeComponent::LayerName(l)
                && a.layer_name matches Some(n) && n.len() == l.name@.len() && forall|i: int|
                0 <= i < n.len() ==> n[i] == (#[trigger] l.name@[i])@)
            &&& !(prelude.import_conditions matches Some(c) && c.supports is Some) ==> a.supports is None
            &&& prelude.import_conditions matches Some(c) ==> (c.supports matches Some(v) ==> (
                (a.supports is None <==> forall|k: int| 0 <= k < v@.len() ==> !is_condition(#[trigger] v@[k]@))
                && (a.supports matches Some(s) ==> exists|k: int|
                    0 <= k < v@.len() && is_condition(#[trigger] v@[k]@) && s == as_condition(v@[k]@)
                        && forall|j: int| 0 <= j < k ==> !is_condition(#[trigger] v@[j]@))))
            &&& a.media is Some <==> (prelude.import_conditions matches Some(c) && c.media is Some)
            &&& prelude.import_conditions matches Some(c) ==> (c.media matches Some(m) ==> (
                a.media matches Some(q) && q.len() == m@.len() && forall|i: int|
                0 <= i < q.len() ==> q[i] == (#[trigger] m@[i])@))
        }),
{
    if let Some(c) = prelude.import_conditions {
        if let Some(v) = c.supports {
            let cs = components(v@);
            lemma_first_supports(cs);
            assert forall|k: int| 0 <= k < v@.len() implies cs[k] == v@[k]@ by {}
            if let Some(s) = first_supports(cs) {
                let k = choose|k: int|
                    0 <= k < cs.len() && is_condition(#[trigger] cs[k]) && s == as_condition(cs[k])
                        && forall|j: int| 0 <= j < k ==> !is_condition(#[trigger] cs[j]);
                assert(cs[k] == v@[k]@);
                assert forall|j: int| 0 <= j < k implies !is_condition(#[trigger] v@[j]@) by {
                    assert(cs[j] == v@[j]@);
                }
            } else {
                assert forall|k: int| 0 <= k < v@.len() implies !is_condition(#[trigger] v@[k]@) by {
                    assert(cs[k] == v@[k]@);
                }
            }
        }
    }
}

/// The opening line of an at-rule block: `@name prelude {`, or `@name {` when
/// the prelude is empty.
pub open spec fn spec_header(name: Seq<char>, prelude: Seq<char>) -> Seq<char> {
    "@"@ + name + (if prelude.len() == 0 {
        Seq::empty()
    } else {
        " "@ + prelude
    }) + " {"@
}

/// A supports condition as written in a `@supports` prelude: a feature test is
/// its declaration in parentheses.
pub open spec fn spec_supports_prelude(c: SupportsConditionModel) -> Seq<char> {
    match c {
        SupportsConditionModel::Condition(t) => t,
        SupportsConditionModel::Feature(d) => "("@ + d.name + ": "@ + d.value + ")"@,
    }
}

/// The opening lines of the blocks that carry the attributes, outermost first:
/// `@layer`, then `@supports`, then `@media`, each only when present.
pub open spec fn spec_block_headers(a: ImportAttributesModel) -> Seq<Seq<char>> {
    (match a.layer_name {
        Some(l) => seq![spec_header("layer"@, join(l, "."@))],
        None => Seq::empty(),
    }) + (match a.supports {
        Some(c) => seq![spec_header("supports"@, spec_supports_prelude(c))],
        None => Seq::empty(),
    }) + (match a.media {
        Some(m) => seq![spec_header("media"@, join(m, ", "@))],
        None => Seq::empty(),
    })
}

/// The text before and after an imported stylesheet that applies the attributes:
/// the opening lines, one per line, and as many closing braces, one per line.
pub open spec fn spec_print_block(a: ImportAttributesModel) -> (Seq<char>, Seq<char>) {
    let h = spec_block_headers(a);
    (join(h, "\n"@), join(Seq::new(h.len(), |i: int| "}"@), "\n"@))
}

fn header(name: &str, prelude: &String) -> (r: String)
    ensures
        r@ == spec_header(name@, prelude@),
{
    let mut r = String::from_str("@");
    r.append(name);
    if prelude.as_str().unicode_len() > 0 {
        r.append(" ");
        r.append(prelude.as_str());
    }
    r.append(" {");
    assert(r@ =~= spec_header(name@, prelude@));
    r
}

fn supports_prelude(c: &SupportsCondition) -> (r: String)
    ensures
        r@ == spec_supports_prelude(c@),
{
    match c {
        SupportsCondition::Condition(t) => t.clone(),
        SupportsCondition::Feature(d) => {
            let mut r = String::from_str("(");
            r.append(d.name.as_str());
            r.append(": ");
            r.append(d.value.as_str());
            r.append(")");
            r
        },
    }
}

impl ImportAttributes {
    /// The text to put before and after the imported stylesheet so that it is
    /// imported into the layer, under the condition and for the media of these
    /// attributes: nested `@layer`, `@supports` and `@media` blocks, outermost first.
    pub fn print_block(&self) -> (r: (String, String))
        ensures
            (r.0@, r.1@) == spec_print_block(self@),
    {
        let mut headers: Vec<String> = Vec::new();
        let ghost a = self@;
        if let Some(l) = &self.layer_name {
            let p = join_strings(&l.name, ".");
            headers.push(header("layer", &p));
        }
        if let Some(c) = &self.supports {
            let p = supports_prelude(c);
            headers.push(header("supports", &p));
        }
        if let Some(m) = &self.media {
            let p = join_strings(m, ", ");
            headers.push(header("media", &p));
        }
        assert(strings(headers@) =~= spec_block_headers(a));
        let mut closes: Vec<String> = Vec::new();
        let mut i: usize = 0;
        while i < headers.len()
            invariant
                i <= headers.len(),
                closes@.len() == i,
                forall|k: int| 0 <= k < i ==> (#[trigger] closes@[k])@ == "}"@,
            decreases headers.len() - i,
        {
            closes.push(String::from_str("}"));
            i = i + 1;
        }
        assert(strings(closes@) =~= Seq::new(headers@.len(), |i: int| "}"@));
        (join_strings(&headers, "\n"), join_strings(&closes, "\n"))
    }
}

/// An opening line is `@`, the at-rule's name, a space and the prelude when
/// there is one, and ` {`. A supports condition is printed as written, a feature
/// test as its declaration `name: value` in parentheses.
pub proof fn law_block_header_text(name: Seq<char>, prelude: Seq<char>, c: SupportsConditionModel)
    ensures
        prelude.len() > 0 ==> spec_header(name, prelude) == "@"@ + name + " "@ + prelude + " {"@,
        prelude.len() == 0 ==> spec_header(name, prelude) == "@"@ + name + " {"@,
        c matches SupportsConditionModel::Condition(t) ==> spec_supports_prelude(c) == t,
        c matches SupportsConditionModel::Feature(d) ==> spec_supports_prelude(c) == "("@ + d.name
            + ": "@ + d.value + ")"@,
{
    if prelude.len() > 0 {
        assert("@"@ + name + (" "@ + prelude) + " {"@ =~= "@"@ + name + " "@ + prelude + " {"@);
    } else {
        assert("@"@ + name + Seq::<char>::empty() + " {"@ =~= "@"@ + name + " {"@);
    }
}

/// A URI request is imported externally, by its protocol followed by the rest of
/// it; any other request is bundled and imports nothing.
pub proof fn law_code_imports(r: RequestModel)
    ensures
        r matches RequestModel::Uri { protocol, remainder } ==> spec_code_imports(r) == seq![
            protocol + remainder,
        ],
        r is Other ==> spec_code_imports(r).len() == 0,
{
}

/// How many of the attributes are present.
pub open spec fn present_count(a: ImportAttributesModel) -> nat {
    (if a.layer_name is Some { 1nat } else { 0nat }) + (if a.supports is Some { 1nat } else { 0nat })
        + (if a.media is Some { 1nat } else { 0nat })
}

/// The printed blocks carry each present attribute, and only those: there is one
/// opening line per present attribute, the `@layer` line first when there is a
/// layer name, then the `@supports` line when there is a condition, and the
/// `@media` line last exactly when there are media; the text before the stylesheet
/// is those lines one per line, and the text after it one closing brace per line
/// for each of them.
pub proof fn law_print_block_blocks(a: ImportAttributesModel)
    ensures
        ({
            let h = spec_block_headers(a);
            let n = present_count(a);
            let layer_at: int = 0;
            let supports_at: int = if a.layer_name is Some { 1 } else { 0 };
            &&& h.len() == n
            &&& a.layer_name matches Some(l) ==> h[layer_at] == spec_header("layer"@, join(l, "."@))
            &&& a.supports matches Some(c) ==> h[supports_at] == spec_header(
                "supports"@,
                spec_supports_prelude(c),
            )
            &&& a.media matches Some(m) ==> h[n - 1] == spec_header("media"@, join(m, ", "@))
            &&& spec_print_block(a) == (join(h, "\n"@), join(Seq::new(n, |i: int| "}"@), "\n"@))
        }),
{
}

/// What an `@import` asks for.
#[derive(Debug)]
pub enum Request {
    /// A URI: the protocol and what follows it.
    Uri { protocol: String, remainder: String },
    /// Any other request, by handle.
    Other(u64),
}

/// Mathematical model of [`Request`].
pub enum RequestModel {
    Uri { protocol: Seq<char>, remainder: Seq<char> },
    Other(u64),
}

impl View for Request {
    type V = RequestModel;

    open spec fn view(&self) -> RequestModel {
        match self {
            Request::Uri { protocol, remainder } => RequestModel::Uri {
                protocol: protocol@,
                remainder: remainder@,
            },
            Request::Other(h) => RequestModel::Other(*h),
        }
    }
}

impl Request {
    /// An equal copy of this request.
    pub fn duplicate(&self) -> (r: Request)
        ensures
            r@ == self@,
    {
        match self {
            Request::Uri { protocol, remainder } => Request::Uri {
                protocol: protocol.clone(),
                remainder: remainder.clone(),
            },
            Request::Other(h) => Request::Other(*h),
        }
    }
}

/// An `@import` of a CSS file. Origin, path and issue source travel by handle.
#[derive(Debug)]
pub struct ImportAssetReference {
    pub origin: u64,
    pub request: Request,
    pub path: u64,
    pub attributes: ImportAttributes,
    pub issue_source: u64,
}

/// The kind of CSS reference a request is resolved for.
#[derive(Clone, Copy, PartialEq, Eq, Structural, Debug)]
pub enum CssReferenceSubType {
    AtImport,
    Compose,
}

/// How a CSS reference is resolved: from which origin, for which request, as
/// which kind of reference, and which source issues point to.
#[derive(Debug)]
pub struct CssResolve {
    pub origin: u64,
    pub request: Request,
    pub sub_type: CssReferenceSubType,
    pub issue_source: Option<u64>,
}

/// An external import of the generated code.
#[derive(Debug)]
pub enum CssImport {
    /// An external stylesheet, by URL.
    External(String),
}

/// The code generated for a reference: visitors of the stylesheet (by handle) and
/// imports to emit.
#[derive(Debug)]
pub struct CodeGeneration {
    pub visitors: Vec<u64>,
    pub imports: Vec<CssImport>,
}

/// The imports generated for a request: a URI request is imported externally by
/// its protocol followed by the rest; any other request is bundled, no import.
pub open spec fn spec_code_imports(r: RequestModel) -> Seq<Seq<char>> {
    match r {
        RequestModel::Uri { protocol, remainder } => seq![protocol + remainder],
        RequestModel::Other(_) => Seq::empty(),
    }
}

impl ImportAssetReference {
    /// An import reference.
    pub fn new(
        origin: u64,
        request: Request,
        path: u64,
        attributes: ImportAttributes,
        issue_source: u64,
    ) -> (r: ImportAssetReference)
        ensures
            r.origin == origin,
            r.request@ == request@,
            r.path == path,
            r.attributes@ == attributes@,
            r.issue_source == issue_source,
    {
        ImportAssetReference { origin, request, path, attributes, issue_source }
    }

    /// How the request of this import is resolved: as an `@import` from the
    /// origin, reporting issues at the import's source.
    pub fn resolve_reference(&self) -> (r: CssResolve)
        ensures
            r.origin == self.origin,
            r.request@ == self.request@,
            r.sub_type == CssReferenceSubType::AtImport,
            r.issue_source == Some(self.issue_source),
    {
        CssResolve {
            origin: self.origin,
            request: self.request.duplicate(),
            sub_type: CssReferenceSubType::AtImport,
            issue_source: Some(self.issue_source),
        }
    }

    /// The description of this reference, given the description of its request.
    pub fn to_string(&self, request: &String) -> (r: String)
        ensures
            r@ == "import(url) "@ + request@,
    {
        let mut r = String::from_str("import(url) ");
        r.append(request.as_str());
        r
    }

    /// The code generated for this import: no visitors, and an external import
    /// of the URL when the request is a URI.
    pub fn code_generation(&self) -> (r: CodeGeneration)
        ensures
            r.visitors@.len() == 0,
            r.imports@.len() == spec_code_imports(self.request@).len(),
            forall|i: int|
                0 <= i < r.imports@.len() ==> (#[trigger] r.imports@[i])->External_0@
                    == spec_code_imports(self.request@)[i],
    {
        let mut imports: Vec<CssImport> = Vec::new();
        if let Request::Uri { protocol, remainder } = &self.request {
            let mut url = protocol.clone();
            url.append(remainder.as_str());
            imports.push(CssImport::External(url));
        }
        CodeGeneration { visitors: Vec::new(), imports }
    }
}

} // verus!
