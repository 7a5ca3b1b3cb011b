//! The default processing of a source: walk the module rules in order, apply the
//! effects of every rule that matches, and either start again on a transformed
//! source or build the module with the module type the rules chose.
//!
//! The walk is a state machine. Matching a rule and transforming the source are
//! done by the caller, who answers each [`Action`] with an [`Event`].
use vstd::prelude::*;
use crate::module_type::{
    apply_module_type, extend_handles, spec_apply_module_type, ModulePlan, ModulePlanModel,
    ModuleType, ModuleTypeModel,
};
use crate::issue::ModuleIssueKind;

verus! {

/// One effect of a module rule.
#[derive(Debug)]
pub enum RuleEffect {
    /// Process the source as this module type.
    ModuleType(ModuleType),
    /// Append these input transforms to the chosen ECMAScript module type.
    AddEcmascriptTransforms(Vec<u64>),
    /// Transform the source with the source transforms of this handle.
    SourceTransforms(u64),
}

/// Mathematical model of [`RuleEffect`].
pub enum RuleEffectModel {
    ModuleType(ModuleTypeModel),
    AddEcmascriptTransforms(Seq<u64>),
    SourceTransforms(u64),
}

impl View for RuleEffect {
    type V = RuleEffectModel;

    open spec fn view(&self) -> RuleEffectModel {
        match self {
            RuleEffect::ModuleType(t) => RuleEffectModel::ModuleType(t@),
            RuleEffect::AddEcmascriptTransforms(v) => RuleEffectModel::AddEcmascriptTransforms(v@),
            RuleEffect::SourceTransforms(h) => RuleEffectModel::SourceTransforms(*h),
        }
    }
}

/// A module rule: its condition is evaluated by the caller, its effects here.
#[derive(Debug)]
pub struct ModuleRule {
    pub effects: Vec<RuleEffect>,
}

impl View for ModuleRule {
    type V = Seq<RuleEffectModel>;

    open spec fn view(&self) -> Seq<RuleEffectModel> {
        self.effects@.map_values(|e: RuleEffect| e@)
    }
}

/// The rules as sequences of effect models.
pub open spec fn rules_model(rules: Seq<ModuleRule>) -> Seq<Seq<RuleEffectModel>> {
    rules.map_values(|r: ModuleRule| r@)
}

/// The model of an optional module type.
pub open spec fn opt_type(t: Option<ModuleType>) -> Option<ModuleTypeModel> {
    match t {
        Some(t) => Some(t@),
        None => None,
    }
}

/// The kind of reference through which a source is processed, as far as
/// processing reads it.
#[derive(Clone, Copy, PartialEq, Eq, Structural, Debug)]
pub enum ReferenceType {
    /// An ECMAScript import of one part of a module.
    EcmaScriptImportPart(u64),
    /// An internal reference that brings inner assets.
    Internal(u64),
    /// Any other reference.
    Other,
}

/// The module part a reference asks for.
pub open spec fn spec_part(r: ReferenceType) -> Option<u64> {
    match r {
        ReferenceType::EcmaScriptImportPart(p) => Some(p),
        _ => None,
    }
}

/// The inner assets a reference brings.
pub open spec fn spec_inner_assets(r: ReferenceType) -> Option<u64> {
    match r {
        ReferenceType::Internal(a) => Some(a),
        _ => None,
    }
}

/// Where the walk stands.
#[derive(Clone, Copy, PartialEq, Eq, Structural, Debug)]
pub enum Cursor {
    /// Nothing done yet.
    Start,
    /// At rule `i`: its condition is to be evaluated.
    Rule(usize),
    /// At effect `j` of the matching rule `i`.
    Effect(usize, usize),
    /// The walk has ended.
    Done,
}

/// The state of the rule walk.
#[derive(Debug)]
pub struct RuleWalk {
    /// Rules already applied on an earlier source: skipped.
    pub processed: Vec<usize>,
    pub part: Option<u64>,
    pub inner_assets: Option<u64>,
    pub cursor: Cursor,
    /// The module type chosen so far.
    pub module_type: Option<ModuleType>,
}

/// Mathematical model of [`RuleWalk`].
pub struct RuleWalkModel {
    pub processed: Seq<usize>,
    pub part: Option<u64>,
    pub inner_assets: Option<u64>,
    pub cursor: Cursor,
    pub module_type: Option<ModuleTypeModel>,
}

impl View for RuleWalk {
    type V = RuleWalkModel;

    open spec fn view(&self) -> RuleWalkModel {
        RuleWalkModel {
            processed: self.processed@,
            part: self.part,
            inner_assets: self.inner_assets,
            cursor: self.cursor,
            module_type: opt_type(self.module_type),
        }
    }
}

/// What the caller is asked to do next.
#[derive(Debug)]
pub enum Action {
    /// Evaluate the condition of rule `i` on the source; answer `Matched`.
    TestRule(usize),
    /// Transform the current source with these source transforms; answer
    /// `Transformed` with whether the identity of the source changed.
    TransformSource(u64),
    /// Emit this issue about the source; answer `Continue`.
    ReportIssue(ModuleIssueKind),
    /// Process the transformed source from the start, skipping these rules.
    Restart(Vec<usize>),
    /// Build the module from the current source by this plan.
    Finish(ModulePlan),
}

/// Mathematical model of [`Action`].
pub enum ActionModel {
    TestRule(usize),
    TransformSource(u64),
    ReportIssue(ModuleIssueKind),
    Restart(Seq<usize>),
    Finish(ModulePlanModel),
}

impl View for Action {
    type V = ActionModel;

    open spec fn view(&self) -> ActionModel {
        match self {
            Action::TestRule(i) => ActionModel::TestRule(*i),
            Action::TransformSource(h) => ActionModel::TransformSource(*h),
            Action::ReportIssue(k) => ActionModel::ReportIssue(*k),
            Action::Restart(p) => ActionModel::Restart(p@),
            Action::Finish(plan) => ActionModel::Finish(plan@),
        }
    }
}

/// The caller's answer to the last action.
#[derive(Clone, Copy, PartialEq, Eq, Structural, Debug)]
pub enum Event {
    /// Go on (first step, or after an issue was reported).
    Continue,
    /// Whether the rule under test matched.
    Matched(bool),
    /// Whether transforming changed the identity of the source.
    Transformed(bool),
}

/// The module type after ECMAScript input transforms were added: appended to an
/// ECMAScript or TypeScript (with or without types) module type; any other type
/// stays and is reported as invalid; with no type yet, the type stays missing and
/// is reported as missing.
pub open spec fn spec_add_transforms(t: Option<ModuleTypeModel>, more: Seq<u64>) -> (
    Option<ModuleTypeModel>,
    Option<ModuleIssueKind>,
) {
    match t {
        Some(ModuleTypeModel::Ecmascript { transforms, options }) => (
            Some(ModuleTypeModel::Ecmascript { transforms: transforms + more, options }),
            None,
        ),
        Some(ModuleTypeModel::Typescript { transforms, options }) => (
            Some(ModuleTypeModel::Typescript { transforms: transforms + more, options }),
            None,
        ),
        Some(ModuleTypeModel::TypescriptWithTypes { transforms, options }) => (
            Some(ModuleTypeModel::TypescriptWithTypes { transforms: transforms + more, options }),
            None,
        ),
        Some(other) => (Some(other), Some(ModuleIssueKind::InvalidModuleType)),
        None => (None, Some(ModuleIssueKind::MissingModuleType)),
    }
}

/// The chosen module type, `Raw` when no rule chose one.
pub open spec fn spec_type_or_raw(t: Option<ModuleTypeModel>) -> ModuleTypeModel {
    match t {
        Some(t) => t,
        None => ModuleTypeModel::Raw,
    }
}

/// The end of the walk: build the module with the chosen type.
pub open spec fn spec_finish(w: RuleWalkModel) -> (RuleWalkModel, ActionModel) {
    (
        RuleWalkModel { cursor: Cursor::Done, ..w },
        ActionModel::Finish(
            spec_apply_module_type(spec_type_or_raw(w.module_type), w.part, w.inner_assets),
        ),
    )
}

/// From rule `i` on: skip processed rules, stop at the first other rule to test
/// it, finish after the last rule.
pub open spec fn spec_from_rule(w: RuleWalkModel, rules: Seq<Seq<RuleEffectModel>>, i: int) -> (
    RuleWalkModel,
    ActionModel,
)
    decreases rules.len() - i,
{
    if i < 0 || i >= rules.len() {
        spec_finish(w)
    } else if w.processed.contains(i as usize) {
        spec_from_rule(w, rules, i + 1)
    } else {
        (RuleWalkModel { cursor: Cursor::Rule(i as usize), ..w }, ActionModel::TestRule(i as usize))
    }
}

/// From effect `j` of the matching rule `i` on: apply module types and added
/// transforms in order, stop to report an issue or to transform the source, and
/// go on with the next rule after the last effect.
pub open spec fn spec_from_effect(
    w: RuleWalkModel,
    rules: Seq<Seq<RuleEffectModel>>,
    i: int,
    j: int,
) -> (RuleWalkModel, ActionModel)
    decreases rules[i].len() - j,
{
    if i < 0 || i >= rules.len() || j < 0 {
        spec_finish(w)
    } else if j >= rules[i].len() {
        spec_from_rule(w, rules, i + 1)
    } else {
        match rules[i][j] {
            RuleEffectModel::ModuleType(t) => spec_from_effect(
                RuleWalkModel { module_type: Some(t), ..w },
                rules,
                i,
                j + 1,
            ),
            RuleEffectModel::AddEcmascriptTransforms(more) => {
                let (t, issue) = spec_add_transforms(w.module_type, more);
                match issue {
                    None => spec_from_effect(
                        RuleWalkModel { module_type: t, ..w },
                        rules,
                        i,
                        j + 1,
                    ),
                    Some(k) => (
                        RuleWalkModel {
                            module_type: t,
                            cursor: Cursor::Effect(i as usize, (j + 1) as usize),
                            ..w
                        },
                        ActionModel::ReportIssue(k),
                    ),
                }
            },
            RuleEffectModel::SourceTransforms(h) => (
                RuleWalkModel { cursor: Cursor::Effect(i as usize, j as usize), ..w },
                ActionModel::TransformSource(h),
            ),
        }
    }
}

/// One step of the walk: the state after `event` and the next action.
pub open spec fn spec_process_default(
    w: RuleWalkModel,
    rules: Seq<Seq<RuleEffectModel>>,
    event: Event,
) -> (RuleWalkModel, ActionModel) {
    match w.cursor {
        Cursor::Start => spec_from_rule(w, rules, 0),
        Cursor::Rule(i) => match event {
            Event::Matched(true) => spec_from_effect(w, rules, i as int, 0),
            Event::Matched(false) => spec_from_rule(w, rules, i + 1),
            _ => spec_from_rule(w, rules, i as int),
        },
        Cursor::Effect(i, j) => match event {
            Event::Transformed(true) => (
                RuleWalkModel { cursor: Cursor::Done, ..w },
                ActionModel::Restart(w.processed.push(i)),
            ),
            Event::Transformed(false) => spec_from_effect(w, rules, i as int, j + 1),
            _ => spec_from_effect(w, rules, i as int, j as int),
        },
        Cursor::Done => spec_finish(w),
    }
}

fn contains_index(v: &Vec<usize>, x: usize) -> (r: bool)
    ensures
        r == v@.contains(x),
{
    let mut i: usize = 0;
    while i < v.len()
        invariant
            i <= v.len(),
            forall|k: int| 0 <= k < i ==> v@[k] != x,
        decreases v.len() - i,
    {
        if v[i] == x {
            assert(v@[i as int] == x);
            return true;
        }
        i = i + 1;
    }
    false
}

fn add_transforms(t: Option<ModuleType>, more: &Vec<u64>) -> (r: (
    Option<ModuleType>,
    Option<ModuleIssueKind>,
))
    ensures
        (opt_type(r.0), r.1) == spec_add_transforms(opt_type(t), more@),
{
    match t {
        Some(ModuleType::Ecmascript { transforms, options }) => (
            Some(ModuleType::Ecmascript { transforms: extend_handles(&transforms, more), options }),
            None,
        ),
        Some(ModuleType::Typescript { transforms, options }) => (
            Some(ModuleType::Typescript { transforms: extend_handles(&transforms, more), options }),
            None,
        ),
        Some(ModuleType::TypescriptWithTypes { transforms, options }) => (
            Some(
                ModuleType::TypescriptWithTypes {
                    transforms: extend_handles(&transforms, more),
                    options,
                },
            ),
            None,
        ),
        Some(other) => (Some(other), Some(ModuleIssueKind::InvalidModuleType)),
        None => (None, Some(ModuleIssueKind::MissingModuleType)),
    }
}

fn finish(w: RuleWalk) -> (r: (RuleWalk, Action))
    ensures
        (r.0@, r.1@) == spec_finish(w@),
{
    let t = match &w.module_type {
        Some(t) => t.duplicate(),
        None => ModuleType::Raw,
    };
    let plan = apply_module_type(t, w.part, w.inner_assets);
    (
        RuleWalk {
            processed: w.processed,
            part: w.part,
            inner_assets: w.inner_assets,
            cursor: Cursor::Done,
            module_type: w.module_type,
        },
        Action::Finish(plan),
    )
}


fn copy_indices(v: &Vec<usize>) -> (r: Vec<usize>)
    ensures
        r@ == v@,
{
    let mut r: Vec<usize> = Vec::new();
    let mut i: usize = 0;
    while i < v.len()
        invariant
            i <= v.len(),
            r@ == v@.subrange(0, i as int),
        decreases v.len() - i,
    {
        r.push(v[i]);
        i = i + 1;
        assert(r@ =~= v@.subrange(0, i as int));
    }
    assert(v@.subrange(0, v.len() as int) =~= v@);
    r
}

fn at(w: RuleWalk, cursor: Cursor) -> (r: RuleWalk)
    ensures
        r@ == (RuleWalkModel { cursor, ..w@ }),
{
    RuleWalk {
        processed: w.processed,
        part: w.part,
        inner_assets: w.inner_assets,
        cursor,
        module_type: w.module_type,
    }
}

fn from_rule(w: RuleWalk, rules: &Vec<ModuleRule>, i: usize) -> (r: (RuleWalk, Action))
    ensures
        (r.0@, r.1@) == spec_from_rule(w@, rules_model(rules@), i as int),
    decreases rules.len() - i,
{
    if i >= rules.len() {
        finish(w)
    } else if contains_index(&w.processed, i) {
        from_rule(w, rules, i + 1)
    } else {
        (at(w, Cursor::Rule(i)), Action::TestRule(i))
    }
}

fn from_effect(w: RuleWalk, rules: &Vec<ModuleRule>, i: usize, j: usize) -> (r: (RuleWalk, Action))
    ensures
        (r.0@, r.1@) == spec_from_effect(w@, rules_model(rules@), i as int, j as int),
    decreases
            if i < rules.len() { rules@[i as int].effects.len() - j } else { 0 },
{
    if i >= rules.len() {
        return finish(w);
    }
    let ghost model = rules_model(rules@);
    assert(model[i as int] == rules@[i as int]@);
    let rule = &rules[i];
    if j >= rule.effects.len() {
        return from_rule(w, rules, i + 1);
    }
    assert(model[i as int][j as int] == rule.effects@[j as int]@);
    match &rule.effects[j] {
        RuleEffect::ModuleType(t) => {
            let next = RuleWalk {
                processed: w.processed,
                part: w.part,
                inner_assets: w.inner_assets,
                cursor: w.cursor,
                module_type: Some(t.duplicate()),
            };
            from_effect(next, rules, i, j + 1)
        },
        RuleEffect::AddEcmascriptTransforms(more) => {
            let (t, issue) = add_transforms(w.module_type, more);
            let next = RuleWalk {
                processed: w.processed,
                part: w.part,
                inner_assets: w.inner_assets,
                cursor: w.cursor,
                module_type: t,
            };
            match issue {
                None => from_effect(next, rules, i, j + 1),
                Some(k) => (at(next, Cursor::Effect(i, j + 1)), Action::ReportIssue(k)),
            }
        },
        RuleEffect::SourceTransforms(h) => (at(w, Cursor::Effect(i, j)), Action::TransformSource(*h)),
    }
}

impl RuleWalk {
    /// A walk from the first rule, skipping the rules in `processed`, for a source
    /// processed through a reference of type `reference_type`.
    pub fn new(processed: Vec<usize>, reference_type: ReferenceType) -> (r: RuleWalk)
        ensures
            r@ == (RuleWalkModel {
                processed: processed@,
                part: spec_part(reference_type),
                inner_assets: spec_inner_assets(reference_type),
                cursor: Cursor::Start,
                module_type: None,
            }),
    {
        let part = match reference_type {
            ReferenceType::EcmaScriptImportPart(p) => Some(p),
            _ => None,
        };
        let inner_assets = match reference_type {
            ReferenceType::Internal(a) => Some(a),
            _ => None,
        };
        RuleWalk { processed, part, inner_assets, cursor: Cursor::Start, module_type: None }
    }
}

/// One step of the default processing of a source: takes the caller's answer to
/// the last action and returns the new state and the next action.
pub fn process_default(w: RuleWalk, rules: &Vec<ModuleRule>, event: Event) -> (r: (
    RuleWalk,
    Action,
))
    ensures
        (r.0@, r.1@) == spec_process_default(w@, rules_model(rules@), event),
{
    match w.cursor {
        Cursor::Start => from_rule(w, rules, 0),
        Cursor::Rule(i) => match event {
            Event::Matched(true) => from_effect(w, rules, i, 0),
            Event::Matched(false) => {
                if i >= rules.len() {
                    finish(w)
                } else {
                    from_rule(w, rules, i + 1)
                }
            },
            _ => from_rule(w, rules, i),
        },
        Cursor::Effect(i, j) => match event {
            Event::Transformed(true) => {
                let mut processed = copy_indices(&w.processed);
                processed.push(i);
                (at(w, Cursor::Done), Action::Restart(processed))
            },
            Event::Transformed(false) => {
                if i >= rules.len() {
                    finish(w)
                } else if j >= rules[i].effects.len() {
                    from_rule(w, rules, i + 1)
                } else {
                    from_effect(w, rules, i, j + 1)
                }
            },
            _ => from_effect(w, rules, i, j),
        },
        Cursor::Done => finish(w),
    }
}


/// Rules that a program can hold: their counts fit in `usize`.
pub open spec fn rules_fit(rules: Seq<Seq<RuleEffectModel>>) -> bool {
    &&& rules.len() <= usize::MAX
    &&& forall|i: int| 0 <= i < rules.len() ==> #[trigger] rules[i].len() <= usize::MAX
}

/// A state the walk can be in: a rule under test or a matching rule whose
/// effects are being applied is a rule in range that was not processed before.
pub open spec fn walk_wf(w: RuleWalkModel, rules: Seq<Seq<RuleEffectModel>>) -> bool {
    match w.cursor {
        Cursor::Start | Cursor::Done => true,
        Cursor::Rule(i) => i < rules.len() && !w.processed.contains(i),
        Cursor::Effect(i, j) => i < rules.len() && !w.processed.contains(i) && j <= rules[i as int].len(),
    }
}

/// What every step guarantees: the processed rules, the part and the inner assets
/// stay; the new state is well formed; a rule is only tested when it is in range
/// and was not processed; a restart skips exactly one more rule, one that was
/// in range and not processed before.
pub open spec fn step_ok(
    w: RuleWalkModel,
    rules: Seq<Seq<RuleEffectModel>>,
    w2: RuleWalkModel,
    a: ActionModel,
) -> bool {
    &&& w2.processed == w.processed
    &&& w2.part == w.part
    &&& w2.inner_assets == w.inner_assets
    &&& walk_wf(w2, rules)
    &&& (a matches ActionModel::TestRule(k) ==> k < rules.len() && !w.processed.contains(k)
        && w2.cursor == Cursor::Rule(k))
    &&& (a matches ActionModel::Restart(p) ==> exists|k: usize|
        #![trigger w.processed.push(k)]
        k < rules.len() && !w.processed.contains(k) && p == w.processed.push(k))
    &&& (a matches ActionModel::Finish(plan) ==> w2.cursor == Cursor::Done && plan
        == spec_apply_module_type(spec_type_or_raw(w2.module_type), w.part, w.inner_assets))
}

proof fn lemma_from_rule(w: RuleWalkModel, rules: Seq<Seq<RuleEffectModel>>, i: int)
    requires
        rules_fit(rules),
        i >= 0,
    ensures
        ({
            let (w2, a) = spec_from_rule(w, rules, i);
            step_ok(w, rules, w2, a) && !(a is Restart) && w2.module_type == w.module_type
        }),
    decreases rules.len() - i,
{
    if i < 0 || i >= rules.len() {
    } else if w.processed.contains(i as usize) {
        lemma_from_rule(w, rules, i + 1);
    } else {
    }
}

proof fn lemma_from_effect(w: RuleWalkModel, rules: Seq<Seq<RuleEffectModel>>, i: int, j: int)
    requires
        rules_fit(rules),
        0 <= i < rules.len() ==> !w.processed.contains(i as usize),
        i >= 0,
        j >= 0,
    ensures
        ({
            let (w2, a) = spec_from_effect(w, rules, i, j);
            step_ok(w, rules, w2, a) && !(a is Restart)
        }),
    decreases rules[i].len() - j,
{
    if i < 0 || i >= rules.len() || j < 0 {
    } else if j >= rules[i].len() {
        lemma_from_rule(w, rules, i + 1);
    } else {
        match rules[i][j] {
            RuleEffectModel::ModuleType(t) => {
                lemma_from_effect(RuleWalkModel { module_type: Some(t), ..w }, rules, i, j + 1);
            },
            RuleEffectModel::AddEcmascriptTransforms(more) => {
                let (t, issue) = spec_add_transforms(w.module_type, more);
                match issue {
                    None => {
                        lemma_from_effect(RuleWalkModel { module_type: t, ..w }, rules, i, j + 1);
                    },
                    Some(k) => {},
                }
            },
            RuleEffectModel::SourceTransforms(h) => {},
        }
    }
}

/// Every step of the walk from a well-formed state keeps the processed rules,
/// leads to a well-formed state, tests only rules in range that were not processed,
/// restarts with exactly one more processed rule that was not processed before, and
/// finishes by building the module with the chosen type (`Raw` when none was chosen).
pub proof fn law_process_default_step(
    w: RuleWalkModel,
    rules: Seq<Seq<RuleEffectModel>>,
    event: Event,
)
    requires
        rules_fit(rules),
        walk_wf(w, rules),
    ensures
        ({
            let (w2, a) = spec_process_default(w, rules, event);
            step_ok(w, rules, w2, a)
        }),
{
    match w.cursor {
        Cursor::Start => lemma_from_rule(w, rules, 0),
        Cursor::Rule(i) => match event {
            Event::Matched(true) => lemma_from_effect(w, rules, i as int, 0),
            Event::Matched(false) => lemma_from_rule(w, rules, i + 1),
            _ => lemma_from_rule(w, rules, i as int),
        },
        Cursor::Effect(i, j) => match event {
            Event::Transformed(true) => {
                let p = w.processed.push(i);
                assert(i < rules.len() && !w.processed.contains(i) && p == w.processed.push(i));
            },
            Event::Transformed(false) => lemma_from_effect(w, rules, i as int, j + 1),
            _ => lemma_from_effect(w, rules, i as int, j as int),
        },
        Cursor::Done => {},
    }
}

/// A walk just started is well formed.
pub proof fn law_new_walk_well_formed(
    processed: Seq<usize>,
    reference_type: ReferenceType,
    rules: Seq<Seq<RuleEffectModel>>,
)
    ensures
        walk_wf(
            RuleWalkModel {
                processed,
                part: spec_part(reference_type),
                inner_assets: spec_inner_assets(reference_type),
                cursor: Cursor::Start,
                module_type: None,
            },
            rules,
        ),
{
}

/// Rule indices that can have been processed: distinct, each naming a rule.
pub open spec fn processed_wf(processed: Seq<usize>, rules: Seq<Seq<RuleEffectModel>>) -> bool {
    &&& processed.no_duplicates()
    &&& forall|k: int| 0 <= k < processed.len() ==> processed[k] < rules.len()
}

proof fn lemma_distinct_indices_bounded(p: Seq<usize>, n: nat)
    requires
        p.no_duplicates(),
        forall|k: int| 0 <= k < p.len() ==> p[k] < n,
    ensures
        p.len() <= n,
{
    let q = p.map_values(|x: usize| x as int);
    assert(q.no_duplicates()) by {
        assert forall|i: int, j: int| 0 <= i < q.len() && 0 <= j < q.len() && i != j implies q[i]
            != q[j] by {
            assert(p[i] != p[j]);
        }
    }
    q.unique_seq_to_set();
    vstd::set_lib::lemma_int_range(0, n as int);
    assert(q.to_set().subset_of(vstd::set_lib::set_int_range(0, n as int))) by {
        assert forall|x: int| q.to_set().contains(x) implies 0 <= x < n by {
            let i = choose|i: int| 0 <= i < q.len() && q[i] == x;
            assert(p[i] < n);
        }
    }
    vstd::set_lib::lemma_len_subset(q.to_set(), vstd::set_lib::set_int_range(0, n as int));
}

/// Restarts are bounded: starting from rules processed so far that are distinct
/// and in range, a restart processes one rule more and still only distinct rules
/// in range, so a source is processed again at most as many times as there are
/// rules.
pub proof fn law_process_default_restarts_bounded(
    w: RuleWalkModel,
    rules: Seq<Seq<RuleEffectModel>>,
    event: Event,
)
    requires
        rules_fit(rules),
        walk_wf(w, rules),
        processed_wf(w.processed, rules),
    ensures
        ({
            let (w2, a) = spec_process_default(w, rules, event);
            a matches ActionModel::Restart(p) ==> {
                &&& processed_wf(p, rules)
                &&& p.len() == w.processed.len() + 1
                &&& p.len() <= rules.len()
            }
        }),
{
    law_process_default_step(w, rules, event);
    let (w2, a) = spec_process_default(w, rules, event);
    if let ActionModel::Restart(p) = a {
        let k = choose|k: usize|
            #![trigger w.processed.push(k)]
            k < rules.len() && !w.processed.contains(k) && p == w.processed.push(k);
        assert(p.no_duplicates()) by {
            assert forall|i: int, j: int| 0 <= i < p.len() && 0 <= j < p.len() && i != j implies p[i]
                != p[j] by {
                if i == w.processed.len() as int {
                    assert(w.processed[j] == p[j]);
                } else if j == w.processed.len() as int {
                    assert(w.processed[i] == p[i]);
                }
            }
        }
        lemma_distinct_indices_bounded(p, rules.len());
    }
}

/// The action the walk is waiting on matches where it stands: a rule under test
/// at that rule, a source transform at an effect of the rule, an issue after an
/// effect of the rule. A walk just started waits on nothing.
pub open spec fn pending_ok(w: RuleWalkModel, a: ActionModel, rules: Seq<Seq<RuleEffectModel>>) -> bool {
    match w.cursor {
        Cursor::Start => true,
        Cursor::Rule(i) => a == ActionModel::TestRule(i),
        Cursor::Effect(i, j) => i < rules.len() && (
            (a is TransformSource && j < rules[i as int].len())
            || (a is ReportIssue && 1 <= j <= rules[i as int].len())),
        Cursor::Done => false,
    }
}

/// The answer the caller owes to an action: whether the rule matched, whether
/// the transform changed the source, or `Continue` after an issue.
pub open spec fn event_fits(a: ActionModel, e: Event) -> bool {
    match a {
        ActionModel::TestRule(_) => e is Matched,
        ActionModel::TransformSource(_) => e is Transformed,
        _ => e is Continue,
    }
}

/// How much of the walk is left: the rules left from the cursor, then the
/// effects left in the current rule (a pending rule test counts for more than
/// any of its effects).
pub open spec fn walk_measure(w: RuleWalkModel, a: ActionModel, rules: Seq<Seq<RuleEffectModel>>) -> (int, int) {
    let n = rules.len() as int;
    match w.cursor {
        Cursor::Start => (n + 1, 0),
        Cursor::Rule(i) => (n - i, rules[i as int].len() + 2int),
        Cursor::Effect(i, j) => (
            n - i,
            if a is ReportIssue {
                rules[i as int].len() - j + 1
            } else {
                rules[i as int].len() - j
            },
        ),
        Cursor::Done => (0, 0),
    }
}

/// `m1` is below `m2` in the lexicographic order on pairs of natural numbers.
pub open spec fn measure_lt(m1: (int, int), m2: (int, int)) -> bool {
    &&& 0 <= m1.0
    &&& 0 <= m1.1
    &&& (m1.0 < m2.0 || (m1.0 == m2.0 && m1.1 < m2.1))
}

proof fn lemma_from_rule_progress(w: RuleWalkModel, rules: Seq<Seq<RuleEffectModel>>, i: int)
    requires
        rules_fit(rules),
        i >= 0,
    ensures
        ({
            let (w2, a) = spec_from_rule(w, rules, i);
            &&& a is Finish || a is TestRule
            &&& a matches ActionModel::TestRule(k) ==> w2.cursor == Cursor::Rule(k) && i <= k
                < rules.len()
        }),
    decreases rules.len() - i,
{
    if i < 0 || i >= rules.len() {
    } else if w.processed.contains(i as usize) {
        lemma_from_rule_progress(w, rules, i + 1);
    } else {
    }
}

proof fn lemma_from_effect_progress(
    w: RuleWalkModel,
    rules: Seq<Seq<RuleEffectModel>>,
    i: int,
    j: int,
)
    requires
        rules_fit(rules),
        0 <= i < rules.len(),
        j >= 0,
    ensures
        ({
            let (w2, a) = spec_from_effect(w, rules, i, j);
            &&& !(a is Restart)
            &&& a matches ActionModel::TestRule(k) ==> w2.cursor == Cursor::Rule(k) && i < k
                < rules.len()
            &&& a is ReportIssue ==> (w2.cursor matches Cursor::Effect(i2, c) && i2 == i && j + 1
                <= c <= rules[i].len())
            &&& a is TransformSource ==> (w2.cursor matches Cursor::Effect(i2, c) && i2 == i && j
                <= c < rules[i].len())
        }),
    decreases rules[i].len() - j,
{
    if j >= rules[i].len() {
        lemma_from_rule_progress(w, rules, i + 1);
    } else {
        match rules[i][j] {
            RuleEffectModel::ModuleType(t) => {
                lemma_from_effect_progress(
                    RuleWalkModel { module_type: Some(t), ..w },
                    rules,
                    i,
                    j + 1,
                );
            },
            RuleEffectModel::AddEcmascriptTransforms(more) => {
                let (t, issue) = spec_add_transforms(w.module_type, more);
                match issue {
                    None => {
                        lemma_from_effect_progress(
                            RuleWalkModel { module_type: t, ..w },
                            rules,
                            i,
                            j + 1,
                        );
                    },
                    Some(k) => {},
                }
            },
            RuleEffectModel::SourceTransforms(h) => {},
        }
    }
}

/// The walk makes progress: from a well-formed state waiting on an action, a step
/// answered as that action asks either ends the walk (`Finish` or `Restart`) or
/// leads to a well-formed state waiting on its next action, with strictly fewer
/// rules left or, in the same rule, strictly fewer effects left. So every walk
/// answered this way ends.
pub proof fn law_process_default_progress(
    w: RuleWalkModel,
    a: ActionModel,
    rules: Seq<Seq<RuleEffectModel>>,
    event: Event,
)
    requires
        rules_fit(rules),
        walk_wf(w, rules),
        pending_ok(w, a, rules),
        event_fits(a, event),
    ensures
        ({
            let (w2, a2) = spec_process_default(w, rules, event);
            ||| a2 is Finish
            ||| a2 is Restart
            ||| {
                &&& walk_wf(w2, rules)
                &&& pending_ok(w2, a2, rules)
                &&& measure_lt(walk_measure(w2, a2, rules), walk_measure(w, a, rules))
            }
        }),
{
    law_process_default_step(w, rules, event);
    match w.cursor {
        Cursor::Start => lemma_from_rule_progress(w, rules, 0),
        Cursor::Rule(i) => match event {
            Event::Matched(true) => lemma_from_effect_progress(w, rules, i as int, 0),
            Event::Matched(false) => lemma_from_rule_progress(w, rules, i + 1),
            _ => {},
        },
        Cursor::Effect(i, j) => match event {
            Event::Transformed(true) => {},
            Event::Transformed(false) => lemma_from_effect_progress(w, rules, i as int, j + 1),
            _ => lemma_from_effect_progress(w, rules, i as int, j as int),
        },
        Cursor::Done => {},
    }
}

/// Adding ECMAScript input transforms to a chosen ECMAScript, TypeScript or
/// TypeScript-with-types module type appends them, in order, after its own
/// transforms, keeps its options and reports nothing; any other chosen module type
/// stays as it is and is reported invalid; with no module type chosen there stays
/// none and it is reported missing.
pub proof fn law_add_transforms(t: Option<ModuleTypeModel>, more: Seq<u64>)
    ensures
        ({
            let (t2, issue) = spec_add_transforms(t, more);
            &&& t matches Some(ModuleTypeModel::Ecmascript { transforms, options }) ==> t2 == Some(
                ModuleTypeModel::Ecmascript { transforms: transforms + more, options },
            ) && issue is None
            &&& t matches Some(ModuleTypeModel::Typescript { transforms, options }) ==> t2 == Some(
                ModuleTypeModel::Typescript { transforms: transforms + more, options },
            ) && issue is None
            &&& t matches Some(ModuleTypeModel::TypescriptWithTypes { transforms, options }) ==> t2
                == Some(ModuleTypeModel::TypescriptWithTypes { transforms: transforms + more, options })
                && issue is None
            &&& (t is Some && !(t->0 is Ecmascript || t->0 is Typescript || t->0 is TypescriptWithTypes))
                ==> t2 == t && issue == Some(ModuleIssueKind::InvalidModuleType)
            &&& t is None ==> t2 is None && issue == Some(ModuleIssueKind::MissingModuleType)
        }),
{
}

/// The walk applies the effects of a matching rule one by one: a module type
/// effect makes that type the chosen one and goes on with the next effect; added
/// transforms on an ECMAScript, TypeScript or TypeScript-with-types type go on with
/// the next effect with the transforms appended; a source transform effect stops
/// there and asks for the transform.
pub proof fn law_from_effect_applies_effect(
    w: RuleWalkModel,
    rules: Seq<Seq<RuleEffectModel>>,
    i: int,
    j: int,
)
    requires
        rules_fit(rules),
        0 <= i < rules.len(),
        0 <= j < rules[i].len(),
    ensures
        rules[i][j] matches RuleEffectModel::ModuleType(t) ==> spec_from_effect(w, rules, i, j)
            == spec_from_effect(RuleWalkModel { module_type: Some(t), ..w }, rules, i, j + 1),
        rules[i][j] matches RuleEffectModel::AddEcmascriptTransforms(more) ==> (
        w.module_type matches Some(ModuleTypeModel::Ecmascript { transforms, options })
            ==> spec_from_effect(w, rules, i, j) == spec_from_effect(
            RuleWalkModel {
                module_type: Some(ModuleTypeModel::Ecmascript { transforms: transforms + more, options }),
                ..w
            },
            rules,
            i,
            j + 1,
        )),
        rules[i][j] matches RuleEffectModel::AddEcmascriptTransforms(more) ==> (
        w.module_type matches Some(ModuleTypeModel::Typescript { transforms, options })
            ==> spec_from_effect(w, rules, i, j) == spec_from_effect(
            RuleWalkModel {
                module_type: Some(ModuleTypeModel::Typescript { transforms: transforms + more, options }),
                ..w
            },
            rules,
            i,
            j + 1,
        )),
        rules[i][j] matches RuleEffectModel::AddEcmascriptTransforms(more) ==> (
        w.module_type matches Some(ModuleTypeModel::TypescriptWithTypes { transforms, options })
            ==> spec_from_effect(w, rules, i, j) == spec_from_effect(
            RuleWalkModel {
                module_type: Some(
                    ModuleTypeModel::TypescriptWithTypes { transforms: transforms + more, options },
                ),
                ..w
            },
            rules,
            i,
            j + 1,
        )),
        rules[i][j] is AddEcmascriptTransforms && w.module_type is None ==> spec_from_effect(
            w,
            rules,
            i,
            j,
        ) == (RuleWalkModel { cursor: Cursor::Effect(i as usize, (j + 1) as usize), ..w },
        ActionModel::ReportIssue(ModuleIssueKind::MissingModuleType)),
        rules[i][j] is AddEcmascriptTransforms && w.module_type is Some && !(w.module_type->0 is Ecmascript
            || w.module_type->0 is Typescript || w.module_type->0 is TypescriptWithTypes)
            ==> spec_from_effect(w, rules, i, j) == (RuleWalkModel {
            cursor: Cursor::Effect(i as usize, (j + 1) as usize),
            ..w
        }, ActionModel::ReportIssue(ModuleIssueKind::InvalidModuleType)),
        rules[i][j] matches RuleEffectModel::SourceTransforms(h) ==> spec_from_effect(w, rules, i, j)
            == (RuleWalkModel { cursor: Cursor::Effect(i as usize, j as usize), ..w },
        ActionModel::TransformSource(h)),
{
}

/// After the last effect of a matching rule the walk goes on with the next rule.
pub proof fn law_from_effect_after_last(
    w: RuleWalkModel,
    rules: Seq<Seq<RuleEffectModel>>,
    i: int,
    j: int,
)
    requires
        0 <= i < rules.len(),
        j >= rules[i].len(),
    ensures
        spec_from_effect(w, rules, i, j) == spec_from_rule(w, rules, i + 1),
{
}

/// From rule `i` on, the walk tests the first rule at or after `i` that was not
/// processed, leaving everything but the cursor as it was, and finishes with the
/// module of the chosen type exactly when every rule from `i` on was processed.
pub proof fn law_from_rule_first_unprocessed(w: RuleWalkModel, rules: Seq<Seq<RuleEffectModel>>, i: int)
    requires
        rules_fit(rules),
        i >= 0,
    ensures
        ({
            let (w2, a) = spec_from_rule(w, rules, i);
            &&& a is TestRule || a is Finish
            &&& a matches ActionModel::TestRule(k) ==> {
                &&& i <= k < rules.len()
                &&& !w.processed.contains(k)
                &&& forall|j: usize| i <= j < k ==> #[trigger] w.processed.contains(j)
                &&& w2 == (RuleWalkModel { cursor: Cursor::Rule(k), ..w })
            }
            &&& a is Finish ==> {
                &&& forall|j: usize| i <= j < rules.len() ==> #[trigger] w.processed.contains(j)
                &&& w2 == (RuleWalkModel { cursor: Cursor::Done, ..w })
                &&& a == ActionModel::Finish(
                    spec_apply_module_type(
                        match w.module_type {
                            Some(t) => t,
                            None => ModuleTypeModel::Raw,
                        },
                        w.part,
                        w.inner_assets,
                    ),
                )
            }
        }),
    decreases rules.len() - i,
{
    if i < rules.len() && w.processed.contains(i as usize) {
        law_from_rule_first_unprocessed(w, rules, i + 1);
        let (w2, a) = spec_from_rule(w, rules, i);
        if let ActionModel::TestRule(k) = a {
            assert forall|j: usize| i <= j < k implies #[trigger] w.processed.contains(j) by {
                if j > i {
                    assert(i + 1 <= j < k);
                }
            }
        }
    }
}

/// How each answer moves the walk: a started walk looks for the first rule to
/// test; a matching rule applies its effects from the first, a rule that does not
/// match passes to the next rule; a transform that changed the source restarts
/// with the current rule processed as well, one that did not goes on with the next
/// effect.
pub proof fn law_process_default_events(w: RuleWalkModel, rules: Seq<Seq<RuleEffectModel>>, event: Event)
    ensures
        w.cursor is Start ==> spec_process_default(w, rules, event) == spec_from_rule(w, rules, 0),
        w.cursor matches Cursor::Rule(i) ==> (event == Event::Matched(true)
            ==> spec_process_default(w, rules, event) == spec_from_effect(w, rules, i as int, 0)),
        w.cursor matches Cursor::Rule(i) ==> (event == Event::Matched(false)
            ==> spec_process_default(w, rules, event) == spec_from_rule(w, rules, i + 1)),
        w.cursor matches Cursor::Effect(i, j) ==> (event == Event::Transformed(true)
            ==> spec_process_default(w, rules, event) == (
            RuleWalkModel { cursor: Cursor::Done, ..w },
            ActionModel::Restart(w.processed.push(i)),
        )),
        w.cursor matches Cursor::Effect(i, j) ==> (event == Event::Transformed(false)
            ==> spec_process_default(w, rules, event) == spec_from_effect(w, rules, i as int, j + 1)),
{
}

/// Rules held in a vector fit: their counts are machine integers.
pub proof fn lemma_rules_fit(rules: &Vec<ModuleRule>)
    ensures
        rules_fit(rules_model(rules@)),
{
    assert forall|i: int| 0 <= i < rules_model(rules@).len() implies #[trigger] rules_model(
        rules@,
    )[i].len() <= usize::MAX by {
        assert(rules_model(rules@)[i] == rules@[i]@);
        assert(rules@[i].effects@.len() == rules@[i].effects.len());
    }
    assert(rules@.len() == rules.len());
}

} // verus!
