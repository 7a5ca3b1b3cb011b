//! The context in which sources are processed into modules: its resolve settings,
//! its transitions by name and the transition it applies, if any.
use vstd::prelude::*;

verus! {

/// Resolve settings, as far as processing reads them; the other settings travel
/// by handle.
#[derive(Clone, Copy, PartialEq, Eq, Structural, Debug)]
pub struct ResolveOptionsContext {
    pub enable_types: bool,
    pub enable_typescript: bool,
    pub settings: u64,
}

impl ResolveOptionsContext {
    /// The same settings with types and TypeScript resolving enabled.
    pub fn with_types_enabled(&self) -> (r: ResolveOptionsContext)
        ensures
            r == (ResolveOptionsContext { enable_types: true, enable_typescript: true, ..*self }),
    {
        ResolveOptionsContext { enable_types: true, enable_typescript: true, settings: self.settings }
    }
}

/// The transition registered under `name`: the first entry with that name.
pub open spec fn lookup(entries: Seq<(String, u64)>, name: Seq<char>) -> Option<u64>
    decreases entries.len(),
{
    if entries.len() == 0 {
        None
    } else if entries[0].0@ == name {
        Some(entries[0].1)
    } else {
        lookup(entries.drop_first(), name)
    }
}

/// Transitions by name.
#[derive(Debug)]
pub struct TransitionsByName {
    entries: Vec<(String, u64)>,
}

impl View for TransitionsByName {
    type V = Map<Seq<char>, u64>;

    closed spec fn view(&self) -> Map<Seq<char>, u64> {
        Map::new(
            |n: Seq<char>| lookup(self.entries@, n) is Some,
            |n: Seq<char>| lookup(self.entries@, n).unwrap(),
        )
    }
}

proof fn lemma_lookup_push(s: Seq<(String, u64)>, x: (String, u64), n: Seq<char>)
    ensures
        lookup(s.push(x), n) == if lookup(s, n) is Some {
            lookup(s, n)
        } else if x.0@ == n {
            Some(x.1)
        } else {
            None
        },
    decreases s.len(),
{
    if s.len() > 0 {
        assert(s.push(x)[0] == s[0]);
        assert(s.push(x).drop_first() =~= s.drop_first().push(x));
        lemma_lookup_push(s.drop_first(), x, n);
    } else {
        assert(s.push(x)[0] == x);
        assert(s.push(x).drop_first() =~= Seq::<(String, u64)>::empty());
        assert(lookup(Seq::<(String, u64)>::empty(), n) is None);
    }
}

proof fn lemma_lookup_update(s: Seq<(String, u64)>, i: int, x: (String, u64), n: Seq<char>)
    requires
        0 <= i < s.len(),
        x.0@ == s[i].0@,
        forall|k: int| 0 <= k < i ==> s[k].0@ != x.0@,
    ensures
        lookup(s.update(i, x), n) == if n == x.0@ {
            Some(x.1)
        } else {
            lookup(s, n)
        },
    decreases s.len(),
{
    assert(s.update(i, x)[0] == if i == 0 { x } else { s[0] });
    if i > 0 {
        assert(s.update(i, x).drop_first() =~= s.drop_first().update(i - 1, x));
        lemma_lookup_update(s.drop_first(), i - 1, x, n);
    } else {
        assert(s.update(i, x).drop_first() =~= s.drop_first());
    }
}

impl TransitionsByName {
    /// No transitions.
    pub fn new() -> (r: TransitionsByName)
        ensures
            r@ == Map::<Seq<char>, u64>::empty(),
    {
        let r = TransitionsByName { entries: Vec::new() };
        assert(r@ =~= Map::<Seq<char>, u64>::empty());
        r
    }

    /// Registers `transition` under `name`, in place of any transition of that name.
    pub fn insert(&mut self, name: String, transition: u64)
        ensures
            final(self)@ == old(self)@.insert(name@, transition),
    {
        let mut i: usize = 0;
        while i < self.entries.len()
            invariant
                i <= self.entries.len(),
                self.entries@ == old(self).entries@,
                forall|k: int| 0 <= k < i ==> self.entries@[k].0@ != name@,
            decreases self.entries.len() - i,
        {
            if self.entries[i].0 == name {
                let ghost s = self.entries@;
                let ghost ii = i as int;
                self.entries.set(i, (name, transition));
                proof {
                    assert forall|n: Seq<char>|
                        lookup(self.entries@, n) == if n == s[ii].0@ {
                            Some(transition)
                        } else {
                            lookup(s, n)
                        } by {
                        lemma_lookup_update(s, ii, self.entries@[ii], n);
                    }
                    assert(self@ =~= old(self)@.insert(s[ii].0@, transition));
                }
                return;
            }
            i = i + 1;
        }
        let ghost s = self.entries@;
        let ghost nm = name@;
        proof {
            assert(lookup(s, nm) is None) by {
                lemma_lookup_absent(s, nm);
            }
        }
        self.entries.push((name, transition));
        proof {
            assert forall|n: Seq<char>|
                lookup(self.entries@, n) == if lookup(s, n) is Some {
                    lookup(s, n)
                } else if nm == n {
                    Some(transition)
                } else {
                    None
                } by {
                lemma_lookup_push(s, self.entries@[s.len() as int], n);
            }
            assert(self@ =~= old(self)@.insert(nm, transition));
        }
    }

    /// A copy of these transitions.
    fn duplicate(&self) -> (r: TransitionsByName)
        ensures
            r@ == self@,
    {
        let mut entries: Vec<(String, u64)> = Vec::new();
        let mut i: usize = 0;
        while i < self.entries.len()
            invariant
                i <= self.entries.len(),
                entries@ == self.entries@.take(i as int),
            decreases self.entries.len() - i,
        {
            let e = &self.entries[i];
            entries.push((e.0.clone(), e.1));
            i = i + 1;
            assert(entries@ =~= self.entries@.take(i as int));
        }
        assert(self.entries@.take(i as int) =~= self.entries@);
        let r = TransitionsByName { entries };
        assert(r@ =~= self@);
        r
    }

    /// The transition registered under `name`.
    pub fn get(&self, name: &String) -> (r: Option<u64>)
        ensures
            r == if self@.contains_key(name@) {
                Some(self@[name@])
            } else {
                None
            },
    {
        let mut i: usize = 0;
        assert(self.entries@.skip(0) =~= self.entries@);
        while i < self.entries.len()
            invariant
                i <= self.entries.len(),
                lookup(self.entries@, name@) == lookup(self.entries@.skip(i as int), name@),
            decreases self.entries.len() - i,
        {
            assert(self.entries@.skip(i as int)[0] == self.entries@[i as int]);
            assert(self.entries@.skip(i as int).drop_first() =~= self.entries@.skip(i + 1));
            if self.entries[i].0 == *name {
                return Some(self.entries[i].1);
            }
            i = i + 1;
        }
        assert(self.entries@.skip(i as int) =~= Seq::<(String, u64)>::empty());
        None
    }
}

proof fn lemma_lookup_absent(s: Seq<(String, u64)>, n: Seq<char>)
    requires
        forall|k: int| 0 <= k < s.len() ==> s[k].0@ != n,
    ensures
        lookup(s, n) is None,
    decreases s.len(),
{
    if s.len() > 0 {
        lemma_lookup_absent(s.drop_first(), n);
    }
}

/// After registering `transition` under `name`, that name gives `transition` and
/// every other name gives what it gave before.
pub proof fn law_transitions_read_after_write(
    m: Map<Seq<char>, u64>,
    name: Seq<char>,
    transition: u64,
    other: Seq<char>,
)
    ensures
        m.insert(name, transition).contains_key(name),
        m.insert(name, transition)[name] == transition,
        other != name ==> (m.insert(name, transition).contains_key(other) == m.contains_key(other)),
        other != name && m.contains_key(other) ==> m.insert(name, transition)[other] == m[other],
{
}

/// How sources are processed in a context.
#[derive(Clone, Copy, PartialEq, Eq, Structural, Debug)]
pub enum Processing {
    /// By the context's transition, whose handle is given.
    ByTransition(u64),
    /// By the default processing of the module rules.
    Default,
}

/// The context in which assets are turned into modules. Values other than the
/// transitions, the resolve settings and the layer travel by handle.
#[derive(Debug)]
pub struct ModuleAssetContext {
    pub transitions: TransitionsByName,
    pub compile_time_info: u64,
    pub module_options_context: u64,
    pub resolve_options_context: ResolveOptionsContext,
    pub layer: String,
    transition: Option<u64>,
}

/// Mathematical model of [`ModuleAssetContext`].
pub struct ModuleAssetContextModel {
    pub transitions: Map<Seq<char>, u64>,
    pub compile_time_info: u64,
    pub module_options_context: u64,
    pub resolve_options_context: ResolveOptionsContext,
    pub layer: Seq<char>,
    pub transition: Option<u64>,
}

impl View for ModuleAssetContext {
    type V = ModuleAssetContextModel;

    closed spec fn view(&self) -> ModuleAssetContextModel {
        ModuleAssetContextModel {
            transitions: self.transitions@,
            compile_time_info: self.compile_time_info,
            module_options_context: self.module_options_context,
            resolve_options_context: self.resolve_options_context,
            layer: self.layer@,
            transition: self.transition,
        }
    }
}

/// Types are resolved in a context whose resolve settings enable both types
/// and TypeScript.
pub open spec fn spec_types_resolving_enabled(c: ModuleAssetContextModel) -> bool {
    c.resolve_options_context.enable_types && c.resolve_options_context.enable_typescript
}

/// The context that resolves types: the same context when it already does; else a
/// new context without transition whose resolve settings enable types.
pub open spec fn spec_with_types_resolving_enabled(c: ModuleAssetContextModel) -> ModuleAssetContextModel {
    if spec_types_resolving_enabled(c) {
        c
    } else {
        ModuleAssetContextModel {
            resolve_options_context: ResolveOptionsContext {
                enable_types: true,
                enable_typescript: true,
                ..c.resolve_options_context
            },
            transition: None,
            ..c
        }
    }
}

/// The context with the transition registered under `name` in its transitions,
/// or without transition when there is none of that name.
pub open spec fn spec_with_transition(c: ModuleAssetContextModel, name: Seq<char>) -> ModuleAssetContextModel {
    ModuleAssetContextModel {
        transition: if c.transitions.contains_key(name) {
            Some(c.transitions[name])
        } else {
            None
        },
        ..c
    }
}

impl ModuleAssetContext {
    /// A context without transition.
    pub fn new(
        transitions: TransitionsByName,
        compile_time_info: u64,
        module_options_context: u64,
        resolve_options_context: ResolveOptionsContext,
        layer: String,
    ) -> (r: ModuleAssetContext)
        ensures
            r@ == (ModuleAssetContextModel {
                transitions: transitions@,
                compile_time_info,
                module_options_context,
                resolve_options_context,
                layer: layer@,
                transition: None,
            }),
    {
        ModuleAssetContext {
            transitions,
            compile_time_info,
            module_options_context,
            resolve_options_context,
            layer,
            transition: None,
        }
    }

    /// A context that processes sources by `transition`.
    pub fn new_transition(
        transitions: TransitionsByName,
        compile_time_info: u64,
        module_options_context: u64,
        resolve_options_context: ResolveOptionsContext,
        layer: String,
        transition: u64,
    ) -> (r: ModuleAssetContext)
        ensures
            r@ == (ModuleAssetContextModel {
                transitions: transitions@,
                compile_time_info,
                module_options_context,
                resolve_options_context,
                layer: layer@,
                transition: Some(transition),
            }),
    {
        ModuleAssetContext {
            transitions,
            compile_time_info,
            module_options_context,
            resolve_options_context,
            layer,
            transition: Some(transition),
        }
    }

    /// The handle of the module options of this context.
    pub fn module_options_context(&self) -> (r: u64)
        ensures
            r == self@.module_options_context,
    {
        self.module_options_context
    }

    /// The handle of the compile time information of this context.
    pub fn compile_time_info(&self) -> (r: u64)
        ensures
            r == self@.compile_time_info,
    {
        self.compile_time_info
    }

    /// The layer of this context.
    pub fn layer(&self) -> (r: String)
        ensures
            r@ == self@.layer,
    {
        self.layer.clone()
    }

    /// How this context processes sources: by its transition when it has one,
    /// else by the default rules. Resolve options, resolve results and single
    /// assets are all processed this way.
    pub fn process(&self) -> (r: Processing)
        ensures
            r == match self@.transition {
                Some(t) => Processing::ByTransition(t),
                None => Processing::Default,
            },
    {
        match self.transition {
            Some(t) => Processing::ByTransition(t),
            None => Processing::Default,
        }
    }

    /// Whether this context resolves types (and then adds a types reference to
    /// every resolved asset).
    pub fn is_types_resolving_enabled(&self) -> (r: bool)
        ensures
            r == spec_types_resolving_enabled(self@),
    {
        self.resolve_options_context.enable_types
            && self.resolve_options_context.enable_typescript
    }

    /// This context if it resolves types; else a new context, without
    /// transition, whose resolve settings enable types.
    pub fn with_types_resolving_enabled(&self) -> (r: ModuleAssetContext)
        ensures
            r@ == spec_with_types_resolving_enabled(self@),
    {
        if self.is_types_resolving_enabled() {
            return ModuleAssetContext {
                transitions: self.transitions.duplicate(),
                compile_time_info: self.compile_time_info,
                module_options_context: self.module_options_context,
                resolve_options_context: self.resolve_options_context,
                layer: self.layer.clone(),
                transition: self.transition,
            };
        }
        let resolve_options_context = self.resolve_options_context.with_types_enabled();
        ModuleAssetContext::new(
            self.transitions.duplicate(),
            self.compile_time_info,
            self.module_options_context,
            resolve_options_context,
            self.layer.clone(),
        )
    }

    /// This context with the transition registered under `transition` in the
    /// transitions of this context, or with no transition when none is
    /// registered under that name.
    pub fn with_transition(&self, transition: &String) -> (r: ModuleAssetContext)
        ensures
            r@ == spec_with_transition(self@, transition@),
    {
        match self.transitions.get(transition) {
            Some(t) => ModuleAssetContext::new_transition(
                self.transitions.duplicate(),
                self.compile_time_info,
                self.module_options_context,
                self.resolve_options_context,
                self.layer.clone(),
                t,
            ),
            None => ModuleAssetContext::new(
                self.transitions.duplicate(),
                self.compile_time_info,
                self.module_options_context,
                self.resolve_options_context,
                self.layer.clone(),
            ),
        }
    }
}

/// A context made to resolve types does resolve types, and asking again gives
/// the same context; the handles and the layer of the context stay.
pub proof fn law_with_types_resolving_enabled(c: ModuleAssetContextModel)
    ensures
        spec_types_resolving_enabled(spec_with_types_resolving_enabled(c)),
        spec_with_types_resolving_enabled(spec_with_types_resolving_enabled(c))
            == spec_with_types_resolving_enabled(c),
        spec_with_types_resolving_enabled(c).transitions == c.transitions,
        spec_with_types_resolving_enabled(c).compile_time_info == c.compile_time_info,
        spec_with_types_resolving_enabled(c).module_options_context == c.module_options_context,
        spec_with_types_resolving_enabled(c).resolve_options_context.settings
            == c.resolve_options_context.settings,
        spec_with_types_resolving_enabled(c).layer == c.layer,
{
}

/// Choosing a transition by name keeps everything else of the context, and
/// choosing again by the same name gives the same context. The context then
/// applies the transition registered under that name, or none when no
/// transition has that name.
pub proof fn law_with_transition(c: ModuleAssetContextModel, name: Seq<char>)
    ensures
        spec_with_transition(c, name) == (ModuleAssetContextModel {
            transition: spec_with_transition(c, name).transition,
            ..c
        }),
        spec_with_transition(spec_with_transition(c, name), name) == spec_with_transition(c, name),
        c.transitions.contains_key(name) ==> spec_with_transition(c, name).transition == Some(
            c.transitions[name],
        ),
        !c.transitions.contains_key(name) ==> spec_with_transition(c, name).transition is None,
{
}

} // verus!
