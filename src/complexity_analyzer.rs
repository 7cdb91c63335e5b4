//! Per-function complexity metrics, computed from the pre-order walk of each
//! function body.
use crate::syntax::{BodyEvent, FunctionSyntax, UseTree};
use crate::text::{join_strings, join_with, views};
use vstd::prelude::*;
use vstd::string::StringExecFns;

verus! {

/// The value of `n` in a `usize`, or `usize::MAX` where it does not fit.
pub open spec fn sat(n: nat) -> nat {
    if n <= usize::MAX {
        n
    } else {
        usize::MAX as nat
    }
}

// ---------------------------------------------------------------------------
// Import flattening
// ---------------------------------------------------------------------------

/// The dotted paths that an import tree names, each prefixed by `prefix`.
/// Groups are expanded in order; an alias contributes the path of the
/// original name; a glob contributes nothing.
pub open spec fn use_paths(t: UseTree, prefix: Seq<Seq<char>>) -> Seq<Seq<char>>
    decreases t,
{
    match t {
        UseTree::Path { ident, tree } => use_paths(*tree, prefix.push(ident@)),
        UseTree::Name { ident } => seq![join_with(prefix.push(ident@), "::"@)],
        UseTree::Rename { ident, rename: _ } => seq![join_with(prefix.push(ident@), "::"@)],
        UseTree::Glob => Seq::empty(),
        UseTree::Group { items } => group_paths(items@, prefix),
    }
}

/// The paths of each tree of a group, in order, concatenated.
pub open spec fn group_paths(items: Seq<UseTree>, prefix: Seq<Seq<char>>) -> Seq<Seq<char>>
    decreases items,
{
    if items.len() == 0 {
        Seq::empty()
    } else {
        group_paths(items.drop_last(), prefix) + use_paths(items.last(), prefix)
    }
}

// ---------------------------------------------------------------------------
// The metrics model
// ---------------------------------------------------------------------------

/// What a walk over a body has counted so far, with exact (unbounded) totals.
pub struct Tally {
    pub ifs: nat,
    pub arms: nat,
    pub loops: nat,
    pub nested: nat,
    pub calls: nat,
    pub depth: nat,
    pub max_depth: nat,
    pub unsafe_blocks: nat,
    pub generics: nat,
    pub chain: Seq<Seq<char>>,
    pub macros: Seq<Seq<char>>,
    pub deps: Seq<Seq<char>>,
}

/// The tally with one more open scope.
pub open spec fn entered(t: Tally) -> Tally {
    Tally {
        depth: t.depth + 1,
        max_depth: if t.depth + 1 > t.max_depth {
            t.depth + 1
        } else {
            t.max_depth
        },
        ..t
    }
}

/// The effect of one event on the tally.
pub open spec fn step(t: Tally, e: BodyEvent) -> Tally {
    match e {
        BodyEvent::If => entered(Tally { ifs: t.ifs + 1, ..t }),
        BodyEvent::Match { arms } => entered(Tally { arms: t.arms + arms as nat, ..t }),
        BodyEvent::Loop => entered(Tally { loops: t.loops + 1, ..t }),
        BodyEvent::Unsafe => entered(Tally { unsafe_blocks: t.unsafe_blocks + 1, ..t }),
        BodyEvent::End => Tally {
            depth: if t.depth > 0 {
                (t.depth - 1) as nat
            } else {
                0
            },
            ..t
        },
        BodyEvent::Call { callee } => Tally {
            calls: t.calls + 1,
            chain: match callee {
                Some(name) => t.chain.push(name@),
                None => t.chain,
            },
            ..t
        },
        BodyEvent::Macro { path } => Tally {
            macros: t.macros.push(join_with(views(path@), "::"@)),
            ..t
        },
        BodyEvent::Use { tree } => Tally { deps: t.deps + use_paths(tree, Seq::empty()), ..t },
        BodyEvent::NestedFn { generic_params } => Tally {
            nested: t.nested + 1,
            generics: t.generics + generic_params as nat,
            ..t
        },
    }
}

/// The tally before any event, for a function with `own_generics` generic
/// parameters of its own.
pub open spec fn initial_tally(own_generics: nat) -> Tally {
    Tally {
        ifs: 0,
        arms: 0,
        loops: 0,
        nested: 0,
        calls: 0,
        depth: 0,
        max_depth: 0,
        unsafe_blocks: 0,
        generics: own_generics,
        chain: Seq::empty(),
        macros: Seq::empty(),
        deps: Seq::empty(),
    }
}

/// The tally after the events of `s`, in order.
pub open spec fn tally_of(s: Seq<BodyEvent>, own_generics: nat) -> Tally
    decreases s.len(),
{
    if s.len() == 0 {
        initial_tally(own_generics)
    } else {
        step(tally_of(s.drop_last(), own_generics), s.last())
    }
}

/// `1 + ifs + arms + loops`.
pub open spec fn cyclomatic_of(t: Tally) -> nat {
    1 + t.ifs + t.arms + t.loops
}

/// `(ifs + loops + arms) + 2 * max_depth + 3 * unsafe_blocks`.
pub open spec fn cognitive_of(t: Tally) -> nat {
    (t.ifs + t.loops + t.arms) + 2 * t.max_depth + 3 * t.unsafe_blocks
}

/// The number of lines of a span, 0 where the span is unknown.
pub open spec fn line_count_of(start_line: nat, end_line: nat) -> nat {
    if 0 < start_line && start_line <= end_line {
        (end_line - start_line + 1) as nat
    } else {
        0
    }
}

// ---------------------------------------------------------------------------
// Rating
// ---------------------------------------------------------------------------

#[derive(Debug, Clone, Copy, PartialEq, Eq, Structural)]
pub enum ComplexityRating {
    Low,
    Medium,
    High,
    VeryHigh,
}

/// The band of a cyclomatic score: 1-5, 6-10, 11-20, and everything else.
pub open spec fn rating_of(score: nat) -> ComplexityRating {
    if 1 <= score && score <= 5 {
        ComplexityRating::Low
    } else if 6 <= score && score <= 10 {
        ComplexityRating::Medium
    } else if 11 <= score && score <= 20 {
        ComplexityRating::High
    } else {
        ComplexityRating::VeryHigh
    }
}

impl ComplexityRating {
    pub fn from_score(score: usize) -> (r: ComplexityRating)
        ensures
            r == rating_of(score as nat),
    {
        if 1 <= score && score <= 5 {
            ComplexityRating::Low
        } else if 6 <= score && score <= 10 {
            ComplexityRating::Medium
        } else if 11 <= score && score <= 20 {
            ComplexityRating::High
        } else {
            ComplexityRating::VeryHigh
        }
    }

    /// The rating's display text.
    pub fn label(&self) -> (r: String)
        ensures
            r@ == rating_label(*self),
    {
        match self {
            ComplexityRating::Low => String::from_str("Low"),
            ComplexityRating::Medium => String::from_str("Medium"),
            ComplexityRating::High => String::from_str("High"),
            ComplexityRating::VeryHigh => String::from_str("Very High"),
        }
    }
}

pub open spec fn rating_label(r: ComplexityRating) -> Seq<char> {
    match r {
        ComplexityRating::Low => "Low"@,
        ComplexityRating::Medium => "Medium"@,
        ComplexityRating::High => "High"@,
        ComplexityRating::VeryHigh => "Very High"@,
    }
}

// ---------------------------------------------------------------------------
// Metrics records
// ---------------------------------------------------------------------------

#[derive(Debug, Clone)]
pub struct ComplexityDetails {
    pub if_statements: usize,
    pub match_arms: usize,
    pub loops: usize,
    pub nested_functions: usize,
    pub function_calls: usize,
    pub max_nesting_depth: usize,
    pub function_call_chain: Vec<String>,
    pub macro_invocations: Vec<String>,
    pub module_dependencies: Vec<String>,
    pub unsafe_blocks: usize,
    pub generic_parameters: usize,
}

/// The details agree with the tally; the two unbounded sums saturate.
pub open spec fn details_match(d: ComplexityDetails, t: Tally) -> bool {
    &&& d.if_statements == t.ifs
    &&& d.match_arms == sat(t.arms)
    &&& d.loops == t.loops
    &&& d.nested_functions == t.nested
    &&& d.function_calls == t.calls
    &&& d.max_nesting_depth == t.max_depth
    &&& views(d.function_call_chain@) == t.chain
    &&& views(d.macro_invocations@) == t.macros
    &&& views(d.module_dependencies@) == t.deps
    &&& d.unsafe_blocks == t.unsafe_blocks
    &&& d.generic_parameters == sat(t.generics)
}

#[derive(Debug, Clone)]
pub struct FunctionComplexity {
    pub name: String,
    pub cyclomatic_complexity: usize,
    pub cognitive_complexity: usize,
    pub line_count: usize,
    pub parameter_count: usize,
    pub return_complexity: ComplexityRating,
    pub details: ComplexityDetails,
}

/// The metrics of one function, as the analysis defines them.
pub open spec fn metrics_match(r: FunctionComplexity, f: FunctionSyntax) -> bool {
    let t = tally_of(f.body@, f.generic_params as nat);
    &&& r.name@ == f.name@
    &&& details_match(r.details, t)
    &&& r.cyclomatic_complexity == sat(cyclomatic_of(t))
    &&& r.cognitive_complexity == sat(cognitive_of(t))
    &&& r.line_count == line_count_of(f.start_line as nat, f.end_line as nat)
    &&& r.parameter_count == f.parameter_count
    &&& r.return_complexity == rating_of(sat(cyclomatic_of(t)))
}

// ---------------------------------------------------------------------------
// The walk
// ---------------------------------------------------------------------------

/// The accumulator threaded through the walk of one body.
struct ComplexityVisitor {
    details: ComplexityDetails,
    nesting_depth: usize,
}

impl ComplexityVisitor {
    /// The visitor agrees with the tally, and every counter that an event
    /// raises by one is bounded by the number of events seen.
    spec fn agrees(&self, t: Tally, seen: nat) -> bool {
        &&& details_match(self.details, t)
        &&& self.nesting_depth == t.depth
        &&& t.ifs <= seen
        &&& t.loops <= seen
        &&& t.nested <= seen
        &&& t.calls <= seen
        &&& t.unsafe_blocks <= seen
        &&& t.depth <= seen
        &&& t.max_depth <= seen
    }

    fn new(own_generics: usize) -> (r: ComplexityVisitor)
        ensures
            r.agrees(initial_tally(own_generics as nat), 0),
    {
        let r = ComplexityVisitor {
            details: ComplexityDetails {
                if_statements: 0,
                match_arms: 0,
                loops: 0,
                nested_functions: 0,
                function_calls: 0,
                max_nesting_depth: 0,
                function_call_chain: Vec::new(),
                macro_invocations: Vec::new(),
                module_dependencies: Vec::new(),
                unsafe_blocks: 0,
                generic_parameters: own_generics,
            },
            nesting_depth: 0,
        };
        assert(views(r.details.function_call_chain@) =~= Seq::empty());
        assert(views(r.details.macro_invocations@) =~= Seq::empty());
        assert(views(r.details.module_dependencies@) =~= Seq::empty());
        r
    }

    fn enter_nesting(&mut self)
        requires
            old(self).nesting_depth < usize::MAX,
        ensures
            final(self).nesting_depth == old(self).nesting_depth + 1,
            final(self).details.max_nesting_depth == if old(self).nesting_depth + 1
                > old(self).details.max_nesting_depth {
                old(self).nesting_depth + 1
            } else {
                old(self).details.max_nesting_depth as int
            },
            final(self).details == (ComplexityDetails {
                max_nesting_depth: final(self).details.max_nesting_depth,
                ..old(self).details
            }),
    {
        self.nesting_depth = self.nesting_depth + 1;
        if self.nesting_depth > self.details.max_nesting_depth {
            self.details.max_nesting_depth = self.nesting_depth;
        }
    }

    fn exit_nesting(&mut self)
        ensures
            final(self).nesting_depth == if old(self).nesting_depth > 0 {
                old(self).nesting_depth - 1
            } else {
                0
            },
            final(self).details == old(self).details,
    {
        self.nesting_depth = self.nesting_depth.saturating_sub(1);
    }

    /// Appends the paths of `tree`, under the prefix whose joined text is
    /// `joined`, to the module dependencies.
    fn collect_use_path(
        &mut self,
        tree: &UseTree,
        joined: &String,
        at_root: bool,
        Ghost(prefix): Ghost<Seq<Seq<char>>>,
    )
        requires
            joined@ == join_with(prefix, "::"@),
            at_root == (prefix.len() == 0),
        ensures
            views(final(self).details.module_dependencies@) == views(
                old(self).details.module_dependencies@,
            ) + use_paths(*tree, prefix),
            final(self).details == (ComplexityDetails {
                module_dependencies: final(self).details.module_dependencies,
                ..old(self).details
            }),
            final(self).nesting_depth == old(self).nesting_depth,
        decreases tree,
    {
        match tree {
            UseTree::Path { ident, tree: sub } => {
                let next = extend_path(joined, at_root, ident, Ghost(prefix));
                self.collect_use_path(sub, &next, false, Ghost(prefix.push(ident@)));
            },
            UseTree::Name { ident } | UseTree::Rename { ident, rename: _ } => {
                let full = extend_path(joined, at_root, ident, Ghost(prefix));
                let ghost before = views(self.details.module_dependencies@);
                self.details.module_dependencies.push(full);
                assert(views(self.details.module_dependencies@) =~= before + seq![
                    join_with(prefix.push(ident@), "::"@),
                ]);
            },
            UseTree::Glob => {
                assert(views(self.details.module_dependencies@) =~= views(
                    self.details.module_dependencies@,
                ) + Seq::<Seq<char>>::empty());
            },
            UseTree::Group { items } => {
                let ghost start = views(self.details.module_dependencies@);
                let mut i: usize = 0;
                while i < items.len()
                    invariant
                        i <= items@.len(),
                        joined@ == join_with(prefix, "::"@),
                        at_root == (prefix.len() == 0),
                        *tree == (UseTree::Group { items: *items }),
                        views(self.details.module_dependencies@) == start + group_paths(
                            items@.take(i as int),
                            prefix,
                        ),
                        self.details == (ComplexityDetails {
                            module_dependencies: self.details.module_dependencies,
                            ..old(self).details
                        }),
                        self.nesting_depth == old(self).nesting_depth,
                        start == views(old(self).details.module_dependencies@),
                    decreases items@.len() - i,
                {
                    proof {
                        assert(decreases_to!(*tree => (*tree)->items));
                        assert(decreases_to!(*tree => *items));
                        vstd::std_specs::vec::axiom_vec_index_decreases(*items, i as int);
                        assert(decreases_to!(*items => items[i as int]));
                    }
                    self.collect_use_path(&items[i], joined, at_root, Ghost(prefix));
                    proof {
                        assert(items@.take(i + 1).drop_last() =~= items@.take(i as int));
                    }
                    i = i + 1;
                }
                assert(items@.take(items@.len() as int) =~= items@);
            },
        }
    }

    /// Takes one event of the walk into account.
    fn visit_event(&mut self, e: &BodyEvent, Ghost(t): Ghost<Tally>, Ghost(seen): Ghost<nat>)
        requires
            old(self).agrees(t, seen),
            seen < usize::MAX,
        ensures
            final(self).agrees(step(t, *e), seen + 1),
    {
        match e {
            BodyEvent::If => {
                self.details.if_statements = self.details.if_statements + 1;
                self.enter_nesting();
            },
            BodyEvent::Match { arms } => {
                self.details.match_arms = self.details.match_arms.saturating_add(*arms);
                self.enter_nesting();
            },
            BodyEvent::Loop => {
                self.details.loops = self.details.loops + 1;
                self.enter_nesting();
            },
            BodyEvent::Unsafe => {
                self.details.unsafe_blocks = self.details.unsafe_blocks + 1;
                self.enter_nesting();
            },
            BodyEvent::End => {
                self.exit_nesting();
            },
            BodyEvent::Call { callee } => {
                self.details.function_calls = self.details.function_calls + 1;
                let ghost before = views(self.details.function_call_chain@);
                match callee {
                    Some(name) => {
                        self.details.function_call_chain.push(name.clone());
                        assert(views(self.details.function_call_chain@) =~= before.push(name@));
                    },
                    None => {},
                }
            },
            BodyEvent::Macro { path } => {
                let ghost before = views(self.details.macro_invocations@);
                let name = join_strings(path, "::");
                self.details.macro_invocations.push(name);
                assert(views(self.details.macro_invocations@) =~= before.push(
                    join_with(views(path@), "::"@),
                ));
            },
            BodyEvent::Use { tree } => {
                let root = String::new();
                proof {
                    assert(join_with(Seq::empty(), "::"@) == Seq::<char>::empty());
                }
                self.collect_use_path(tree, &root, true, Ghost(Seq::empty()));
            },
            BodyEvent::NestedFn { generic_params } => {
                self.details.nested_functions = self.details.nested_functions + 1;
                self.details.generic_parameters = self.details.generic_parameters.saturating_add(
                    *generic_params,
                );
            },
        }
    }

    fn calculate_cyclomatic_complexity(&self, Ghost(t): Ghost<Tally>) -> (r: usize)
        requires
            details_match(self.details, t),
        ensures
            r == sat(cyclomatic_of(t)),
    {
        1usize.saturating_add(self.details.if_statements).saturating_add(
            self.details.match_arms,
        ).saturating_add(self.details.loops)
    }

    fn calculate_cognitive_complexity(&self, Ghost(t): Ghost<Tally>) -> (r: usize)
        requires
            details_match(self.details, t),
        ensures
            r == sat(cognitive_of(t)),
    {
        let d = &self.details;
        let base = d.if_statements.saturating_add(d.loops).saturating_add(d.match_arms);
        let nesting_penalty = d.max_nesting_depth.saturating_add(d.max_nesting_depth);
        let unsafe_penalty = d.unsafe_blocks.saturating_add(d.unsafe_blocks).saturating_add(
            d.unsafe_blocks,
        );
        base.saturating_add(nesting_penalty).saturating_add(unsafe_penalty)
    }
}

/// `joined`, extended by one more segment.
fn extend_path(
    joined: &String,
    at_root: bool,
    ident: &String,
    Ghost(prefix): Ghost<Seq<Seq<char>>>,
) -> (r: String)
    requires
        joined@ == join_with(prefix, "::"@),
        at_root == (prefix.len() == 0),
    ensures
        r@ == join_with(prefix.push(ident@), "::"@),
{
    let ghost p = prefix.push(ident@);
    assert(p.drop_last() =~= prefix);
    if at_root {
        ident.clone()
    } else {
        let mut r = joined.clone();
        r.append("::");
        r.append(ident.as_str());
        r
    }
}

pub struct ComplexityAnalyzer;

impl ComplexityAnalyzer {
    /// The metrics of every function of a file, in the order given.
    pub fn analyze_file(functions: &Vec<FunctionSyntax>) -> (r: Vec<FunctionComplexity>)
        ensures
            r@.len() == functions@.len(),
            forall|i: int| 0 <= i < r@.len() ==> metrics_match(#[trigger] r@[i], functions@[i]),
    {
        let mut out: Vec<FunctionComplexity> = Vec::new();
        let mut i: usize = 0;
        while i < functions.len()
            invariant
                i <= functions@.len(),
                out@.len() == i,
                forall|j: int| 0 <= j < i ==> metrics_match(#[trigger] out@[j], functions@[j]),
            decreases functions@.len() - i,
        {
            out.push(Self::analyze_function(&functions[i]));
            i = i + 1;
        }
        out
    }

    /// The metrics of one function.
    pub fn analyze_function(func: &FunctionSyntax) -> (r: FunctionComplexity)
        ensures
            metrics_match(r, *func),
    {
        let mut visitor = ComplexityVisitor::new(func.generic_params);
        let ghost events = func.body@;
        let mut i: usize = 0;
        while i < func.body.len()
            invariant
                i <= events.len(),
                events == func.body@,
                visitor.agrees(tally_of(events.take(i as int), func.generic_params as nat), i as nat),
            decreases events.len() - i,
        {
            let ghost t = tally_of(events.take(i as int), func.generic_params as nat);
            visitor.visit_event(&func.body[i], Ghost(t), Ghost(i as nat));
            proof {
                assert(events.take(i + 1).drop_last() =~= events.take(i as int));
            }
            i = i + 1;
        }
        assert(events.take(events.len() as int) =~= events);
        let ghost t = tally_of(events, func.generic_params as nat);
        let cyclomatic = visitor.calculate_cyclomatic_complexity(Ghost(t));
        let cognitive = visitor.calculate_cognitive_complexity(Ghost(t));
        let line_count = if 0 < func.start_line && func.start_line <= func.end_line {
            func.end_line - func.start_line + 1
        } else {
            0
        };
        FunctionComplexity {
            name: func.name.clone(),
            cyclomatic_complexity: cyclomatic,
            cognitive_complexity: cognitive,
            line_count,
            parameter_count: func.parameter_count,
            return_complexity: ComplexityRating::from_score(cyclomatic),
            details: visitor.details,
        }
    }
}

} // verus!
