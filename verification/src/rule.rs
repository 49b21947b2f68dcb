//! The missing-dependency rule: matching, parsing, diffing, reporting.
//!
//! For a recognized hook call with a function-literal callback and an
//! array-literal dependency list, the rule compares the chains the callback
//! body reads against the chains the list declares and reports one
//! diagnostic per uncovered read. A chain is covered when it is declared
//! exactly or when one of its ancestor chains is declared. A call whose
//! callee is no recognized hook, whose callback is not a function literal,
//! whose dependency list is absent — the callback then runs on every render
//! and nothing can go stale — or whose second argument is not an array
//! literal is not validated and yields no diagnostics.
use vstd::prelude::*;

use crate::ast::Argument;
use crate::ast::ArrayElement;
use crate::ast::CallExpression;
use crate::ast::Diagnostic;
use crate::ast::Expr;
use crate::ast::Stmt;
use crate::chain::Chain;
use crate::chain::analyze_property_chain;
use crate::chain::chain_eq;
use crate::chain::chain_is_proper_prefix;
use crate::chain::chain_of;
use crate::chain::dot_join;
use crate::chain::proper_prefix_of;
use crate::chain::to_dotted;
use crate::collect::chains_set;
use crate::collect::check_statements;
use crate::collect::lemma_chains_set_member;
use crate::collect::lemma_chains_set_push;
use crate::collect::stmts_found;
use crate::hooks::called_hook_name;
use crate::hooks::func_call_without_react_namespace;
use crate::hooks::is_hook_name;
use crate::hooks::is_recognized_hook;

verus! {

/// The chains an array-literal dependency list declares: each element that
/// canonicalizes to a chain contributes it; holes, spreads and elements
/// without a chain contribute nothing.
pub open spec fn declared_of_elements(elems: Seq<ArrayElement>) -> Set<Seq<Seq<char>>>
    decreases elems,
{
    if elems.len() == 0 {
        Set::empty()
    } else {
        declared_of_elements(elems.drop_last()).union(
            match elems.last() {
                ArrayElement::Expression(e) => match chain_of(e) {
                    Some(c) => set![c],
                    None => Set::empty(),
                },
                _ => Set::empty(),
            },
        )
    }
}

/// The recognized hook a call site invokes, if any.
pub open spec fn matched_hook(call: CallExpression) -> Option<Seq<char>> {
    match called_hook_name(call.callee) {
        Some(n) => if is_hook_name(n) {
            Some(n)
        } else {
            None
        },
        None => None,
    }
}

/// The statements of the call's callback body, when the first argument is a
/// function literal.
pub open spec fn callback_body(call: CallExpression) -> Option<Seq<Stmt>> {
    if call.arguments@.len() >= 1 {
        match call.arguments@[0] {
            Argument::Expression(e) => match e {
                Expr::ArrowFunction { body } => Some(body@),
                _ => None,
            },
            _ => None,
        }
    } else {
        None
    }
}

/// The elements of the call's dependency list, when the second argument is
/// an array literal.
pub open spec fn declared_list(call: CallExpression) -> Option<Seq<ArrayElement>> {
    if call.arguments@.len() >= 2 {
        match call.arguments@[1] {
            Argument::Expression(e) => match e {
                Expr::ArrayLiteral { elements } => Some(elements@),
                _ => None,
            },
            _ => None,
        }
    } else {
        None
    }
}

/// Whether the rule validates this call site at all.
pub open spec fn validates(call: CallExpression) -> bool {
    &&& matched_hook(call) is Some
    &&& callback_body(call) is Some
    &&& declared_list(call) is Some
}

/// Whether the declared set covers a found chain: the chain itself or one of
/// its ancestor chains is declared.
pub open spec fn covered(c: Seq<Seq<char>>, declared: Set<Seq<Seq<char>>>) -> bool {
    ||| declared.contains(c)
    ||| exists|p: Seq<Seq<char>>| declared.contains(p) && proper_prefix_of(p, c)
}

/// The found chains the declared set leaves uncovered.
pub open spec fn missing_set(
    found: Set<Seq<Seq<char>>>,
    declared: Set<Seq<Seq<char>>>,
) -> Set<Seq<Seq<char>>> {
    Set::new(|c: Seq<Seq<char>>| found.contains(c) && !covered(c, declared))
}

/// What [`analyze`] reports for a call site. A call the rule does not
/// validate yields nothing. A validated call yields exactly one diagnostic
/// per uncovered chain: every diagnostic names the matched hook, carries the
/// call's location and renders some uncovered chain, every uncovered chain
/// is rendered by some diagnostic, and the number of diagnostics equals the
/// number of uncovered chains.
pub open spec fn reports(call: CallExpression, out: Seq<Diagnostic>) -> bool {
    match (matched_hook(call), callback_body(call), declared_list(call)) {
        (Some(hook), Some(body), Some(elems)) => {
            let missing = missing_set(stmts_found(body), declared_of_elements(elems));
            &&& forall|i: int|
                0 <= i < out.len() ==> {
                    &&& (#[trigger] out[i]).hook_name@ == hook
                    &&& out[i].location == call.span
                    &&& exists|c: Seq<Seq<char>>|
                        missing.contains(c) && out[i].missing_chain@ == dot_join(c)
                }
            &&& forall|c: Seq<Seq<char>>|
                #[trigger] missing.contains(c) ==> exists|i: int|
                    0 <= i < out.len() && out[i].missing_chain@ == dot_join(c)
            &&& missing.finite()
            &&& out.len() == missing.len()
        },
        _ => out.len() == 0,
    }
}

/// Parses a dependency-array's elements into the declared chains. Mirrors
/// [`declared_of_elements`].
#[verifier::loop_isolation(false)]
pub fn collect_dependencies(elements: &Vec<ArrayElement>) -> (r: Vec<Chain>)
    ensures
        chains_set(r@) == declared_of_elements(elements@),
{
    let mut result: Vec<Chain> = Vec::new();
    proof {
        assert(chains_set(result@) =~= declared_of_elements(elements@.subrange(0, 0)));
    }
    let mut i: usize = 0;
    while i < elements.len()
        invariant
            i <= elements@.len(),
            chains_set(result@) == declared_of_elements(elements@.subrange(0, i as int)),
        decreases elements@.len() - i,
    {
        match &elements[i] {
            ArrayElement::Expression(e) => match analyze_property_chain(e) {
                Some(c) => {
                    proof {
                        lemma_chains_set_push(result@, c);
                    }
                    result.push(c);
                    proof {
                        assert(elements@.subrange(0, i + 1 as int).drop_last() =~= elements@
                            .subrange(0, i as int));
                        assert(chains_set(result@) =~= declared_of_elements(
                            elements@.subrange(0, i + 1 as int),
                        ));
                    }
                },
                None => {
                    proof {
                        assert(elements@.subrange(0, i + 1 as int).drop_last() =~= elements@
                            .subrange(0, i as int));
                        assert(chains_set(result@) =~= declared_of_elements(
                            elements@.subrange(0, i + 1 as int),
                        ));
                    }
                },
            },
            _ => {
                proof {
                    assert(elements@.subrange(0, i + 1 as int).drop_last() =~= elements@.subrange(
                        0,
                        i as int,
                    ));
                    assert(chains_set(result@) =~= declared_of_elements(
                        elements@.subrange(0, i + 1 as int),
                    ));
                }
            },
        }
        i += 1;
    }
    proof {
        assert(elements@.subrange(0, elements@.len() as int) =~= elements@);
    }
    result
}

/// Whether the declared list covers `c`, exactly or through an ancestor
/// chain. Mirrors [`covered`].
#[verifier::loop_isolation(false)]
fn is_covered(c: &Chain, declared: &Vec<Chain>) -> (r: bool)
    ensures
        r == covered(c@, chains_set(declared@)),
{
    let mut i: usize = 0;
    while i < declared.len()
        invariant
            i <= declared@.len(),
            forall|j: int|
                0 <= j < i ==> (#[trigger] declared@[j]@) != c@ && !proper_prefix_of(
                    declared@[j]@,
                    c@,
                ),
        decreases declared@.len() - i,
    {
        if chain_eq(&declared[i], c) {
            proof {
                lemma_chains_set_member(declared@, i as int);
            }
            return true;
        }
        if chain_is_proper_prefix(&declared[i], c) {
            proof {
                lemma_chains_set_member(declared@, i as int);
                let w = declared@[i as int]@;
                assert(chains_set(declared@).contains(w) && proper_prefix_of(w, c@));
            }
            return true;
        }
        i += 1;
    }
    proof {
        if chains_set(declared@).contains(c@) {
            let j = choose|j: int| 0 <= j < declared@.len() && declared@[j]@ == c@;
            assert(declared@[j]@ != c@);
        }
        assert forall|p: Seq<Seq<char>>|
            !(chains_set(declared@).contains(p) && proper_prefix_of(p, c@)) by {
            if chains_set(declared@).contains(p) {
                let j = choose|j: int| 0 <= j < declared@.len() && declared@[j]@ == p;
                assert(!proper_prefix_of(declared@[j]@, c@));
            }
        };
    }
    false
}

/// Analyzes one call expression and returns the rule's diagnostics for it,
/// as [`reports`] states. A call site the rule takes up at all is one that
/// [`validates`]; every other call site yields no diagnostics.
#[verifier::loop_isolation(false)]
pub fn analyze(call: &CallExpression) -> (r: Vec<Diagnostic>)
    ensures
        reports(*call, r@),
{
    let mut result: Vec<Diagnostic> = Vec::new();
    let hook = match func_call_without_react_namespace(&call.callee) {
        Some(h) => h,
        None => {
            return result;
        },
    };
    if !is_recognized_hook(&hook) {
        return result;
    }
    if call.arguments.len() < 1 {
        return result;
    }
    let body = match &call.arguments[0] {
        Argument::Expression(Expr::ArrowFunction { body }) => body,
        _ => {
            return result;
        },
    };
    if call.arguments.len() < 2 {
        return result;
    }
    let elements = match &call.arguments[1] {
        Argument::Expression(Expr::ArrayLiteral { elements }) => elements,
        _ => {
            return result;
        },
    };
    let declared = collect_dependencies(elements);
    let mut found: Vec<Chain> = Vec::new();
    proof {
        assert(chains_set(found@) =~= Set::<Seq<Seq<char>>>::empty());
    }
    check_statements(body, &mut found);
    let ghost found_set = chains_set(found@);
    let ghost declared_set = chains_set(declared@);
    let ghost missing = missing_set(found_set, declared_set);
    proof {
        assert(found_set =~= Set::<Seq<Seq<char>>>::empty().union(stmts_found(body@)));
        assert(found_set == stmts_found(body@));
    }
    let ghost mut done: Set<Seq<Seq<char>>> = Set::empty();
    let mut i: usize = 0;
    while i < found.len()
        invariant
            i <= found@.len(),
            done.finite(),
            result@.len() == done.len(),
            forall|cx: Seq<Seq<char>>| #[trigger]
                done.contains(cx) ==> missing.contains(cx) && exists|j: int|
                    0 <= j < i && found@[j]@ == cx,
            forall|j: int|
                0 <= j < i && missing.contains(#[trigger] found@[j]@) ==> done.contains(
                    found@[j]@,
                ),
            forall|k: int|
                0 <= k < result@.len() ==> {
                    &&& (#[trigger] result@[k]).hook_name@ == hook@
                    &&& result@[k].location == call.span
                    &&& exists|cx: Seq<Seq<char>>|
                        missing.contains(cx) && result@[k].missing_chain@ == dot_join(cx)
                },
            forall|cx: Seq<Seq<char>>| #[trigger]
                done.contains(cx) ==> exists|k: int|
                    0 <= k < result@.len() && result@[k].missing_chain@ == dot_join(cx),
        decreases found@.len() - i,
    {
        let c = &found[i];
        let ghost cv = found@[i as int]@;
        if !is_covered(c, &declared) {
            proof {
                lemma_chains_set_member(found@, i as int);
                assert(missing.contains(cv));
                if done.contains(cv) {
                    let j = choose|j: int| 0 <= j < i && found@[j]@ == cv;
                    assert(found@[j]@ != found@[i as int]@);
                }
                assert(!done.contains(cv));
            }
            let rendered = to_dotted(c);
            let ghost res0 = result@;
            let entry = Diagnostic { hook_name: hook.clone(), missing_chain: rendered, location: call.span };
            result.push(entry);
            proof {
                done = done.insert(cv);
                assert(result@[res0.len() as int].missing_chain@ == dot_join(cv));
                assert forall|cx: Seq<Seq<char>>| #[trigger] done.contains(cx) implies exists|
                    k: int,
                |
                    0 <= k < result@.len() && result@[k].missing_chain@ == dot_join(cx) by {
                    if cx == cv {
                        let k0 = res0.len() as int;
                        assert(0 <= k0 < result@.len() && result@[k0].missing_chain@ == dot_join(
                            cx,
                        ));
                    } else {
                        let k = choose|k: int|
                            0 <= k < res0.len() && res0[k].missing_chain@ == dot_join(cx);
                        assert(result@[k] == res0[k]);
                        assert(0 <= k < result@.len() && result@[k].missing_chain@ == dot_join(
                            cx,
                        ));
                    }
                };
                assert forall|cx: Seq<Seq<char>>| #[trigger] done.contains(cx) implies missing
                    .contains(cx) && exists|j: int| 0 <= j < i + 1 && found@[j]@ == cx by {
                    if cx == cv {
                        assert(found@[i as int]@ == cx);
                    } else {
                        let j = choose|j: int| 0 <= j < i && found@[j]@ == cx;
                        assert(0 <= j < i + 1 && found@[j]@ == cx);
                    }
                };
                let k0 = result@.len() - 1;
                assert(result@[k0].missing_chain@ == dot_join(cv));
                assert(missing.contains(cv) && result@[k0].missing_chain@ == dot_join(cv));
            }
        } else {
            proof {
                lemma_chains_set_member(found@, i as int);
                assert(!missing.contains(cv));
            }
        }
        i += 1;
    }
    proof {
        assert forall|cx: Seq<Seq<char>>| #[trigger] missing.contains(cx) implies done.contains(
            cx,
        ) by {
            assert(found_set.contains(cx));
            let j = choose|j: int| 0 <= j < found@.len() && found@[j]@ == cx;
            assert(missing.contains(found@[j]@));
        };
        assert(done =~= missing);
        assert forall|cx: Seq<Seq<char>>| #[trigger] missing.contains(cx) implies exists|k: int|
            0 <= k < result@.len() && result@[k].missing_chain@ == dot_join(cx) by {
            assert(done.contains(cx));
        };
    }
    result
}

/// The exhaustive-dependencies rule. Its whole behaviour is [`analyze`],
/// exposed as a method so a host can hold the rule as a value.
#[derive(Debug, Default, Clone)]
pub struct ExhaustiveDeps;

impl ExhaustiveDeps {
    /// Runs the rule on one call expression, returning its diagnostics.
    pub fn run(&self, call: &CallExpression) -> (r: Vec<Diagnostic>)
        ensures
            reports(*call, r@),
    {
        analyze(call)
    }
}

} // verus!
