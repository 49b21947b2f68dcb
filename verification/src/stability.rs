//! Stability classification of captured bindings.
//!
//! A captured binding is *stable* when its identity cannot change across
//! re-invocations of the component, so reading it never goes stale and it
//! need not be declared as a dependency. Everything not recognized as stable
//! is treated as reactive: under-declaring a dependency is the bug this
//! analysis exists to catch, so the unknown case fails toward reporting.
use vstd::prelude::*;

use crate::ast::Declaration;
use crate::ast::DeclarationKind;
use crate::ast::Expr;
use crate::ast::Pattern;
use crate::ast::PatternElement;
use crate::chain::analyze_property_chain;
use crate::chain::chain_of;
use crate::hooks::string_eq_lit;

verus! {

/// Every chain an expression canonicalizes to holds at least one name.
pub proof fn lemma_chain_of_nonempty(e: Expr)
    ensures
        match chain_of(e) {
            Some(c) => c.len() >= 1,
            None => true,
        },
    decreases e,
{
    match e {
        Expr::Member { object, .. } => lemma_chain_of_nonempty(*object),
        _ => {},
    }
}

/// The unqualified name under which an initializer's callee was resolved:
/// the last name of the callee's canonical chain, so that a namespace
/// qualifier such as `React.` is ignored.
pub open spec fn resolved_callee_name(callee: Expr) -> Option<Seq<char>> {
    match chain_of(callee) {
        Some(c) => Some(c.last()),
        None => None,
    }
}

/// Whether `init` is a call to a state hook, `useState` or `useReducer`,
/// under any namespace qualifier.
pub open spec fn is_state_hook_call(init: Expr) -> bool {
    match init {
        Expr::Call { callee, .. } => match resolved_callee_name(*callee) {
            Some(h) => h == "useState"@ || h == "useReducer"@,
            None => false,
        },
        _ => false,
    }
}

/// Whether the binding named `name` is the second element of the
/// array-destructuring pattern `pattern`.
pub open spec fn is_second_destructured_name(pattern: Pattern, name: Seq<char>) -> bool {
    match pattern {
        Pattern::Array(elems) => elems@.len() >= 2 && match elems@[1] {
            PatternElement::Name(n) => n@ == name,
            _ => false,
        },
        _ => false,
    }
}

/// Whether a declaration destructures the result of a state hook: an
/// array-destructuring pattern whose initializer calls `useState` or
/// `useReducer`.
pub open spec fn is_state_destructuring(pattern: Pattern, init: Option<Box<Expr>>) -> bool {
    &&& pattern is Array
    &&& match init {
        Some(init_expr) => is_state_hook_call(*init_expr),
        None => false,
    }
}

/// Whether the declaration `decl` makes the binding named `name` stable.
///
/// The bindings of a state-hook destructuring follow the hook's semantics
/// whatever the declaration's own mutability: the second element — the
/// updater or dispatch function — has a fixed identity and is stable, while
/// every other element is the state value, which changes across
/// re-invocations and is never stable, even under `const`. Outside a
/// state-hook destructuring, an immutable (`const`-equivalent) declaration
/// is stable. A function parameter is never stable, and every other shape
/// defaults to not stable.
pub open spec fn stable_value(decl: Declaration, name: Seq<char>) -> bool {
    match decl {
        Declaration::Variable { kind, pattern, init } => {
            if is_state_destructuring(pattern, init) {
                is_second_destructured_name(pattern, name)
            } else {
                kind == DeclarationKind::Const
            }
        },
        Declaration::Parameter => false,
        Declaration::Unsupported => false,
    }
}

/// Classifies the binding named `name`, declared by `decl`, as stable or
/// not. Mirrors [`stable_value`].
pub fn is_stable_value(decl: &Declaration, name: &String) -> (r: bool)
    ensures
        r == stable_value(*decl, name@),
{
    match decl {
        Declaration::Variable { kind, pattern, init } => {
            let state_hook_init: bool = match init {
                Some(init_expr) => match &**init_expr {
                    Expr::Call { callee, .. } => match analyze_property_chain(callee) {
                        Some(ch) => {
                            proof {
                                lemma_chain_of_nonempty(**callee);
                            }
                            let last = &ch.parts[ch.parts.len() - 1];
                            string_eq_lit(last, "useState") || string_eq_lit(last, "useReducer")
                        },
                        None => false,
                    },
                    _ => false,
                },
                None => false,
            };
            if state_hook_init && matches!(pattern, Pattern::Array(_)) {
                match pattern {
                    Pattern::Array(elems) => {
                        if elems.len() >= 2 {
                            match &elems[1] {
                                PatternElement::Name(n) => string_eq_lit(n, name.as_str()),
                                _ => false,
                            }
                        } else {
                            false
                        }
                    },
                    _ => false,
                }
            } else {
                matches!(kind, DeclarationKind::Const)
            }
        },
        Declaration::Parameter => false,
        Declaration::Unsupported => false,
    }
}

} // verus!
