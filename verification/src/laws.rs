//! Laws of the analysis, stated and proved over its specification.
//!
//! Each law here is a property the rule guarantees for every input, proved
//! from the specification functions the executable contracts use.
use vstd::prelude::*;

use crate::ast::CallExpression;
use crate::ast::Declaration;
use crate::ast::DeclarationKind;
use crate::ast::Diagnostic;
use crate::ast::Expr;
use crate::ast::Pattern;
use crate::ast::Stmt;
use crate::chain::chain_of;
use crate::chain::proper_prefix_of;
use crate::collect::args_found;
use crate::collect::chain_root;
use crate::collect::elems_found;
use crate::collect::expr_found;
use crate::collect::exprs_found;
use crate::collect::is_dependency;
use crate::collect::root_is_dependency;
use crate::collect::stmt_found;
use crate::collect::stmts_found;
use crate::chain::dot_join;
use crate::rule::callback_body;
use crate::rule::covered;
use crate::rule::declared_list;
use crate::rule::declared_of_elements;
use crate::rule::matched_hook;
use crate::rule::missing_set;
use crate::rule::reports;
use crate::stability::is_second_destructured_name;
use crate::stability::is_state_hook_call;
use crate::stability::stable_value;
use crate::ast::Argument;
use crate::ast::ArrayElement;

verus! {

/// Exact-match law: when the found chains equal the declared chains, no
/// chain is missing, so a validated hook call yields zero diagnostics.
pub proof fn lemma_exact_match(found: Set<Seq<Seq<char>>>, declared: Set<Seq<Seq<char>>>)
    requires
        found == declared,
    ensures
        missing_set(found, declared) == Set::<Seq<Seq<char>>>::empty(),
{
    assert(missing_set(found, declared) =~= Set::<Seq<Seq<char>>>::empty());
}

/// Prefix-coverage law: when every found chain is covered — declared
/// exactly, or under a declared ancestor chain — nothing is missing.
pub proof fn lemma_prefix_coverage(found: Set<Seq<Seq<char>>>, declared: Set<Seq<Seq<char>>>)
    requires
        forall|c: Seq<Seq<char>>| #[trigger] found.contains(c) ==> covered(c, declared),
    ensures
        missing_set(found, declared) == Set::<Seq<Seq<char>>>::empty(),
{
    assert(missing_set(found, declared) =~= Set::<Seq<Seq<char>>>::empty());
}

/// Omission law: starting from an exactly declared call and removing one
/// chain `c` whose ancestors are not otherwise declared leaves exactly `c`
/// missing — the rule then reports exactly one diagnostic, naming `c`.
pub proof fn lemma_omission(
    found: Set<Seq<Seq<char>>>,
    declared: Set<Seq<Seq<char>>>,
    c: Seq<Seq<char>>,
)
    requires
        found == declared,
        declared.contains(c),
        forall|p: Seq<Seq<char>>|
            #[trigger] declared.remove(c).contains(p) ==> !proper_prefix_of(p, c),
    ensures
        missing_set(found, declared.remove(c)) == set![c],
        missing_set(found, declared.remove(c)).len() == 1,
{
    let d2 = declared.remove(c);
    assert(!covered(c, d2)) by {
        if covered(c, d2) {
            if !d2.contains(c) {
                let p = choose|p: Seq<Seq<char>>| d2.contains(p) && proper_prefix_of(p, c);
                assert(!proper_prefix_of(p, c));
            }
        }
    };
    assert(missing_set(found, d2) =~= set![c]);
}

/// Optional-access equivalence law: an optional property access and a plain
/// property access canonicalize to the same chain, so reading one and
/// declaring the other match exactly.
pub proof fn lemma_optional_access_equivalence(object: Box<Expr>, property: String)
    ensures
        chain_of(Expr::Member { object, property, optional: true }) == chain_of(
            Expr::Member { object, property, optional: false },
        ),
{
}

/// Stable-setter law: the second binding of an array destructuring whose
/// initializer calls a state hook is stable whatever the declaration's own
/// mutability, so a callback may call it undeclared.
pub proof fn lemma_stable_setter(
    kind: DeclarationKind,
    pattern: Pattern,
    init: Box<Expr>,
    name: Seq<char>,
)
    requires
        is_second_destructured_name(pattern, name),
        is_state_hook_call(*init),
    ensures
        stable_value(Declaration::Variable { kind, pattern, init: Some(init) }, name),
{
}

/// Stable-setter law, state half: a binding of a state-hook destructuring
/// that is not the setter element — the state value — is never stable,
/// whatever the declaration's kind: its identity changes across
/// re-invocations, so an undeclared read of it is reported.
pub proof fn lemma_state_value_reactive(
    kind: DeclarationKind,
    pattern: Pattern,
    init: Box<Expr>,
    name: Seq<char>,
)
    requires
        pattern is Array,
        is_state_hook_call(*init),
        !is_second_destructured_name(pattern, name),
    ensures
        !stable_value(Declaration::Variable { kind, pattern, init: Some(init) }, name),
{
}

/// Exact-match law at the rule's interface: a validated hook call whose
/// found chains equal its declared chains is reported clean.
pub proof fn lemma_reports_exact_match(
    call: CallExpression,
    out: Seq<Diagnostic>,
    body: Seq<Stmt>,
    elems: Seq<ArrayElement>,
)
    requires
        reports(call, out),
        matched_hook(call) is Some,
        callback_body(call) == Some(body),
        declared_list(call) == Some(elems),
        stmts_found(body) == declared_of_elements(elems),
    ensures
        out.len() == 0,
{
    lemma_exact_match(stmts_found(body), declared_of_elements(elems));
    assert(Set::<Seq<Seq<char>>>::empty().len() == 0);
}

/// Prefix-coverage law at the rule's interface: a validated hook call whose
/// every found chain is covered by the declared list is reported clean.
pub proof fn lemma_reports_prefix_coverage(
    call: CallExpression,
    out: Seq<Diagnostic>,
    body: Seq<Stmt>,
    elems: Seq<ArrayElement>,
)
    requires
        reports(call, out),
        matched_hook(call) is Some,
        callback_body(call) == Some(body),
        declared_list(call) == Some(elems),
        forall|c: Seq<Seq<char>>|
            #[trigger] stmts_found(body).contains(c) ==> covered(c, declared_of_elements(elems)),
    ensures
        out.len() == 0,
{
    lemma_prefix_coverage(stmts_found(body), declared_of_elements(elems));
    assert(Set::<Seq<Seq<char>>>::empty().len() == 0);
}

/// Omission law at the rule's interface: when exactly the chain `c` is left
/// uncovered, exactly one diagnostic is reported, and it names `c`.
pub proof fn lemma_reports_single_omission(
    call: CallExpression,
    out: Seq<Diagnostic>,
    body: Seq<Stmt>,
    elems: Seq<ArrayElement>,
    c: Seq<Seq<char>>,
)
    requires
        reports(call, out),
        matched_hook(call) is Some,
        callback_body(call) == Some(body),
        declared_list(call) == Some(elems),
        missing_set(stmts_found(body), declared_of_elements(elems)) == set![c],
    ensures
        out.len() == 1,
        out[0].missing_chain@ == dot_join(c),
{
    let missing = missing_set(stmts_found(body), declared_of_elements(elems));
    assert(missing.contains(c));
    assert(!Set::<Seq<Seq<char>>>::empty().contains(c));
    assert(Set::<Seq<Seq<char>>>::empty().len() == 0);
    assert(missing.len() == 1);
    let i = choose|i: int| 0 <= i < out.len() && out[i].missing_chain@ == dot_join(c);
    assert(out[0].missing_chain@ == dot_join(c));
}

/// The root identifier of an analyzable chain carries the chain's first
/// name.
proof fn lemma_chain_root_name(e: Expr)
    ensures
        match (chain_of(e), chain_root(e)) {
            (Some(c), Some(root)) => c.len() >= 1 && (root matches Expr::Identifier {
                name,
                ..
            } && c[0] == name@),
            (None, None) => true,
            _ => false,
        },
    decreases e,
{
    match e {
        Expr::Member { object, .. } => lemma_chain_root_name(*object),
        _ => {},
    }
}

/// Every identifier reference named `n` that the collector can reach in `e`
/// is no dependency candidate — as when `n` is declared inside the callback
/// body itself, so that its uses resolve to the local declaration.
pub open spec fn no_capturing_use(e: Expr, n: Seq<char>) -> bool
    decreases e,
{
    match e {
        Expr::Identifier { name, resolution } => name@ == n ==> !is_dependency(
            name@,
            resolution,
        ),
        Expr::Member { object, .. } => no_capturing_use(*object, n),
        Expr::Call { callee, arguments } => no_capturing_use(*callee, n) && args_no_capturing(
            arguments@,
            n,
        ),
        Expr::ArrayLiteral { elements } => elems_no_capturing(elements@, n),
        Expr::ArrowFunction { .. } => true,
        Expr::Unsupported => true,
    }
}

/// [`no_capturing_use`] across a sequence of call arguments.
pub open spec fn args_no_capturing(args: Seq<Argument>, n: Seq<char>) -> bool
    decreases args,
{
    if args.len() == 0 {
        true
    } else {
        args_no_capturing(args.drop_last(), n) && match args.last() {
            Argument::Expression(e) => no_capturing_use(e, n),
            Argument::Spread => true,
        }
    }
}

/// [`no_capturing_use`] across the elements of an array literal.
pub open spec fn elems_no_capturing(elems: Seq<ArrayElement>, n: Seq<char>) -> bool
    decreases elems,
{
    if elems.len() == 0 {
        true
    } else {
        elems_no_capturing(elems.drop_last(), n) && match elems.last() {
            ArrayElement::Expression(e) => no_capturing_use(e, n),
            _ => true,
        }
    }
}

/// [`no_capturing_use`] across a sequence of expressions, as the
/// initializers of one declaration statement.
pub open spec fn exprs_no_capturing(exprs: Seq<Expr>, n: Seq<char>) -> bool
    decreases exprs,
{
    if exprs.len() == 0 {
        true
    } else {
        exprs_no_capturing(exprs.drop_last(), n) && no_capturing_use(exprs.last(), n)
    }
}

/// [`no_capturing_use`] across one statement.
pub open spec fn stmt_no_capturing(s: Stmt, n: Seq<char>) -> bool
    decreases s,
{
    match s {
        Stmt::Expression(e) => no_capturing_use(e, n),
        Stmt::Return(arg) => match arg {
            Some(e) => no_capturing_use(e, n),
            None => true,
        },
        Stmt::Declaration(inits) => exprs_no_capturing(inits@, n),
        Stmt::If { condition, consequent, alternate } => no_capturing_use(condition, n)
            && stmts_no_capturing(consequent@, n) && stmts_no_capturing(alternate@, n),
        Stmt::Block(stmts) => stmts_no_capturing(stmts@, n),
        Stmt::Unsupported => true,
    }
}

/// [`no_capturing_use`] across the statements of a callback body.
pub open spec fn stmts_no_capturing(body: Seq<Stmt>, n: Seq<char>) -> bool
    decreases body,
{
    if body.len() == 0 {
        true
    } else {
        stmts_no_capturing(body.drop_last(), n) && stmt_no_capturing(body.last(), n)
    }
}

/// A chain root that is a dependency candidate cannot be named `n` when no
/// use of `n` in the expression is capturing.
proof fn lemma_root_not_shadowed(e: Expr, n: Seq<char>)
    requires
        no_capturing_use(e, n),
        root_is_dependency(e),
    ensures
        match chain_root(e) {
            Some(root) => root matches Expr::Identifier { name, .. } && name@ != n,
            None => false,
        },
    decreases e,
{
    match e {
        Expr::Member { object, .. } => lemma_root_not_shadowed(*object, n),
        _ => {},
    }
}

/// No chain found in `e` is rooted at `n` when no use of `n` in `e` is
/// capturing; and every found chain holds at least one name.
proof fn lemma_expr_shadow(e: Expr, n: Seq<char>)
    requires
        no_capturing_use(e, n),
    ensures
        forall|c: Seq<Seq<char>>|
            #[trigger] expr_found(e).contains(c) ==> c.len() >= 1 && c[0] != n,
    decreases e,
{
    match e {
        Expr::Identifier { name, resolution } => {
            assert forall|c: Seq<Seq<char>>| #[trigger] expr_found(e).contains(c) implies c.len()
                >= 1 && c[0] != n by {
                assert(is_dependency(name@, resolution));
                assert(c == seq![name@]);
            }
        },
        Expr::Member { object, .. } => {
            match chain_of(e) {
                Some(ch) => {
                    if root_is_dependency(e) {
                        lemma_chain_root_name(e);
                        lemma_root_not_shadowed(e, n);
                        assert forall|c: Seq<Seq<char>>| #[trigger] expr_found(e).contains(
                            c,
                        ) implies c.len() >= 1 && c[0] != n by {
                            assert(c == ch);
                        }
                    } else {
                        assert forall|c: Seq<Seq<char>>| #[trigger] expr_found(e).contains(
                            c,
                        ) implies c.len() >= 1 && c[0] != n by {
                            assert(expr_found(e) =~= Set::<Seq<Seq<char>>>::empty());
                        }
                    }
                },
                None => {
                    lemma_expr_shadow(*object, n);
                    assert forall|c: Seq<Seq<char>>| #[trigger] expr_found(e).contains(c) implies c
                        .len() >= 1 && c[0] != n by {
                        assert(expr_found(*object).contains(c));
                    }
                },
            }
        },
        Expr::Call { callee, arguments } => {
            lemma_expr_shadow(*callee, n);
            lemma_args_shadow(arguments@, n);
            assert forall|c: Seq<Seq<char>>| #[trigger] expr_found(e).contains(c) implies c.len()
                >= 1 && c[0] != n by {
                assert(expr_found(*callee).contains(c) || args_found(arguments@).contains(c));
            }
        },
        Expr::ArrayLiteral { elements } => {
            lemma_elems_shadow(elements@, n);
            assert forall|c: Seq<Seq<char>>| #[trigger] expr_found(e).contains(c) implies c.len()
                >= 1 && c[0] != n by {
                assert(elems_found(elements@).contains(c));
            }
        },
        Expr::ArrowFunction { .. } => {
            assert forall|c: Seq<Seq<char>>| #[trigger] expr_found(e).contains(c) implies c.len()
                >= 1 && c[0] != n by {
                assert(expr_found(e) =~= Set::<Seq<Seq<char>>>::empty());
            }
        },
        Expr::Unsupported => {
            assert forall|c: Seq<Seq<char>>| #[trigger] expr_found(e).contains(c) implies c.len()
                >= 1 && c[0] != n by {
                assert(expr_found(e) =~= Set::<Seq<Seq<char>>>::empty());
            }
        },
    }
}

/// [`lemma_expr_shadow`] across a sequence of call arguments.
proof fn lemma_args_shadow(args: Seq<Argument>, n: Seq<char>)
    requires
        args_no_capturing(args, n),
    ensures
        forall|c: Seq<Seq<char>>|
            #[trigger] args_found(args).contains(c) ==> c.len() >= 1 && c[0] != n,
    decreases args,
{
    if args.len() == 0 {
        assert forall|c: Seq<Seq<char>>| #[trigger] args_found(args).contains(c) implies c.len()
            >= 1 && c[0] != n by {
            assert(args_found(args) =~= Set::<Seq<Seq<char>>>::empty());
        }
    } else {
        lemma_args_shadow(args.drop_last(), n);
        match args.last() {
            Argument::Expression(e) => lemma_expr_shadow(e, n),
            Argument::Spread => {},
        }
        assert forall|c: Seq<Seq<char>>| #[trigger] args_found(args).contains(c) implies c.len()
            >= 1 && c[0] != n by {
            assert(args_found(args.drop_last()).contains(c) || (match args.last() {
                Argument::Expression(ex) => expr_found(ex).contains(c),
                Argument::Spread => false,
            }));
        }
    }
}

/// [`lemma_expr_shadow`] across the elements of an array literal.
proof fn lemma_elems_shadow(elems: Seq<ArrayElement>, n: Seq<char>)
    requires
        elems_no_capturing(elems, n),
    ensures
        forall|c: Seq<Seq<char>>|
            #[trigger] elems_found(elems).contains(c) ==> c.len() >= 1 && c[0] != n,
    decreases elems,
{
    if elems.len() == 0 {
        assert forall|c: Seq<Seq<char>>| #[trigger] elems_found(elems).contains(c) implies c.len()
            >= 1 && c[0] != n by {
            assert(elems_found(elems) =~= Set::<Seq<Seq<char>>>::empty());
        }
    } else {
        lemma_elems_shadow(elems.drop_last(), n);
        match elems.last() {
            ArrayElement::Expression(e) => lemma_expr_shadow(e, n),
            _ => {},
        }
        assert forall|c: Seq<Seq<char>>| #[trigger] elems_found(elems).contains(c) implies c.len()
            >= 1 && c[0] != n by {
            assert(elems_found(elems.drop_last()).contains(c) || (match elems.last() {
                ArrayElement::Expression(ex) => expr_found(ex).contains(c),
                _ => false,
            }));
        }
    }
}

/// [`lemma_expr_shadow`] across a sequence of expressions.
proof fn lemma_exprs_shadow(exprs: Seq<Expr>, n: Seq<char>)
    requires
        exprs_no_capturing(exprs, n),
    ensures
        forall|c: Seq<Seq<char>>|
            #[trigger] exprs_found(exprs).contains(c) ==> c.len() >= 1 && c[0] != n,
    decreases exprs,
{
    if exprs.len() == 0 {
        assert forall|c: Seq<Seq<char>>| #[trigger] exprs_found(exprs).contains(c) implies c.len()
            >= 1 && c[0] != n by {
            assert(exprs_found(exprs) =~= Set::<Seq<Seq<char>>>::empty());
        }
    } else {
        lemma_exprs_shadow(exprs.drop_last(), n);
        lemma_expr_shadow(exprs.last(), n);
        assert forall|c: Seq<Seq<char>>| #[trigger] exprs_found(exprs).contains(c) implies c.len()
            >= 1 && c[0] != n by {
            assert(exprs_found(exprs.drop_last()).contains(c) || expr_found(
                exprs.last(),
            ).contains(c));
        }
    }
}

/// [`lemma_expr_shadow`] across one statement, compound shapes included.
proof fn lemma_stmt_shadow(s: Stmt, n: Seq<char>)
    requires
        stmt_no_capturing(s, n),
    ensures
        forall|c: Seq<Seq<char>>|
            #[trigger] stmt_found(s).contains(c) ==> c.len() >= 1 && c[0] != n,
    decreases s,
{
    match s {
        Stmt::Expression(e) => {
            lemma_expr_shadow(e, n);
            assert forall|c: Seq<Seq<char>>| #[trigger] stmt_found(s).contains(c) implies c.len()
                >= 1 && c[0] != n by {
                assert(expr_found(e).contains(c));
            }
        },
        Stmt::Return(arg) => {
            match arg {
                Some(e) => {
                    lemma_expr_shadow(e, n);
                    assert forall|c: Seq<Seq<char>>| #[trigger] stmt_found(s).contains(c) implies c
                        .len() >= 1 && c[0] != n by {
                        assert(expr_found(e).contains(c));
                    }
                },
                None => {
                    assert forall|c: Seq<Seq<char>>| #[trigger] stmt_found(s).contains(c) implies c
                        .len() >= 1 && c[0] != n by {
                        assert(stmt_found(s) =~= Set::<Seq<Seq<char>>>::empty());
                    }
                },
            }
        },
        Stmt::Declaration(inits) => {
            lemma_exprs_shadow(inits@, n);
            assert forall|c: Seq<Seq<char>>| #[trigger] stmt_found(s).contains(c) implies c.len()
                >= 1 && c[0] != n by {
                assert(exprs_found(inits@).contains(c));
            }
        },
        Stmt::If { condition, consequent, alternate } => {
            lemma_expr_shadow(condition, n);
            lemma_stmts_shadow(consequent@, n);
            lemma_stmts_shadow(alternate@, n);
            assert forall|c: Seq<Seq<char>>| #[trigger] stmt_found(s).contains(c) implies c.len()
                >= 1 && c[0] != n by {
                assert(expr_found(condition).contains(c) || stmts_found(consequent@).contains(c)
                    || stmts_found(alternate@).contains(c));
            }
        },
        Stmt::Block(stmts) => {
            lemma_stmts_shadow(stmts@, n);
            assert forall|c: Seq<Seq<char>>| #[trigger] stmt_found(s).contains(c) implies c.len()
                >= 1 && c[0] != n by {
                assert(stmts_found(stmts@).contains(c));
            }
        },
        Stmt::Unsupported => {
            assert forall|c: Seq<Seq<char>>| #[trigger] stmt_found(s).contains(c) implies c.len()
                >= 1 && c[0] != n by {
                assert(stmt_found(s) =~= Set::<Seq<Seq<char>>>::empty());
            }
        },
    }
}

/// [`lemma_stmt_shadow`] across a sequence of statements.
proof fn lemma_stmts_shadow(body: Seq<Stmt>, n: Seq<char>)
    requires
        stmts_no_capturing(body, n),
    ensures
        forall|c: Seq<Seq<char>>|
            #[trigger] stmts_found(body).contains(c) ==> c.len() >= 1 && c[0] != n,
    decreases body,
{
    if body.len() == 0 {
        assert forall|c: Seq<Seq<char>>| #[trigger] stmts_found(body).contains(c) implies c.len()
            >= 1 && c[0] != n by {
            assert(stmts_found(body) =~= Set::<Seq<Seq<char>>>::empty());
        }
    } else {
        lemma_stmts_shadow(body.drop_last(), n);
        lemma_stmt_shadow(body.last(), n);
        assert forall|c: Seq<Seq<char>>| #[trigger] stmts_found(body).contains(c) implies c.len()
            >= 1 && c[0] != n by {
            assert(stmts_found(body.drop_last()).contains(c) || stmt_found(
                body.last(),
            ).contains(c));
        }
    }
}

/// Local-shadow exemption law: when every use of the name `n` in a callback
/// body is non-capturing — in particular when `n` is declared inside the
/// body, so its uses resolve to that local declaration — no found chain and
/// hence no missing chain is rooted at `n`, whatever the declared list
/// holds: the rule never flags `n`.
pub proof fn lemma_local_shadow(body: Seq<Stmt>, n: Seq<char>, declared: Set<Seq<Seq<char>>>)
    requires
        stmts_no_capturing(body, n),
    ensures
        forall|c: Seq<Seq<char>>|
            #[trigger] stmts_found(body).contains(c) ==> c.len() >= 1 && c[0] != n,
        forall|c: Seq<Seq<char>>|
            #[trigger] missing_set(stmts_found(body), declared).contains(c) ==> c.len() >= 1
                && c[0] != n,
{
    lemma_stmts_shadow(body, n);
    assert forall|c: Seq<Seq<char>>|
        #[trigger] missing_set(stmts_found(body), declared).contains(c) implies c.len() >= 1 && c[0]
        != n by {
        assert(stmts_found(body).contains(c));
    }
}

} // verus!
