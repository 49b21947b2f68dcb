//! Collection of reactive reads from a callback body.
//!
//! The collector walks every statement of the hook callback's body,
//! descending structurally through compound statements — returns,
//! declarations, conditionals and blocks. Each identifier reference that is
//! a *capture* — resolved to a declaration in a scope enclosing the
//! callback and not classified stable — contributes the deepest analyzable
//! property chain rooted at it. Within expressions the traversal recurses
//! into call callees and arguments, array-literal elements and
//! member-expression object chains; every other shape contributes nothing
//! and is skipped without aborting the walk.
use vstd::prelude::*;

use crate::ast::Argument;
use crate::ast::ArrayElement;
use crate::ast::Expr;
use crate::ast::Resolution;
use crate::ast::ScopeRelation;
use crate::ast::Stmt;
use crate::chain::Chain;
use crate::chain::analyze_property_chain;
use crate::chain::chain_eq;
use crate::chain::chain_of;
use crate::stability::is_stable_value;
use crate::stability::stable_value;

verus! {

/// Whether an identifier reference with this name and resolution is a
/// dependency candidate: it must resolve to a located declaration, the
/// binding must not be stable, and the declaring scope must strictly
/// enclose the callback's scope — a binding local to the callback is never
/// a dependency.
pub open spec fn is_dependency(name: Seq<char>, res: Resolution) -> bool {
    match res {
        Resolution::Global => false,
        Resolution::Unresolved => false,
        Resolution::Declared { declaration, scope_relation } => {
            &&& !stable_value(*declaration, name)
            &&& scope_relation is EnclosesCallback
        },
    }
}

/// The identifier at the root of a member-access chain.
pub open spec fn chain_root(e: Expr) -> Option<Expr>
    decreases e,
{
    match e {
        Expr::Identifier { .. } => Some(e),
        Expr::Member { object, .. } => chain_root(*object),
        _ => None,
    }
}

/// Whether the root identifier of `e`'s chain is a dependency candidate.
pub open spec fn root_is_dependency(e: Expr) -> bool {
    match chain_root(e) {
        Some(root) => match root {
            Expr::Identifier { name, resolution } => is_dependency(name@, resolution),
            _ => false,
        },
        None => false,
    }
}

/// The set of chains the collector finds in one expression.
pub open spec fn expr_found(e: Expr) -> Set<Seq<Seq<char>>>
    decreases e,
{
    match e {
        Expr::Identifier { name, resolution } => if is_dependency(name@, resolution) {
            set![seq![name@]]
        } else {
            Set::empty()
        },
        Expr::Member { object, .. } => match chain_of(e) {
            Some(c) => if root_is_dependency(e) {
                set![c]
            } else {
                Set::empty()
            },
            None => expr_found(*object),
        },
        Expr::Call { callee, arguments } => expr_found(*callee).union(args_found(arguments@)),
        Expr::ArrayLiteral { elements } => elems_found(elements@),
        Expr::ArrowFunction { .. } => Set::empty(),
        Expr::Unsupported => Set::empty(),
    }
}

/// The set of chains found across a sequence of call arguments.
pub open spec fn args_found(args: Seq<Argument>) -> Set<Seq<Seq<char>>>
    decreases args,
{
    if args.len() == 0 {
        Set::empty()
    } else {
        args_found(args.drop_last()).union(
            match args.last() {
                Argument::Expression(e) => expr_found(e),
                Argument::Spread => Set::empty(),
            },
        )
    }
}

/// The set of chains found across the elements of an array literal.
pub open spec fn elems_found(elems: Seq<ArrayElement>) -> Set<Seq<Seq<char>>>
    decreases elems,
{
    if elems.len() == 0 {
        Set::empty()
    } else {
        elems_found(elems.drop_last()).union(
            match elems.last() {
                ArrayElement::Expression(e) => expr_found(e),
                _ => Set::empty(),
            },
        )
    }
}

/// The set of chains found across a sequence of expressions, as the
/// initializers of one declaration statement.
pub open spec fn exprs_found(exprs: Seq<Expr>) -> Set<Seq<Seq<char>>>
    decreases exprs,
{
    if exprs.len() == 0 {
        Set::empty()
    } else {
        exprs_found(exprs.drop_last()).union(expr_found(exprs.last()))
    }
}

/// The set of chains found in one statement. Compound statements are
/// traversed structurally: a return's argument, a declaration's
/// initializers, a conditional's condition and both branches, and the
/// statements of a block all contribute their reads.
pub open spec fn stmt_found(s: Stmt) -> Set<Seq<Seq<char>>>
    decreases s,
{
    match s {
        Stmt::Expression(e) => expr_found(e),
        Stmt::Return(arg) => match arg {
            Some(e) => expr_found(e),
            None => Set::empty(),
        },
        Stmt::Declaration(inits) => exprs_found(inits@),
        Stmt::If { condition, consequent, alternate } => expr_found(condition).union(
            stmts_found(consequent@),
        ).union(stmts_found(alternate@)),
        Stmt::Block(stmts) => stmts_found(stmts@),
        Stmt::Unsupported => Set::empty(),
    }
}

/// The set of chains found across the statements of a callback body.
pub open spec fn stmts_found(body: Seq<Stmt>) -> Set<Seq<Seq<char>>>
    decreases body,
{
    if body.len() == 0 {
        Set::empty()
    } else {
        stmts_found(body.drop_last()).union(stmt_found(body.last()))
    }
}

/// The set of chain values a list of chains holds.
pub open spec fn chains_set(s: Seq<Chain>) -> Set<Seq<Seq<char>>> {
    Set::new(|c: Seq<Seq<char>>| exists|i: int| 0 <= i < s.len() && s[i]@ == c)
}

/// No two chains of the list hold the same names.
pub open spec fn distinct_chains(s: Seq<Chain>) -> bool {
    forall|i: int, j: int| 0 <= i < j < s.len() ==> s[i]@ != s[j]@
}

/// Decides whether an identifier reference is a dependency candidate.
/// Mirrors [`is_dependency`].
pub fn is_identifier_a_dependency(name: &String, res: &Resolution) -> (r: bool)
    ensures
        r == is_dependency(name@, *res),
{
    match res {
        Resolution::Global => false,
        Resolution::Unresolved => false,
        Resolution::Declared { declaration, scope_relation } => {
            if matches!(scope_relation, ScopeRelation::WithinCallback) {
                return false;
            }
            !is_stable_value(declaration, name)
        },
    }
}

/// Decides whether the root identifier of a member chain is a dependency
/// candidate. Mirrors [`root_is_dependency`].
fn is_root_a_dependency(e: &Expr) -> (r: bool)
    ensures
        r == root_is_dependency(*e),
    decreases *e,
{
    match e {
        Expr::Identifier { name, resolution } => is_identifier_a_dependency(name, resolution),
        Expr::Member { object, .. } => is_root_a_dependency(object),
        _ => false,
    }
}

/// The chain at any index of a list is a member of the list's chain set.
pub proof fn lemma_chains_set_member(s: Seq<Chain>, i: int)
    requires
        0 <= i < s.len(),
    ensures
        chains_set(s).contains(s[i]@),
{
    let w = s[i]@;
    assert(0 <= i < s.len() && s[i]@ == w);
    assert(exists|j: int| 0 <= j < s.len() && s[j]@ == w);
}

/// Appending a chain to a list inserts its value into the list's chain set.
pub proof fn lemma_chains_set_push(s: Seq<Chain>, c: Chain)
    ensures
        chains_set(s.push(c)) == chains_set(s).insert(c@),
{
    assert forall|x: Seq<Seq<char>>| chains_set(s.push(c)).contains(x) implies chains_set(
        s,
    ).insert(c@).contains(x) by {
        let j = choose|j: int| 0 <= j < s.push(c).len() && s.push(c)[j]@ == x;
        if j < s.len() {
            assert(s[j]@ == x);
            lemma_chains_set_member(s, j);
        } else {
            assert(x == c@);
        }
    };
    assert forall|x: Seq<Seq<char>>| chains_set(s).insert(c@).contains(x) implies chains_set(
        s.push(c),
    ).contains(x) by {
        if x == c@ {
            assert(s.push(c)[s.len() as int]@ == x);
            lemma_chains_set_member(s.push(c), s.len() as int);
        } else {
            let j = choose|j: int| 0 <= j < s.len() && s[j]@ == x;
            assert(s.push(c)[j]@ == x);
            lemma_chains_set_member(s.push(c), j);
        }
    };
    assert(chains_set(s.push(c)) =~= chains_set(s).insert(c@));
}

/// Adds a chain to the found list unless an equal chain is already there.
fn insert_chain(deps: &mut Vec<Chain>, c: Chain)
    requires
        distinct_chains(old(deps)@),
    ensures
        distinct_chains(final(deps)@),
        chains_set(final(deps)@) == chains_set(old(deps)@).insert(c@),
{
    let ghost cv = c@;
    let mut i: usize = 0;
    while i < deps.len()
        invariant
            i <= deps@.len(),
            deps@ == old(deps)@,
            distinct_chains(deps@),
            forall|j: int| 0 <= j < i ==> deps@[j]@ != cv,
            c@ == cv,
        decreases deps@.len() - i,
    {
        if chain_eq(&deps[i], &c) {
            proof {
                lemma_chains_set_member(deps@, i as int);
                assert(chains_set(deps@) =~= chains_set(deps@).insert(cv));
            }
            return ;
        }
        i += 1;
    }
    proof {
        lemma_chains_set_push(deps@, c);
    }
    deps.push(c);
}

/// Walks one expression and adds every chain it finds to `deps`. Mirrors
/// [`expr_found`].
#[verifier::loop_isolation(false)]
pub fn check_expression(expression: &Expr, deps: &mut Vec<Chain>)
    requires
        distinct_chains(old(deps)@),
    ensures
        distinct_chains(final(deps)@),
        chains_set(final(deps)@) == chains_set(old(deps)@).union(expr_found(*expression)),
    decreases *expression,
{
    match expression {
        Expr::Identifier { name, resolution } => {
            if is_identifier_a_dependency(name, resolution) {
                let mut parts: Vec<String> = Vec::new();
                parts.push(name.clone());
                let c = Chain { parts };
                proof {
                    assert(c@ =~= seq![name@]);
                }
                insert_chain(deps, c);
                proof {
                    assert(chains_set(deps@) =~= chains_set(old(deps)@).union(
                        expr_found(*expression),
                    ));
                }
            } else {
                proof {
                    assert(chains_set(deps@) =~= chains_set(old(deps)@).union(
                        expr_found(*expression),
                    ));
                }
            }
        },
        Expr::Member { object, .. } => {
            match analyze_property_chain(expression) {
                Some(c) => {
                    if is_root_a_dependency(expression) {
                        insert_chain(deps, c);
                        proof {
                            assert(chains_set(deps@) =~= chains_set(old(deps)@).union(
                                expr_found(*expression),
                            ));
                        }
                    } else {
                        proof {
                            assert(chains_set(deps@) =~= chains_set(old(deps)@).union(
                                expr_found(*expression),
                            ));
                        }
                    }
                },
                None => {
                    check_expression(object, deps);
                },
            }
        },
        Expr::Call { callee, arguments } => {
            check_expression(callee, deps);
            let ghost after_callee = deps@;
            let mut i: usize = 0;
            while i < arguments.len()
        invariant
            distinct_chains(deps@),
            chains_set(deps@) == chains_set(after_callee).union(
                args_found(arguments@.subrange(0, i as int)),
            ),
            i <= arguments@.len(),
            chains_set(after_callee) == chains_set(old(deps)@).union(expr_found(**callee)),
        decreases arguments@.len() - i,
            {
                match &arguments[i] {
                    Argument::Expression(e) => {
                        proof {
                            assert(expression->Call_arguments == *arguments);
                            assert(decreases_to!(*expression => expression->Call_arguments));
                            assert(decreases_to!(*arguments => arguments@));
                            assert(decreases_to!(arguments@ => arguments@[i as int]));
                            assert(arguments@[i as int]->Expression_0 == *e);
                            assert(decreases_to!(arguments@[i as int] => arguments@[i as int]->Expression_0));
                        }
                        check_expression(e, deps);
                        proof {
                            assert(arguments@.subrange(0, i + 1 as int).drop_last() =~= arguments@
                                .subrange(0, i as int));
                            assert(chains_set(deps@) =~= chains_set(after_callee).union(
                                args_found(arguments@.subrange(0, i + 1 as int)),
                            ));
                        }
                    },
                    Argument::Spread => {
                        proof {
                            assert(arguments@.subrange(0, i + 1 as int).drop_last() =~= arguments@
                                .subrange(0, i as int));
                            assert(chains_set(deps@) =~= chains_set(after_callee).union(
                                args_found(arguments@.subrange(0, i + 1 as int)),
                            ));
                        }
                    },
                }
                i += 1;
            }
            proof {
                assert(arguments@.subrange(0, arguments@.len() as int) =~= arguments@);
                assert(chains_set(deps@) =~= chains_set(old(deps)@).union(
                    expr_found(*expression),
                ));
            }
        },
        Expr::ArrayLiteral { elements } => {
            let ghost at_entry = deps@;
            let mut i: usize = 0;
            while i < elements.len()
        invariant
            distinct_chains(deps@),
            chains_set(deps@) == chains_set(at_entry).union(
                elems_found(elements@.subrange(0, i as int)),
            ),
            i <= elements@.len(),
            at_entry == old(deps)@,
        decreases elements@.len() - i,
            {
                match &elements[i] {
                    ArrayElement::Expression(e) => {
                        proof {
                            assert(expression->ArrayLiteral_elements == *elements);
                            assert(decreases_to!(*expression => expression->ArrayLiteral_elements));
                            assert(decreases_to!(*elements => elements@));
                            assert(decreases_to!(elements@ => elements@[i as int]));
                            assert(elements@[i as int]->Expression_0 == *e);
                            assert(decreases_to!(elements@[i as int] => elements@[i as int]->Expression_0));
                        }
                        check_expression(e, deps);
                        proof {
                            assert(elements@.subrange(0, i + 1 as int).drop_last() =~= elements@
                                .subrange(0, i as int));
                            assert(chains_set(deps@) =~= chains_set(at_entry).union(
                                elems_found(elements@.subrange(0, i + 1 as int)),
                            ));
                        }
                    },
                    _ => {
                        proof {
                            assert(elements@.subrange(0, i + 1 as int).drop_last() =~= elements@
                                .subrange(0, i as int));
                            assert(chains_set(deps@) =~= chains_set(at_entry).union(
                                elems_found(elements@.subrange(0, i + 1 as int)),
                            ));
                        }
                    },
                }
                i += 1;
            }
            proof {
                assert(elements@.subrange(0, elements@.len() as int) =~= elements@);
                assert(chains_set(deps@) =~= chains_set(old(deps)@).union(
                    expr_found(*expression),
                ));
            }
        },
        Expr::ArrowFunction { .. } => {
            proof {
                assert(chains_set(deps@) =~= chains_set(old(deps)@).union(
                    expr_found(*expression),
                ));
            }
        },
        Expr::Unsupported => {
            proof {
                assert(chains_set(deps@) =~= chains_set(old(deps)@).union(
                    expr_found(*expression),
                ));
            }
        },
    }
}

/// Walks one statement and adds every chain it finds to `deps`. Mirrors
/// [`stmt_found`].
#[verifier::loop_isolation(false)]
pub fn check_statement(statement: &Stmt, deps: &mut Vec<Chain>)
    requires
        distinct_chains(old(deps)@),
    ensures
        distinct_chains(final(deps)@),
        chains_set(final(deps)@) == chains_set(old(deps)@).union(stmt_found(*statement)),
    decreases *statement,
{
    match statement {
        Stmt::Expression(e) => {
            check_expression(e, deps);
        },
        Stmt::Return(arg) => {
            match arg {
                Some(e) => {
                    check_expression(e, deps);
                },
                None => {
                    proof {
                        assert(chains_set(deps@) =~= chains_set(old(deps)@).union(
                            stmt_found(*statement),
                        ));
                    }
                },
            }
        },
        Stmt::Declaration(inits) => {
            let ghost at_entry = deps@;
            let mut i: usize = 0;
            while i < inits.len()
        invariant
            distinct_chains(deps@),
            chains_set(deps@) == chains_set(at_entry).union(
                exprs_found(inits@.subrange(0, i as int)),
            ),
            i <= inits@.len(),
            at_entry == old(deps)@,
        decreases inits@.len() - i,
            {
                check_expression(&inits[i], deps);
                proof {
                    assert(inits@.subrange(0, i + 1 as int).drop_last() =~= inits@.subrange(
                        0,
                        i as int,
                    ));
                    assert(chains_set(deps@) =~= chains_set(at_entry).union(
                        exprs_found(inits@.subrange(0, i + 1 as int)),
                    ));
                }
                i += 1;
            }
            proof {
                assert(inits@.subrange(0, inits@.len() as int) =~= inits@);
                assert(chains_set(deps@) =~= chains_set(old(deps)@).union(
                    stmt_found(*statement),
                ));
            }
        },
        Stmt::If { condition, consequent, alternate } => {
            check_expression(condition, deps);
            proof {
                assert(statement->If_consequent == *consequent);
                assert(statement->If_alternate == *alternate);
                assert(decreases_to!(*statement => statement->If_consequent));
                assert(decreases_to!(*statement => statement->If_alternate));
                assert(decreases_to!(*consequent => consequent@));
                assert(decreases_to!(*alternate => alternate@));
            }
            check_statements(consequent, deps);
            check_statements(alternate, deps);
            proof {
                assert(chains_set(deps@) =~= chains_set(old(deps)@).union(
                    stmt_found(*statement),
                ));
            }
        },
        Stmt::Block(stmts) => {
            proof {
                assert(statement->Block_0 == *stmts);
                assert(decreases_to!(*statement => statement->Block_0));
                assert(decreases_to!(*stmts => stmts@));
            }
            check_statements(stmts, deps);
            proof {
                assert(chains_set(deps@) =~= chains_set(old(deps)@).union(
                    stmt_found(*statement),
                ));
            }
        },
        Stmt::Unsupported => {
            proof {
                assert(chains_set(deps@) =~= chains_set(old(deps)@).union(
                    stmt_found(*statement),
                ));
            }
        },
    }
}

/// Walks every statement of a sequence and adds every chain found to
/// `deps`. Mirrors [`stmts_found`].
#[verifier::loop_isolation(false)]
pub fn check_statements(body: &Vec<Stmt>, deps: &mut Vec<Chain>)
    requires
        distinct_chains(old(deps)@),
    ensures
        distinct_chains(final(deps)@),
        chains_set(final(deps)@) == chains_set(old(deps)@).union(stmts_found(body@)),
    decreases body@,
{
    let mut i: usize = 0;
    while i < body.len()
        invariant
            distinct_chains(deps@),
            chains_set(deps@) == chains_set(old(deps)@).union(
                stmts_found(body@.subrange(0, i as int)),
            ),
            i <= body@.len(),
        decreases body@.len() - i,
    {
        proof {
            assert(decreases_to!(body@ => body@[i as int]));
        }
        check_statement(&body[i], deps);
        proof {
            assert(body@.subrange(0, i + 1 as int).drop_last() =~= body@.subrange(0, i as int));
            assert(chains_set(deps@) =~= chains_set(old(deps)@).union(
                stmts_found(body@.subrange(0, i + 1 as int)),
            ));
        }
        i += 1;
    }
    proof {
        assert(body@.subrange(0, body@.len() as int) =~= body@);
    }
}

} // verus!
