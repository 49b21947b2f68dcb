//! The closed node model that the analysis reads.
//!
//! The host's syntax tree and semantic index are reduced to these plain
//! values before the analysis runs. Every syntax shape the analysis does not
//! inspect maps to the `Unsupported` variant of its kind; the analysis skips
//! such nodes and never fails on them. Identifier references carry their
//! resolution — the facts the semantic layer derived for them — so the
//! analysis itself performs no lookups. Wrapper nodes that change nothing
//! the analysis reads — parentheses, type assertions — are represented by
//! their inner expression.
use vstd::prelude::*;

verus! {

/// A source location, carried through to diagnostics unchanged.
#[derive(Clone, Copy, PartialEq, Eq, Structural, Debug)]
pub struct Span {
    pub start: u32,
    pub end: u32,
}

/// How the declaring scope of a resolved reference relates to the scope in
/// which the hook callback body executes. The semantic layer owns the scope
/// graph and its ancestry comparison; the analysis consumes only this
/// derived fact.
pub enum ScopeRelation {
    /// The declaring scope strictly encloses the callback's scope: the
    /// binding was captured from outside the callback.
    EnclosesCallback,
    /// The declaring scope is the callback's scope or one nested inside it:
    /// the binding is local to the callback.
    WithinCallback,
}

/// The mutability class a variable was declared with.
#[derive(Clone, Copy, PartialEq, Eq, Structural, Debug)]
pub enum DeclarationKind {
    /// Immutable (`const`-equivalent) semantics.
    Const,
    /// Block-scoped mutable (`let`-equivalent) semantics.
    Let,
    /// Function-scoped mutable (`var`-equivalent) semantics.
    Var,
}

/// One slot of an array-destructuring pattern.
pub enum PatternElement {
    /// An elided slot.
    Hole,
    /// A plain binding identifier.
    Name(String),
    /// A nested or otherwise uninspected pattern.
    Unsupported,
}

/// The binding pattern of a variable declarator.
pub enum Pattern {
    /// A plain binding identifier.
    Name(String),
    /// An array-destructuring pattern.
    Array(Vec<PatternElement>),
    /// Any other pattern shape.
    Unsupported,
}

/// The declaration that backs a resolved identifier reference, reduced to
/// what stability classification reads.
pub enum Declaration {
    /// A variable declarator: its kind, its binding pattern, and its
    /// initializer where one is present.
    Variable { kind: DeclarationKind, pattern: Pattern, init: Option<Box<Expr>> },
    /// A formal parameter of a function.
    Parameter,
    /// Any other declaring node.
    Unsupported,
}

/// What the semantic layer reports for one identifier reference.
pub enum Resolution {
    /// The reference resolves to a global binding.
    Global,
    /// No declaration could be located for the reference.
    Unresolved,
    /// The reference resolves to `declaration`; `scope_relation` says how
    /// the declaring scope relates to the callback's scope.
    Declared { declaration: Box<Declaration>, scope_relation: ScopeRelation },
}

/// One argument of a call expression.
pub enum Argument {
    /// An ordinary expression argument.
    Expression(Expr),
    /// A spread argument.
    Spread,
}

/// One element of an array-literal expression.
pub enum ArrayElement {
    /// An ordinary expression element.
    Expression(Expr),
    /// An elided (hole) element.
    Hole,
    /// A spread element.
    Spread,
}

/// An expression, restricted to the shapes the analysis inspects.
pub enum Expr {
    /// An identifier reference together with its resolution.
    Identifier { name: String, resolution: Resolution },
    /// A property access with a statically known name, `object.property` or
    /// `object?.property`.
    Member { object: Box<Expr>, property: String, optional: bool },
    /// A call expression.
    Call { callee: Box<Expr>, arguments: Vec<Argument> },
    /// An array-literal expression.
    ArrayLiteral { elements: Vec<ArrayElement> },
    /// A function literal whose body the callback analysis walks.
    ArrowFunction { body: Vec<Stmt> },
    /// Any other expression shape; the analysis reads nothing inside it.
    Unsupported,
}

/// A statement of a callback body. Compound statements keep their structure
/// so the walk reaches the expressions and statements inside them.
pub enum Stmt {
    /// An expression statement.
    Expression(Expr),
    /// A return statement, with its argument where one is present.
    Return(Option<Expr>),
    /// A variable-declaration statement: the initializer expressions of its
    /// declarators, in order, where present.
    Declaration(Vec<Expr>),
    /// A conditional statement: its condition and the statements of its two
    /// branches, an absent branch being empty.
    If { condition: Expr, consequent: Vec<Stmt>, alternate: Vec<Stmt> },
    /// A block statement.
    Block(Vec<Stmt>),
    /// Any other statement shape; the analysis reads nothing inside it.
    Unsupported,
}

/// A call expression as handed to the rule by the host: its callee, its
/// arguments, and its source location.
pub struct CallExpression {
    pub callee: Expr,
    pub arguments: Vec<Argument>,
    pub span: Span,
}

/// One missing-dependency finding: the hook that was called, the uncovered
/// chain in dotted form, and the call site's location.
pub struct Diagnostic {
    pub hook_name: String,
    pub missing_chain: String,
    pub location: Span,
}

} // verus!
