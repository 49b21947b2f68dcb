//! Recognition of hook call sites.
//!
//! A call site is analyzed when its callee names one of a fixed set of
//! reactive hooks, either bare (`useEffect(...)`) or qualified by the
//! reactive library's namespace identifier (`React.useEffect(...)`).
use vstd::prelude::*;

use crate::ast::Expr;

verus! {

/// Whether `n` is one of the recognized hook names.
pub open spec fn is_hook_name(n: Seq<char>) -> bool {
    ||| n == "useEffect"@
    ||| n == "useLayoutEffect"@
    ||| n == "useCallback"@
    ||| n == "useMemo"@
}

/// The name under which a callee invokes a hook: a bare identifier's own
/// name, or the property name of a `React.name` access; other callee shapes
/// name no hook.
pub open spec fn called_hook_name(callee: Expr) -> Option<Seq<char>> {
    match callee {
        Expr::Identifier { name, .. } => Some(name@),
        Expr::Member { object, property, .. } => match *object {
            Expr::Identifier { name, .. } => if name@ == "React"@ {
                Some(property@)
            } else {
                None
            },
            _ => None,
        },
        _ => None,
    }
}

/// Whether a runtime string equals a literal, stated over their views.
pub(crate) fn string_eq_lit(s: &String, lit: &str) -> (r: bool)
    ensures
        r == (s@ == lit@),
{
    let owned: String = lit.to_owned();
    *s == owned
}

/// Extracts the hook name a callee invokes, stripping the `React` namespace
/// qualifier where one is present. Mirrors [`called_hook_name`].
pub fn func_call_without_react_namespace(callee: &Expr) -> (r: Option<String>)
    ensures
        match r {
            Some(n) => called_hook_name(*callee) == Some(n@),
            None => called_hook_name(*callee) is None,
        },
{
    match callee {
        Expr::Identifier { name, .. } => Some(name.clone()),
        Expr::Member { object, property, .. } => match &**object {
            Expr::Identifier { name, .. } => if string_eq_lit(name, "React") {
                Some(property.clone())
            } else {
                None
            },
            _ => None,
        },
        _ => None,
    }
}

/// Whether `name` is one of the recognized hook names. Mirrors
/// [`is_hook_name`].
pub fn is_recognized_hook(name: &String) -> (r: bool)
    ensures
        r == is_hook_name(name@),
{
    string_eq_lit(name, "useEffect") || string_eq_lit(name, "useLayoutEffect")
        || string_eq_lit(name, "useCallback") || string_eq_lit(name, "useMemo")
}

} // verus!
