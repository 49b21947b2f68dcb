//! Property chains and their canonical form.
//!
//! A property chain is an ordered, non-empty sequence of names rooted at a
//! binding identifier, such as `["props", "foo", "bar"]` for `props.foo.bar`.
//! Optional access (`a?.b`) and plain access (`a.b`) canonicalize to the same
//! chain. A chain covers another when it is a proper prefix of it.
use vstd::prelude::*;
use vstd::string::StringExecFns;

use crate::ast::Expr;

verus! {

/// The canonical chain of an expression: an identifier yields the chain of
/// its own name, a property access with a statically known name extends the
/// chain of its object, and every other shape has no chain.
pub open spec fn chain_of(e: Expr) -> Option<Seq<Seq<char>>>
    decreases e,
{
    match e {
        Expr::Identifier { name, .. } => Some(seq![name@]),
        Expr::Member { object, property, .. } => match chain_of(*object) {
            Some(c) => Some(c.push(property@)),
            None => None,
        },
        _ => None,
    }
}

/// `p` is a strictly shorter chain whose names open `c`.
pub open spec fn proper_prefix_of(p: Seq<Seq<char>>, c: Seq<Seq<char>>) -> bool {
    p.len() < c.len() && p == c.subrange(0, p.len() as int)
}

/// The dotted rendering of a chain: its names joined by `.`.
pub open spec fn dot_join(c: Seq<Seq<char>>) -> Seq<char>
    decreases c.len(),
{
    if c.len() == 0 {
        Seq::empty()
    } else if c.len() == 1 {
        c[0]
    } else {
        dot_join(c.drop_last()) + seq!['.'] + c.last()
    }
}

/// An ordered sequence of property names rooted at a binding identifier.
pub struct Chain {
    pub parts: Vec<String>,
}

impl View for Chain {
    type V = Seq<Seq<char>>;

    open spec fn view(&self) -> Seq<Seq<char>> {
        self.parts@.map_values(|p: String| p@)
    }
}

/// Converts an expression into its canonical chain, or reports that the
/// expression has none. Mirrors [`chain_of`].
pub fn analyze_property_chain(expr: &Expr) -> (r: Option<Chain>)
    ensures
        match r {
            Some(c) => chain_of(*expr) == Some(c@),
            None => chain_of(*expr) is None,
        },
    decreases *expr,
{
    match expr {
        Expr::Identifier { name, .. } => {
            let mut parts: Vec<String> = Vec::new();
            parts.push(name.clone());
            let c = Chain { parts };
            proof {
                assert(c@ =~= seq![name@]);
            }
            Some(c)
        }
        Expr::Member { object, property, .. } => match analyze_property_chain(object) {
            Some(mut c) => {
                let ghost before = c@;
                c.parts.push(property.clone());
                proof {
                    assert(c@ =~= before.push(property@));
                }
                Some(c)
            },
            None => None,
        },
        _ => None,
    }
}

/// Whether two chains hold the same names in the same order.
pub fn chain_eq(a: &Chain, b: &Chain) -> (r: bool)
    ensures
        r == (a@ == b@),
{
    if a.parts.len() != b.parts.len() {
        proof {
            assert(a@.len() != b@.len());
        }
        return false;
    }
    let mut i: usize = 0;
    while i < a.parts.len()
        invariant
            i <= a.parts.len(),
            a.parts.len() == b.parts.len(),
            forall|j: int| 0 <= j < i ==> a@[j] == b@[j],
        decreases a.parts.len() - i,
    {
        if !(a.parts[i] == b.parts[i]) {
            proof {
                assert(a@[i as int] != b@[i as int]);
            }
            return false;
        }
        i += 1;
    }
    proof {
        assert(a@ =~= b@);
    }
    true
}

/// Whether `p` is a proper prefix of `c`.
pub fn chain_is_proper_prefix(p: &Chain, c: &Chain) -> (r: bool)
    ensures
        r == proper_prefix_of(p@, c@),
{
    if p.parts.len() >= c.parts.len() {
        return false;
    }
    let mut i: usize = 0;
    while i < p.parts.len()
        invariant
            i <= p.parts.len(),
            p.parts.len() < c.parts.len(),
            forall|j: int| 0 <= j < i ==> p@[j] == c@[j],
        decreases p.parts.len() - i,
    {
        if !(p.parts[i] == c.parts[i]) {
            proof {
                assert(c@.subrange(0, p@.len() as int)[i as int] == c@[i as int]);
            }
            return false;
        }
        i += 1;
    }
    proof {
        assert(p@ =~= c@.subrange(0, p@.len() as int));
    }
    true
}

/// Renders a chain in dotted form for display in a diagnostic.
pub fn to_dotted(c: &Chain) -> (r: String)
    ensures
        r@ == dot_join(c@),
{
    let mut s = String::new();
    if c.parts.len() == 0 {
        return s;
    }
    s.append(c.parts[0].as_str());
    proof {
        assert(c@.subrange(0, 1) =~= seq![c@[0]]);
    }
    let mut i: usize = 1;
    while i < c.parts.len()
        invariant
            1 <= i <= c.parts.len(),
            s@ == dot_join(c@.subrange(0, i as int)),
        decreases c.parts.len() - i,
    {
        s.append(".");
        s.append(c.parts[i].as_str());
        proof {
            reveal_strlit(".");
            let pre = c@.subrange(0, i as int);
            let post = c@.subrange(0, i + 1 as int);
            assert(post.drop_last() =~= pre);
            assert(post.last() == c@[i as int]);
            assert(s@ =~= dot_join(post));
        }
        i += 1;
    }
    proof {
        assert(c@.subrange(0, c@.len() as int) =~= c@);
    }
    s
}

} // verus!
