//! Reconstruction of a type expression that the grammar spreads over several
//! sibling nodes: a base name, an optional type-argument list and an optional
//! nullability marker.
use vstd::prelude::*;
use crate::syntax::SyntaxNode;

verus! {

pub open spec fn is_type_name(n: SyntaxNode) -> bool {
    n.kind@ == "type_identifier"@
}

pub open spec fn is_type_arguments(n: SyntaxNode) -> bool {
    n.kind@ == "type_arguments"@
}

/// A nullability marker: a `nullable_type` node, or a bare `?` token.
pub open spec fn is_nullable_marker(n: SyntaxNode) -> bool {
    n.kind@ == "nullable_type"@ || n.kind@ == "?"@
}

/// Whether the sibling after the base name at `i` is a type-argument list.
pub open spec fn has_args_at(sibs: Seq<SyntaxNode>, i: int) -> bool {
    i + 1 < sibs.len() && is_type_arguments(sibs[i + 1])
}

/// How many siblings the base name and its argument list take.
pub open spec fn base_len(sibs: Seq<SyntaxNode>, i: int) -> int {
    if has_args_at(sibs, i) {
        2
    } else {
        1
    }
}

/// Whether a nullability marker follows the base name and its arguments.
pub open spec fn has_marker_at(sibs: Seq<SyntaxNode>, i: int) -> bool {
    i + base_len(sibs, i) < sibs.len() && is_nullable_marker(sibs[i + base_len(sibs, i)])
}

/// How many siblings the type expression starting at `i` consumes; zero when
/// no type expression starts there.
pub open spec fn type_len(sibs: Seq<SyntaxNode>, i: int) -> int {
    if 0 <= i < sibs.len() && is_type_name(sibs[i]) {
        base_len(sibs, i) + if has_marker_at(sibs, i) {
            1int
        } else {
            0int
        }
    } else {
        0
    }
}

/// The canonical text of the type expression starting at child `i` of
/// `parent`: `Base`, `Base<Args>`, each followed by `?` when a nullability
/// marker follows.
pub open spec fn type_text(parent: SyntaxNode, i: int) -> Seq<char>
    decreases parent, 0int, 0int,
{
    let sibs = parent.children@;
    if 0 <= i < sibs.len() && is_type_name(sibs[i]) {
        let base = if has_args_at(sibs, i) {
            sibs[i].text@ + "<"@ + args_text(sibs[i + 1]) + ">"@
        } else {
            sibs[i].text@
        };
        if has_marker_at(sibs, i) {
            base + "?"@
        } else {
            base
        }
    } else {
        Seq::empty()
    }
}

/// The reconstruction of the type expression starting at child `i` of
/// `parent`, with the number of siblings it consumes.
pub open spec fn reconstruct_spec(parent: SyntaxNode, i: int) -> Option<(Seq<char>, int)> {
    if type_len(parent.children@, i) > 0 {
        Some((type_text(parent, i), type_len(parent.children@, i)))
    } else {
        None
    }
}

/// The rendered type expressions found among the children of `node` from
/// index `i` on; a child that starts none is passed over.
pub open spec fn args_from(node: SyntaxNode, i: int) -> Seq<Seq<char>>
    decreases node, 1int, node.children@.len() - i,
{
    if i < 0 || i >= node.children@.len() {
        Seq::empty()
    } else if type_len(node.children@, i) > 0 {
        seq![type_text(node, i)] + args_from(node, i + type_len(node.children@, i))
    } else {
        args_from(node, i + 1)
    }
}

/// The parts joined with `", "` between each two.
pub open spec fn join_args(parts: Seq<Seq<char>>) -> Seq<char>
    decreases parts.len(),
{
    if parts.len() == 0 {
        Seq::empty()
    } else if parts.len() == 1 {
        parts[0]
    } else {
        join_args(parts.drop_last()) + ", "@ + parts.last()
    }
}

/// The comma-joined rendering of a type-argument list node.
pub open spec fn args_text(node: SyntaxNode) -> Seq<char>
    decreases node, 2int, 0int,
{
    join_args(args_from(node, 0))
}

/// Reconstructs the type expression that starts at child `i` of `parent`.
/// Returns its canonical text and how many siblings it consumed, or `None`
/// when child `i` is not a type name.
pub fn reconstruct(parent: &SyntaxNode, i: usize) -> (r: Option<(String, usize)>)
    ensures
        r matches Some((s, n)) ==> reconstruct_spec(*parent, i as int) == Some((s@, n as int)),
        r is None ==> reconstruct_spec(*parent, i as int) is None,
    decreases *parent, 0int,
{
    let sibs = &parent.children;
    if i >= sibs.len() || !sibs[i].has_kind("type_identifier") {
        return None;
    }
    let mut s = sibs[i].text.clone();
    let mut n: usize = 1;
    if i + 1 < sibs.len() && sibs[i + 1].has_kind("type_arguments") {
        let inner = format_type_arguments(&sibs[i + 1]);
        s.append("<");
        s.append(inner.as_str());
        s.append(">");
        n = 2;
    }
    if i + n < sibs.len() && (sibs[i + n].has_kind("nullable_type") || sibs[i + n].has_kind(
        "?",
    )) {
        s.append("?");
        n = n + 1;
    }
    Some((s, n))
}

/// Renders the type expressions inside a type-argument list node, joined with
/// `", "`. Children that start no type expression are passed over.
pub fn format_type_arguments(node: &SyntaxNode) -> (r: String)
    ensures
        r@ == args_text(*node),
    decreases *node, 1int,
{
    let ghost parts: Seq<Seq<char>> = Seq::empty();
    let mut out = String::new();
    let mut first = true;
    let mut i: usize = 0;
    while i < node.children.len()
        invariant
            0 <= i <= node.children@.len(),
            args_from(*node, 0) == parts + args_from(*node, i as int),
            out@ == join_args(parts),
            first == (parts.len() == 0),
        decreases node.children@.len() - i,
    {
        match reconstruct(node, i) {
            Some((s, n)) => {
                proof {
                    let p2 = parts.push(s@);
                    assert(p2.drop_last() =~= parts);
                    assert(seq![s@] + args_from(*node, i + n) =~= args_from(*node, i as int));
                    assert(parts + args_from(*node, i as int) =~= p2 + args_from(*node, i + n));
                    parts = p2;
                }
                if !first {
                    out.append(", ");
                }
                out.append(s.as_str());
                first = false;
                i = i + n;
            },
            None => {
                i = i + 1;
            },
        }
    }
    proof {
        assert(parts + args_from(*node, i as int) =~= parts);
    }
    out
}

} // verus!
