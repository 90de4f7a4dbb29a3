//! A concrete syntax tree held as plain values, and the text helpers the
//! extraction logic reads it with.
use vstd::prelude::*;

verus! {

/// One node of a concrete syntax tree.
///
/// `kind` is the grammar's label for the node (for an anonymous token, the
/// token itself), `text` the source text it spans, `field` the name under
/// which its parent holds it (if any), and `children` all its children,
/// named and anonymous, in source order.
pub struct SyntaxNode {
    pub kind: String,
    pub text: String,
    pub field: Option<String>,
    pub children: Vec<SyntaxNode>,
}

/// `t` occurs in `s` as a contiguous run of characters.
pub open spec fn contains_seq(s: Seq<char>, t: Seq<char>) -> bool {
    exists|k: int| 0 <= k <= s.len() - t.len() && #[trigger] s.subrange(k, k + t.len()) == t
}

/// `s` ends with the character `c`.
pub open spec fn ends_with_char(s: Seq<char>, c: char) -> bool {
    s.len() > 0 && s.last() == c
}

/// The first child of `node` held under the field name `name`.
pub open spec fn child_by_field(node: SyntaxNode, name: Seq<char>) -> Option<SyntaxNode> {
    first_with_field(node.children@, name, 0)
}

pub open spec fn first_with_field(sibs: Seq<SyntaxNode>, name: Seq<char>, i: int) -> Option<
    SyntaxNode,
>
    decreases sibs.len() - i,
{
    if i < 0 || i >= sibs.len() {
        None
    } else if sibs[i].field is Some && sibs[i].field->Some_0@ == name {
        Some(sibs[i])
    } else {
        first_with_field(sibs, name, i + 1)
    }
}

impl SyntaxNode {
    /// A node with the given kind and text and no children.
    pub fn leaf(kind: &str, text: &str) -> (r: SyntaxNode)
        ensures
            r.kind@ == kind@,
            r.text@ == text@,
            r.field is None,
            r.children@.len() == 0,
    {
        SyntaxNode {
            kind: String::from_str(kind),
            text: String::from_str(text),
            field: None,
            children: Vec::new(),
        }
    }

    /// Whether this node's kind is `kind`.
    pub fn has_kind(&self, kind: &str) -> (r: bool)
        ensures
            r == (self.kind@ == kind@),
    {
        self.kind == String::from_str(kind)
    }

    /// The first child held under the field name `name`.
    pub fn child_by_field_name(&self, name: &str) -> (r: Option<&SyntaxNode>)
        ensures
            r matches Some(c) ==> child_by_field(*self, name@) == Some(*c),
            r is None ==> child_by_field(*self, name@) is None,
    {
        let want = String::from_str(name);
        let mut i: usize = 0;
        while i < self.children.len()
            invariant
                0 <= i <= self.children@.len(),
                want@ == name@,
                first_with_field(self.children@, name@, 0) == first_with_field(
                    self.children@,
                    name@,
                    i as int,
                ),
            decreases self.children@.len() - i,
        {
            let c = &self.children[i];
            match &c.field {
                Some(f) => {
                    if *f == want {
                        return Some(c);
                    }
                },
                None => {},
            }
            i = i + 1;
        }
        None
    }
}

/// Whether `t` occurs in `s`.
pub fn str_contains(s: &str, t: &str) -> (r: bool)
    ensures
        r == contains_seq(s@, t@),
{
    let n = s.unicode_len();
    let m = t.unicode_len();
    if m > n {
        proof {
            assert forall|k: int| 0 <= k <= s@.len() - t@.len() implies #[trigger] s@.subrange(
                k,
                k + t@.len(),
            ) != t@ by {}
        }
        return false;
    }
    let mut k: usize = 0;
    while k <= n - m
        invariant
            n == s@.len(),
            m == t@.len(),
            m <= n,
            0 <= k <= n - m + 1,
            forall|j: int| 0 <= j < k ==> #[trigger] s@.subrange(j, j + m) != t@,
        decreases n - m + 1 - k,
    {
        let mut i: usize = 0;
        let mut same = true;
        while i < m
            invariant
                n == s@.len(),
                m == t@.len(),
                m <= n,
                k <= n - m,
                0 <= i <= m,
                same == (forall|x: int| 0 <= x < i ==> s@[k + x] == t@[x]),
            decreases m - i,
        {
            if s.get_char(k + i) != t.get_char(i) {
                same = false;
            }
            i = i + 1;
        }
        if same {
            assert(s@.subrange(k as int, k + m) =~= t@);
            return true;
        }
        assert(s@.subrange(k as int, k + m) != t@) by {
            let x = choose|x: int| 0 <= x < m && s@[k + x] != t@[x];
            assert(s@.subrange(k as int, k + m)[x] == s@[k + x]);
        }
        k = k + 1;
    }
    false
}

/// Whether the last character of `s` is `c`.
pub fn str_ends_with_char(s: &str, c: char) -> (r: bool)
    ensures
        r == ends_with_char(s@, c),
{
    let n = s.unicode_len();
    n > 0 && s.get_char(n - 1) == c
}

} // verus!
