//! Properties of extraction that hold for every syntax tree.
use vstd::prelude::*;
use crate::declarations::{
    FieldScan, body_fields_upto, classify_child, classify_spec, describe, described_upto,
    field_of, first_identifier, is_annotation, lemma_error_persists, member_field,
    parse_tree_spec, scan_from, variant_of,
};
use crate::syntax::{SyntaxNode, child_by_field, contains_seq, ends_with_char};
use crate::type_expr::{
    args_text, has_args_at, has_marker_at, is_nullable_marker, is_type_name, type_len, type_text,
};
use crate::types::{CopyWithClassType, FieldModel};

verus! {

/// Children that are neither a type name nor an identifier list leave the
/// scan of a declaration as it was.
proof fn lemma_scan_skips(decl: SyntaxNode, i: int, j: int, acc: FieldScan)
    requires
        0 <= i <= j <= decl.children@.len(),
        forall|k: int|
            i <= k < j ==> !is_type_name(#[trigger] decl.children@[k])
                && decl.children@[k].kind@ != "initialized_identifier_list"@,
    ensures
        scan_from(decl, i, acc) == scan_from(decl, j, acc),
    decreases j - i,
{
    if i < j {
        lemma_scan_skips(decl, i + 1, j, acc);
    }
}

/// A declaration of the shape `modifiers Base? name` gives a field named
/// `name`, of type `Base`, marked nullable: the marker never stays in the
/// type text.
pub proof fn lemma_nullable_round_trip(decl: SyntaxNode, m: int, name: Seq<char>)
    requires
        0 <= m,
        decl.children@.len() == m + 3,
        forall|k: int|
            0 <= k < m ==> !is_type_name(#[trigger] decl.children@[k])
                && decl.children@[k].kind@ != "initialized_identifier_list"@,
        is_type_name(decl.children@[m]),
        is_nullable_marker(decl.children@[m + 1]),
        decl.children@[m + 2].kind@ == "initialized_identifier_list"@,
        first_identifier(decl.children@[m + 2]) == Some(name),
    ensures
        field_of(decl) == Some(
            FieldModel { name, type_str: decl.children@[m].text@, is_nullable: true },
        ),
{
    reveal_strlit("?");
    reveal_strlit("nullable_type");
    reveal_strlit("type_arguments");
    reveal_strlit("type_identifier");
    reveal_strlit("initialized_identifier_list");
    let sibs = decl.children@;
    let none = FieldScan { name: None, type_str: None, is_nullable: false };
    lemma_scan_skips(decl, 0, m, none);
    assert(sibs[m + 1].kind@ != "type_arguments"@) by {
        if sibs[m + 1].kind@ == "nullable_type"@ {
            assert("nullable_type"@[0] != "type_arguments"@[0]);
        }
    }
    assert(type_len(sibs, m) == 2);
    let base = sibs[m].text@;
    assert((base + "?"@).drop_last() =~= base);
    assert((base + "?"@).last() == '?');
    assert(sibs[m + 2].kind@ != "type_identifier"@) by {
        assert("initialized_identifier_list"@[0] != "type_identifier"@[0]);
    }
    let after_type = FieldScan { name: None, type_str: Some(base), is_nullable: true };
    assert(scan_from(decl, m, none) == scan_from(decl, m + 2, after_type));
    let after_name = FieldScan { name: Some(name), type_str: Some(base), is_nullable: true };
    assert(scan_from(decl, m + 2, after_type) == scan_from(decl, m + 3, after_name));
}

/// The type text that a declaration's scan keeps never ends with `?`, as
/// long as no type name's own text does.
proof fn lemma_scan_strips_marker(decl: SyntaxNode, i: int, acc: FieldScan)
    requires
        forall|k: int|
            0 <= k < decl.children@.len() && is_type_name(#[trigger] decl.children@[k])
                ==> !ends_with_char(decl.children@[k].text@, '?'),
        acc.type_str matches Some(t) ==> !ends_with_char(t, '?'),
    ensures
        scan_from(decl, i, acc).type_str matches Some(t) ==> !ends_with_char(t, '?'),
    decreases decl.children@.len() - i,
{
    reveal_strlit("?");
    reveal_strlit(">");
    let sibs = decl.children@;
    if 0 <= i < sibs.len() {
        if type_len(sibs, i) > 0 {
            let t = type_text(decl, i);
            let base = sibs[i].text@;
            if has_args_at(sibs, i) {
                let b = base + "<"@ + args_text(sibs[i + 1]) + ">"@;
                assert(b.last() == '>');
                if has_marker_at(sibs, i) {
                    assert(t.drop_last() =~= b);
                }
            } else if has_marker_at(sibs, i) {
                assert(t.drop_last() =~= base);
            }
            let next = if ends_with_char(t, '?') {
                FieldScan { name: acc.name, type_str: Some(t.drop_last()), is_nullable: true }
            } else {
                FieldScan { name: acc.name, type_str: Some(t), is_nullable: acc.is_nullable }
            };
            lemma_scan_strips_marker(decl, i + type_len(sibs, i), next);
        } else if sibs[i].kind@ == "initialized_identifier_list"@ {
            lemma_scan_strips_marker(
                decl,
                i + 1,
                FieldScan {
                    name: first_identifier(sibs[i]),
                    type_str: acc.type_str,
                    is_nullable: acc.is_nullable,
                },
            );
        } else {
            lemma_scan_strips_marker(decl, i + 1, acc);
        }
    }
}

/// Nullability is carried by the flag alone: the type text of a field never
/// ends with `?`, whatever the shape of its declaration, as long as no type
/// name's own text does (a grammar's type names never hold `?`).
pub proof fn lemma_marker_never_in_type(decl: SyntaxNode)
    requires
        forall|k: int|
            0 <= k < decl.children@.len() && is_type_name(#[trigger] decl.children@[k])
                ==> !ends_with_char(decl.children@[k].text@, '?'),
    ensures
        field_of(decl) matches Some(f) ==> !ends_with_char(f.type_str, '?'),
{
    lemma_scan_strips_marker(decl, 0, FieldScan { name: None, type_str: None, is_nullable: false });
}

/// A comment that holds the mixin token asks for the mixin variant, whatever
/// other tokens it also holds.
pub proof fn lemma_mixin_token_wins(comment: Seq<char>)
    requires
        contains_seq(comment, "+mk:copyWithMixin"@),
    ensures
        variant_of(comment) == Some(CopyWithClassType::Mixin),
{
}

/// A class declaration directly below a comment that holds the magic token
/// and the mixin token is classified as a mixin, never as an extension.
pub proof fn lemma_mixin_class(node: SyntaxNode, prev: SyntaxNode, token: Seq<char>)
    requires
        node.kind@ == "class_definition"@,
        prev.kind@ == "comment"@,
        contains_seq(prev.text@, token),
        contains_seq(prev.text@, "+mk:copyWithMixin"@),
        child_by_field(node, "name"@) is Some,
        child_by_field(node, "body"@) is Some,
    ensures
        classify_spec(node, Some(prev), token) == Ok::<_, Seq<char>>(
            Some(
                (
                    child_by_field(node, "name"@)->Some_0.text@,
                    child_by_field(node, "body"@)->Some_0,
                    CopyWithClassType::Mixin,
                ),
            ),
        ),
{
}

/// A node without a comment holding the magic token directly before it
/// gives no class and no error.
pub proof fn lemma_unannotated_is_skipped(
    node: SyntaxNode,
    prev: Option<SyntaxNode>,
    token: Seq<char>,
)
    requires
        !is_annotation(prev, token),
    ensures
        classify_spec(node, prev, token) == Ok::<
            Option<(Seq<char>, SyntaxNode, CopyWithClassType)>,
            Seq<char>,
        >(None),
{
}

/// One annotation that names no known variant fails the whole tree: no class
/// of it is described, whatever the other classes are.
pub proof fn lemma_unknown_variant_is_fatal(root: SyntaxNode, k: int, token: Seq<char>)
    requires
        0 <= k < root.children@.len(),
        classify_child(root, k, token) is Err,
    ensures
        parse_tree_spec(root, token) is Err,
{
    assert(described_upto(root, k + 1, token) is Err);
    lemma_error_persists(root, k + 1, root.children@.len() as int, token);
}

/// How many of the first `k` top-level children are annotated classes.
pub open spec fn annotated_count(root: SyntaxNode, k: int, token: Seq<char>) -> int
    decreases k,
{
    if k <= 0 {
        0
    } else {
        annotated_count(root, k - 1, token) + if classify_child(root, k - 1, token) is Ok
            && classify_child(root, k - 1, token)->Ok_0 is Some {
            1int
        } else {
            0int
        }
    }
}

proof fn lemma_annotated_count_grows(root: SyntaxNode, i: int, j: int, token: Seq<char>)
    requires
        0 <= i <= j,
    ensures
        annotated_count(root, i, token) <= annotated_count(root, j, token),
    decreases j - i,
{
    if i < j {
        lemma_annotated_count_grows(root, i, j - 1, token);
    }
}

proof fn lemma_described_positions(root: SyntaxNode, n: int, token: Seq<char>)
    requires
        0 <= n <= root.children@.len(),
        described_upto(root, n, token) is Ok,
    ensures
        described_upto(root, n, token)->Ok_0.len() == annotated_count(root, n, token),
        forall|i: int|
            0 <= i < n && (#[trigger] classify_child(root, i, token)) is Ok && classify_child(
                root,
                i,
                token,
            )->Ok_0 is Some ==> annotated_count(root, i, token) < described_upto(
                root,
                n,
                token,
            )->Ok_0.len() && described_upto(root, n, token)->Ok_0[annotated_count(
                root,
                i,
                token,
            )] == describe(classify_child(root, i, token)->Ok_0->Some_0),
    decreases n,
{
    if n > 0 {
        lemma_described_positions(root, n - 1, token);
        let s = described_upto(root, n, token)->Ok_0;
        let p = described_upto(root, n - 1, token)->Ok_0;
        let c = classify_child(root, n - 1, token);
        assert forall|i: int|
            0 <= i < n && (#[trigger] classify_child(root, i, token)) is Ok && classify_child(
                root,
                i,
                token,
            )->Ok_0 is Some implies annotated_count(root, i, token) < s.len() && s[annotated_count(
                root,
                i,
                token,
            )] == describe(classify_child(root, i, token)->Ok_0->Some_0) by {
            if i < n - 1 {
                let x = annotated_count(root, i, token);
                lemma_annotated_count_grows(root, 0, i, token);
                assert(0 <= x < p.len());
                if c is Ok && c->Ok_0 is Some {
                    assert(s == p.push(describe(c->Ok_0->Some_0)));
                    assert(s[x] == p[x]);
                } else {
                    assert(s == p);
                }
            } else {
                assert(s == p.push(describe(c->Ok_0->Some_0)));
            }
        }
    }
}

/// Annotated classes are described in the order they are declared: of two
/// annotated top-level children `j < k`, the description of `j` comes first.
pub proof fn lemma_classes_in_source_order(root: SyntaxNode, token: Seq<char>, j: int, k: int)
    requires
        parse_tree_spec(root, token) is Ok,
        0 <= j < k < root.children@.len(),
        classify_child(root, j, token) matches Ok(Some(_)),
        classify_child(root, k, token) matches Ok(Some(_)),
    ensures
        ({
            let s = parse_tree_spec(root, token)->Ok_0;
            let p = annotated_count(root, j, token);
            let q = annotated_count(root, k, token);
            &&& 0 <= p < q < s.len()
            &&& s[p] == describe(classify_child(root, j, token)->Ok_0->Some_0)
            &&& s[q] == describe(classify_child(root, k, token)->Ok_0->Some_0)
        }),
{
    let n = root.children@.len() as int;
    lemma_described_positions(root, n, token);
    lemma_annotated_count_grows(root, j + 1, k, token);
    lemma_annotated_count_grows(root, 0, j, token);
}

/// How many of the first `k` children of a class body declare a field.
pub open spec fn field_count(body: SyntaxNode, k: int) -> int
    decreases k,
{
    if k <= 0 {
        0
    } else {
        field_count(body, k - 1) + if member_field(body.children@[k - 1]) is Some {
            1int
        } else {
            0int
        }
    }
}

proof fn lemma_field_count_grows(body: SyntaxNode, i: int, j: int)
    requires
        0 <= i <= j,
    ensures
        field_count(body, i) <= field_count(body, j),
    decreases j - i,
{
    if i < j {
        lemma_field_count_grows(body, i, j - 1);
    }
}

proof fn lemma_field_positions(body: SyntaxNode, n: int)
    requires
        0 <= n <= body.children@.len(),
    ensures
        body_fields_upto(body, n).len() == field_count(body, n),
        forall|i: int|
            0 <= i < n && (#[trigger] member_field(body.children@[i])) is Some ==> field_count(
                body,
                i,
            ) < body_fields_upto(body, n).len() && body_fields_upto(body, n)[field_count(body, i)]
                == member_field(body.children@[i])->Some_0,
    decreases n,
{
    if n > 0 {
        lemma_field_positions(body, n - 1);
        let s = body_fields_upto(body, n);
        let p = body_fields_upto(body, n - 1);
        let f = member_field(body.children@[n - 1]);
        assert forall|i: int|
            0 <= i < n && (#[trigger] member_field(body.children@[i])) is Some implies field_count(
                body,
                i,
            ) < s.len() && s[field_count(body, i)] == member_field(body.children@[i])->Some_0 by {
            if i < n - 1 {
                let x = field_count(body, i);
                lemma_field_count_grows(body, 0, i);
                assert(0 <= x < p.len());
                if f is Some {
                    assert(s == p.push(f->Some_0));
                    assert(s[x] == p[x]);
                } else {
                    assert(s == p);
                }
            } else {
                assert(s == p.push(f->Some_0));
            }
        }
    }
}

/// Fields are listed in the order they are declared: of two children `j < k`
/// of a class body that both declare a field, the field of `j` comes first.
pub proof fn lemma_fields_in_source_order(body: SyntaxNode, j: int, k: int)
    requires
        0 <= j < k < body.children@.len(),
        member_field(body.children@[j]) is Some,
        member_field(body.children@[k]) is Some,
    ensures
        ({
            let s = body_fields_upto(body, body.children@.len() as int);
            let p = field_count(body, j);
            let q = field_count(body, k);
            &&& 0 <= p < q < s.len()
            &&& s[p] == member_field(body.children@[j])->Some_0
            &&& s[q] == member_field(body.children@[k])->Some_0
        }),
{
    lemma_field_positions(body, body.children@.len() as int);
    lemma_field_count_grows(body, j + 1, k);
    lemma_field_count_grows(body, 0, j);
}

} // verus!
