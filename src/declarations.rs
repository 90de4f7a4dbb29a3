//! Detection of annotated class declarations, extraction of their fields, and
//! assembly of the class descriptions of one syntax tree.
use vstd::prelude::*;
use crate::syntax::{
    SyntaxNode, child_by_field, contains_seq, ends_with_char, str_contains, str_ends_with_char,
};
use crate::type_expr::{reconstruct, type_len, type_text};
use crate::types::{Class, ClassModel, CopyWithClassType, Field, FieldModel, ParseError, classes_view};

verus! {

/// What the scan of one declaration has found so far.
pub struct FieldScan {
    pub name: Option<Seq<char>>,
    pub type_str: Option<Seq<char>>,
    pub is_nullable: bool,
}

pub open spec fn empty_scan() -> FieldScan {
    FieldScan { name: None, type_str: None, is_nullable: false }
}

/// The declared name in an identifier-list node: the first identifier it
/// holds.
pub open spec fn first_identifier(list: SyntaxNode) -> Option<Seq<char>> {
    if list.children@.len() == 0 {
        None
    } else {
        let item = list.children@[0];
        if item.children@.len() > 0 && item.children@[0].kind@ == "identifier"@ {
            Some(item.children@[0].text@)
        } else {
            Some(item.text@)
        }
    }
}

/// The scan of the children of a declaration from index `i` on, starting
/// from what `acc` holds.
pub open spec fn scan_from(decl: SyntaxNode, i: int, acc: FieldScan) -> FieldScan
    decreases decl.children@.len() - i,
{
    let sibs = decl.children@;
    if i < 0 || i >= sibs.len() {
        acc
    } else if type_len(sibs, i) > 0 {
        let t = type_text(decl, i);
        let next = if ends_with_char(t, '?') {
            FieldScan { name: acc.name, type_str: Some(t.drop_last()), is_nullable: true }
        } else {
            FieldScan { name: acc.name, type_str: Some(t), is_nullable: acc.is_nullable }
        };
        scan_from(decl, i + type_len(sibs, i), next)
    } else if sibs[i].kind@ == "initialized_identifier_list"@ {
        scan_from(
            decl,
            i + 1,
            FieldScan {
                name: first_identifier(sibs[i]),
                type_str: acc.type_str,
                is_nullable: acc.is_nullable,
            },
        )
    } else {
        scan_from(decl, i + 1, acc)
    }
}

/// The field a declaration node declares: present only when both a name and
/// a type were found.
pub open spec fn field_of(decl: SyntaxNode) -> Option<FieldModel> {
    let s = scan_from(decl, 0, empty_scan());
    if s.name is Some && s.type_str is Some {
        Some(
            FieldModel {
                name: s.name->Some_0,
                type_str: s.type_str->Some_0,
                is_nullable: s.is_nullable,
            },
        )
    } else {
        None
    }
}

/// The declaration that a child of a class body holds: the child itself when
/// it is a declaration, or the declaration that opens a member-definition
/// node.
pub open spec fn member_declaration(n: SyntaxNode) -> Option<SyntaxNode> {
    if n.kind@ == "declaration"@ {
        Some(n)
    } else if n.kind@ == "class_member_definition"@ && n.children@.len() > 0
        && n.children@[0].kind@ == "declaration"@ {
        Some(n.children@[0])
    } else {
        None
    }
}

/// The field a child contributes to its class body.
pub open spec fn member_field(n: SyntaxNode) -> Option<FieldModel> {
    match member_declaration(n) {
        Some(d) => field_of(d),
        None => None,
    }
}

/// The fields declared by the first `k` children of a class body, in order.
pub open spec fn body_fields_upto(body: SyntaxNode, k: int) -> Seq<FieldModel>
    decreases k,
{
    if k <= 0 {
        Seq::empty()
    } else {
        let prev = body_fields_upto(body, k - 1);
        match member_field(body.children@[k - 1]) {
            Some(f) => prev.push(f),
            None => prev,
        }
    }
}

/// The fields declared in a class body, in order.
pub open spec fn body_fields(body: SyntaxNode) -> Seq<FieldModel> {
    body_fields_upto(body, body.children@.len() as int)
}

/// The copy-with variant that an annotating comment asks for. The richer
/// tokens are tested first, since the bare token is a prefix of both.
pub open spec fn variant_of(comment: Seq<char>) -> Option<CopyWithClassType> {
    if contains_seq(comment, "+mk:copyWithMixin"@) {
        Some(CopyWithClassType::Mixin)
    } else if contains_seq(comment, "+mk:copyWithNullableValue"@) {
        Some(CopyWithClassType::ExtensionForcingNullableValue)
    } else if contains_seq(comment, "+mk:copyWith"@) {
        Some(CopyWithClassType::Extension)
    } else {
        None
    }
}

/// Whether `prev` is a comment that holds the magic token.
pub open spec fn is_annotation(prev: Option<SyntaxNode>, token: Seq<char>) -> bool {
    prev is Some && prev->Some_0.kind@ == "comment"@ && contains_seq(prev->Some_0.text@, token)
}

/// The classification of `node` given the sibling just before it: `Ok(None)`
/// when it is not an annotated class, the class's name, body and variant when
/// it is, and the comment's text as an error when the annotation names no
/// known variant.
pub open spec fn classify_spec(node: SyntaxNode, prev: Option<SyntaxNode>, token: Seq<char>) -> Result<
    Option<(Seq<char>, SyntaxNode, CopyWithClassType)>,
    Seq<char>,
> {
    if node.kind@ != "class_definition"@ || !is_annotation(prev, token) {
        Ok(None)
    } else {
        let comment = prev->Some_0.text@;
        match variant_of(comment) {
            None => Err(comment),
            Some(v) => match (child_by_field(node, "name"@), child_by_field(node, "body"@)) {
                (Some(n), Some(b)) => Ok(Some((n.text@, b, v))),
                _ => Ok(None),
            },
        }
    }
}

/// The sibling before child `k` of `root`.
pub open spec fn prev_sibling(root: SyntaxNode, k: int) -> Option<SyntaxNode> {
    if k <= 0 {
        None
    } else {
        Some(root.children@[k - 1])
    }
}

/// The classification of child `k` of `root`.
pub open spec fn classify_child(root: SyntaxNode, k: int, token: Seq<char>) -> Result<
    Option<(Seq<char>, SyntaxNode, CopyWithClassType)>,
    Seq<char>,
> {
    classify_spec(root.children@[k], prev_sibling(root, k), token)
}

/// The description of a classified class.
pub open spec fn describe(c: (Seq<char>, SyntaxNode, CopyWithClassType)) -> ClassModel {
    ClassModel { name: c.0, fields: body_fields(c.1), variant: c.2 }
}

/// The descriptions of the annotated classes among the first `k` top-level
/// children, or the first classification error among them.
pub open spec fn described_upto(root: SyntaxNode, k: int, token: Seq<char>) -> Result<
    Seq<ClassModel>,
    Seq<char>,
>
    decreases k,
{
    if k <= 0 {
        Ok(Seq::empty())
    } else {
        match described_upto(root, k - 1, token) {
            Err(e) => Err(e),
            Ok(s) => match classify_child(root, k - 1, token) {
                Err(e) => Err(e),
                Ok(None) => Ok(s),
                Ok(Some(c)) => Ok(s.push(describe(c))),
            },
        }
    }
}

/// The descriptions of all annotated classes of a tree, in source order, or
/// the text of the first annotating comment that names no known variant.
pub open spec fn parse_tree_spec(root: SyntaxNode, token: Seq<char>) -> Result<
    Seq<ClassModel>,
    Seq<char>,
> {
    described_upto(root, root.children@.len() as int, token)
}

/// The declared name in an identifier-list node.
fn first_identifier_text(list: &SyntaxNode) -> (r: Option<String>)
    ensures
        r matches Some(s) ==> first_identifier(*list) == Some(s@),
        r is None ==> first_identifier(*list) is None,
{
    if list.children.len() == 0 {
        return None;
    }
    let item = &list.children[0];
    if item.children.len() > 0 && item.children[0].has_kind("identifier") {
        Some(item.children[0].text.clone())
    } else {
        Some(item.text.clone())
    }
}

/// The type text without its last character.
fn without_last_char(s: &String) -> (r: String)
    requires
        s@.len() > 0,
    ensures
        r@ == s@.drop_last(),
{
    let n = s.as_str().unicode_len();
    let cut = s.as_str().substring_char(0, n - 1);
    let r = String::from_str(cut);
    assert(r@ =~= s@.drop_last());
    r
}

/// Extracts the field that a declaration node declares, if it has both a
/// name and a type.
pub fn extract_field(decl: &SyntaxNode) -> (r: Option<Field>)
    ensures
        r matches Some(f) ==> field_of(*decl) == Some(f@),
        r is None ==> field_of(*decl) is None,
{
    let mut name: Option<String> = None;
    let mut type_str: Option<String> = None;
    let mut is_nullable = false;
    let mut i: usize = 0;
    while i < decl.children.len()
        invariant
            0 <= i <= decl.children@.len(),
            scan_from(*decl, 0, empty_scan()) == scan_from(
                *decl,
                i as int,
                FieldScan {
                    name: match name {
                        Some(s) => Some(s@),
                        None => None,
                    },
                    type_str: match type_str {
                        Some(s) => Some(s@),
                        None => None,
                    },
                    is_nullable,
                },
            ),
        decreases decl.children@.len() - i,
    {
        match reconstruct(decl, i) {
            Some((t, n)) => {
                if str_ends_with_char(t.as_str(), '?') {
                    type_str = Some(without_last_char(&t));
                    is_nullable = true;
                } else {
                    type_str = Some(t);
                }
                i = i + n;
            },
            None => {
                if decl.children[i].has_kind("initialized_identifier_list") {
                    name = first_identifier_text(&decl.children[i]);
                }
                i = i + 1;
            },
        }
    }
    match (name, type_str) {
        (Some(name_str), Some(type_str)) => Some(Field { type_str, name_str, is_nullable }),
        _ => None,
    }
}

/// The declaration that a child of a class body holds, if any.
fn member_declaration_of(n: &SyntaxNode) -> (r: Option<&SyntaxNode>)
    ensures
        r matches Some(d) ==> member_declaration(*n) == Some(*d),
        r is None ==> member_declaration(*n) is None,
{
    if n.has_kind("declaration") {
        Some(n)
    } else if n.has_kind("class_member_definition") && n.children.len() > 0
        && n.children[0].has_kind("declaration") {
        Some(&n.children[0])
    } else {
        None
    }
}

/// Extracts the fields declared in a class body, in declaration order.
/// Children other than declarations, and declarations without both a name
/// and a type, contribute nothing.
pub fn extract_fields(body: &SyntaxNode) -> (r: Vec<Field>)
    ensures
        r@.map_values(|f: Field| f@) == body_fields(*body),
{
    let mut fields: Vec<Field> = Vec::new();
    let mut k: usize = 0;
    while k < body.children.len()
        invariant
            0 <= k <= body.children@.len(),
            fields@.map_values(|f: Field| f@) == body_fields_upto(*body, k as int),
        decreases body.children@.len() - k,
    {
        if let Some(decl) = member_declaration_of(&body.children[k]) {
            match extract_field(decl) {
                Some(f) => {
                    let ghost before = fields@;
                    fields.push(f);
                    assert(fields@.map_values(|f: Field| f@) =~= before.map_values(
                        |f: Field| f@,
                    ).push(f@));
                },
                None => {},
            }
        }
        k = k + 1;
    }
    fields
}

/// The copy-with variant that an annotating comment asks for.
fn copy_with_variant(comment: &str) -> (r: Option<CopyWithClassType>)
    ensures
        r == variant_of(comment@),
{
    if str_contains(comment, "+mk:copyWithMixin") {
        Some(CopyWithClassType::Mixin)
    } else if str_contains(comment, "+mk:copyWithNullableValue") {
        Some(CopyWithClassType::ExtensionForcingNullableValue)
    } else if str_contains(comment, "+mk:copyWith") {
        Some(CopyWithClassType::Extension)
    } else {
        None
    }
}

/// Classifies a top-level node given the sibling just before it. Returns the
/// class's name, body and variant when `node` is a class declaration directly
/// below a comment that holds `magic_token`; `Ok(None)` when it is not; and
/// the comment's text as an error when that comment names no known variant.
pub fn check_and_handle_class_definition<'a>(
    node: &'a SyntaxNode,
    prev_node: Option<&'a SyntaxNode>,
    magic_token: &str,
) -> (r: Result<Option<(String, &'a SyntaxNode, CopyWithClassType)>, String>)
    ensures
        r matches Ok(Some((name, body, v))) ==> classify_spec(
            *node,
            match prev_node {
                Some(p) => Some(*p),
                None => None,
            },
            magic_token@,
        ) == Ok::<_, Seq<char>>(Some((name@, *body, v))),
        r matches Ok(None) ==> classify_spec(
            *node,
            match prev_node {
                Some(p) => Some(*p),
                None => None,
            },
            magic_token@,
        ) == Ok::<Option<(Seq<char>, SyntaxNode, CopyWithClassType)>, Seq<char>>(None),
        r matches Err(e) ==> classify_spec(
            *node,
            match prev_node {
                Some(p) => Some(*p),
                None => None,
            },
            magic_token@,
        ) == Err::<Option<(Seq<char>, SyntaxNode, CopyWithClassType)>, Seq<char>>(e@),
{
    if !node.has_kind("class_definition") {
        return Ok(None);
    }
    let prev = match prev_node {
        Some(p) => p,
        None => {
            return Ok(None);
        },
    };
    if !prev.has_kind("comment") || !str_contains(prev.text.as_str(), magic_token) {
        return Ok(None);
    }
    let variant = match copy_with_variant(prev.text.as_str()) {
        Some(v) => v,
        None => {
            return Err(prev.text.clone());
        },
    };
    match (node.child_by_field_name("name"), node.child_by_field_name("body")) {
        (Some(name), Some(body)) => Ok(Some((name.text.clone(), body, variant))),
        _ => Ok(None),
    }
}

/// Describes the annotated classes among the top-level children of `root`,
/// in source order. Fails with the comment's text on the first annotating
/// comment that names no known variant; no class is returned then.
pub fn parse_tree(root: &SyntaxNode, magic_token: &str) -> (r: Result<Vec<Class>, ParseError>)
    ensures
        match parse_tree_spec(*root, magic_token@) {
            Ok(s) => r matches Ok(v) && classes_view(v@) == s,
            Err(e) => r matches Err(ParseError::UnknownVariant(t)) && t@ == e,
        },
{
    let mut classes: Vec<Class> = Vec::new();
    assert(classes_view(classes@) =~= Seq::empty());
    let mut k: usize = 0;
    while k < root.children.len()
        invariant
            0 <= k <= root.children@.len(),
            described_upto(*root, k as int, magic_token@) == Ok::<Seq<ClassModel>, Seq<char>>(
                classes_view(classes@),
            ),
        decreases root.children@.len() - k,
    {
        let prev = if k == 0 {
            None
        } else {
            Some(&root.children[k - 1])
        };
        match check_and_handle_class_definition(&root.children[k], prev, magic_token) {
            Err(text) => {
                proof {
                    lemma_error_persists(*root, (k + 1) as int, root.children@.len() as int, magic_token@);
                }
                return Err(ParseError::UnknownVariant(text));
            },
            Ok(None) => {},
            Ok(Some((name_str, body, copy_with_class_type))) => {
                let fields = extract_fields(body);
                let c = Class { name_str, fields, copy_with_class_type };
                let ghost before = classes@;
                classes.push(c);
                assert(classes_view(classes@) =~= classes_view(before).push(c@));
            },
        }
        k = k + 1;
    }
    Ok(classes)
}

/// Once the first `j` top-level children give an error, so do the first `k`
/// for every `k >= j`, with the same text.
pub proof fn lemma_error_persists(root: SyntaxNode, j: int, k: int, token: Seq<char>)
    requires
        j <= k,
        described_upto(root, j, token) is Err,
    ensures
        described_upto(root, k, token) == described_upto(root, j, token),
    decreases k - j,
{
    if j < k {
        lemma_error_persists(root, j, k - 1, token);
    }
}

} // verus!
