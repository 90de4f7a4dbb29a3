//! Building the syntax tree of Dart source with tree-sitter, and parsing a
//! source file into class descriptions.
use vstd::prelude::*;
use tree_sitter::{Node, Tree};
use crate::declarations::{parse_tree, parse_tree_spec};
use crate::syntax::SyntaxNode;
use crate::types::{Class, ParseError, classes_view};

verus! {

#[verifier::external_type_specification]
#[verifier::external_body]
pub struct ExTree(tree_sitter::Tree);

#[verifier::external_type_specification]
#[verifier::external_body]
pub struct ExNode<'tree>(tree_sitter::Node<'tree>);

/// Parses Dart source into a tree-sitter syntax tree.
///
/// Relies on tree_sitter::Parser::new, Parser::set_language with
/// tree_sitter_dart::language, and Parser::parse; both failures become
/// `ParseError::Syntax`.
#[verifier::external_body]
pub fn get_tree(code: &str) -> (r: Result<Tree, ParseError>)
    ensures
        r is Err ==> r matches Err(ParseError::Syntax),
{
    let mut parser = tree_sitter::Parser::new();
    match parser.set_language(&tree_sitter_dart::language()) {
        Ok(()) => {},
        Err(_) => return Err(ParseError::Syntax),
    }
    match parser.parse(code, None) {
        Some(tree) => Ok(tree),
        None => Err(ParseError::Syntax),
    }
}

/// The syntax tree that the Dart grammar gives for a source text, node for
/// node; `None` when no tree could be built.
pub uninterp spec fn dart_tree_of(code: Seq<char>) -> Option<SyntaxNode>;

/// Copies a tree-sitter node and all its descendants into a `SyntaxNode`
/// tree: each node's kind, the range of `code` it spans, the field name its
/// parent holds it under, and its children in order. `None` when a node's
/// range is not a range of `code`.
///
/// Relies on tree_sitter::Node::kind, byte_range, child_count, child and
/// field_name_for_child, and on str::get.
#[verifier::external_body]
fn copy_node(node: &Node<'_>, field: Option<String>, code: &str) -> Option<SyntaxNode> {
    let mut children = Vec::new();
    for i in 0..node.child_count() {
        let f = node.field_name_for_child(i as u32).map(|f| f.to_string());
        children.push(copy_node(&node.child(i)?, f, code)?);
    }
    let text = code.get(node.byte_range())?.to_string();
    Some(SyntaxNode { kind: node.kind().to_string(), text, field, children })
}

/// The syntax tree of Dart source.
///
/// Relies on tree_sitter::Parser::new, Parser::set_language with
/// tree_sitter_dart::language, Parser::parse and Tree::root_node; the result
/// depends on the text alone.
#[verifier::external_body]
pub fn syntax_tree(code: &str) -> (r: Option<SyntaxNode>)
    ensures
        r == dart_tree_of(code@),
{
    let mut parser = tree_sitter::Parser::new();
    parser.set_language(&tree_sitter_dart::language()).ok()?;
    let tree = parser.parse(code, None)?;
    copy_node(&tree.root_node(), None, code)
}

/// Parses Dart source and describes its annotated classes: each class
/// declaration directly below a comment that holds `magic_token`.
///
/// Fails with `ParseError::Syntax` exactly when no syntax tree could be
/// built, and with `ParseError::UnknownVariant` when an annotating comment
/// names no known copy-with variant; otherwise the result is what
/// `parse_tree` gives on the tree of `code`.
pub fn parse(code: &str, magic_token: &str) -> (r: Result<Vec<Class>, ParseError>)
    ensures
        match dart_tree_of(code@) {
            None => r matches Err(ParseError::Syntax),
            Some(t) => match parse_tree_spec(t, magic_token@) {
                Ok(s) => r matches Ok(v) && classes_view(v@) == s,
                Err(e) => r matches Err(ParseError::UnknownVariant(x)) && x@ == e,
            },
        },
{
    match syntax_tree(code) {
        Some(t) => parse_tree(&t, magic_token),
        None => Err(ParseError::Syntax),
    }
}

} // verus!
