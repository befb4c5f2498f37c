//! Syntax trees, as tree-sitter builds them, held as plain values.
use vstd::prelude::*;

verus! {

#[verifier::external_type_specification]
#[verifier::external_body]
pub struct ExParser(tree_sitter::Parser);

#[verifier::external_type_specification]
#[verifier::external_body]
pub struct ExSyntaxTreeNode<'tree>(tree_sitter::Node<'tree>);

/// One node of a syntax tree: its grammar kind, the byte range of the source
/// that it spans, whether it holds a syntax error, and its children in order.
pub struct SyntaxNode {
    pub kind: String,
    pub start_byte: usize,
    pub end_byte: usize,
    pub has_error: bool,
    pub children: Vec<SyntaxNode>,
}

/// The tree that a tree-sitter parser with the Rust grammar builds from
/// `source`.
pub uninterp spec fn rust_syntax(source: Seq<char>) -> Option<SyntaxNode>;

/// Copies a tree-sitter node and its descendants into a `SyntaxNode`, field
/// for field (`kind`, `start_byte`, `end_byte`, `has_error`, `children`).
/// Nothing is claimed of the copy.
#[verifier::external_body]
fn syntax_node_of(node: tree_sitter::Node) -> SyntaxNode {
    let mut cursor = node.walk();
    let children: Vec<SyntaxNode> = node.children(&mut cursor).map(syntax_node_of).collect();
    SyntaxNode {
        kind: node.kind().to_string(),
        start_byte: node.start_byte(),
        end_byte: node.end_byte(),
        has_error: node.has_error(),
        children,
    }
}

/// Calls `tree_sitter::Parser::new`. Nothing is claimed of the parser, which
/// has no language yet.
#[verifier::external_body]
fn new_parser() -> tree_sitter::Parser {
    tree_sitter::Parser::new()
}

/// Calls `tree_sitter::Parser::set_language` with the Rust grammar of
/// `tree_sitter_rust::LANGUAGE` and tells whether tree-sitter accepted it.
/// Claimed: it is accepted. `set_language` refuses only a grammar whose
/// version lies outside 13..=14 (tree-sitter 0.24.7, `set_language` and its
/// version constants), and the grammar of tree-sitter-rust 0.23.3 has
/// version 14 (`LANGUAGE_VERSION` in its `parser.c`).
#[verifier::external_body]
fn set_rust_grammar(parser: &mut tree_sitter::Parser) -> (accepted: bool)
    ensures
        accepted,
{
    parser.set_language(&tree_sitter_rust::LANGUAGE.into()).is_ok()
}

/// A tree-sitter parser that was given the Rust grammar, with whether
/// tree-sitter accepted it.
pub struct RustParser {
    parser: tree_sitter::Parser,
    ready: bool,
}

/// The tree that a parser which is `ready` (or not) gives for `source`.
pub open spec fn rust_parse(ready: bool, source: Seq<char>) -> Option<SyntaxNode> {
    if ready {
        rust_syntax(source)
    } else {
        None
    }
}

impl RustParser {
    /// tree-sitter accepted the Rust grammar for this parser.
    pub closed spec fn ready(&self) -> bool {
        self.ready
    }

    /// The tree that this parser gives for `source`.
    pub open spec fn tree_of(&self, source: Seq<char>) -> Option<SyntaxNode> {
        rust_parse(self.ready(), source)
    }

    /// A new parser with the Rust grammar.
    pub fn new() -> (p: Self)
        ensures
            p.ready(),
    {
        let mut parser = new_parser();
        let ready = set_rust_grammar(&mut parser);
        RustParser { parser, ready }
    }

    /// A parser that was given no grammar, which builds no tree.
    pub fn without_grammar() -> (p: Self)
        ensures
            !p.ready(),
    {
        RustParser { parser: new_parser(), ready: false }
    }

    /// The tree of `source`, as this parser builds it (see `tree_of`).
    pub fn tree_sitter_parse(&mut self, source: &str) -> (tree: Option<SyntaxNode>)
        ensures
            final(self).ready() == old(self).ready(),
            tree == old(self).tree_of(source@),
    {
        self.parse(source)
    }

    /// Whether tree-sitter accepted the Rust grammar for this parser.
    pub fn is_ready(&self) -> (r: bool)
        ensures
            r == self.ready(),
    {
        self.ready
    }

    /// Calls `tree_sitter::Parser::parse` on `source`, with no earlier tree,
    /// and copies the root of the tree that comes back. Claimed, as the
    /// tree-sitter documentation gives it: a parser without a language gives
    /// no tree, and one with the Rust grammar (no timeout and no cancellation
    /// flag are ever set here) gives the named tree of `source`.
    #[verifier::external_body]
    pub(crate) fn parse(&mut self, source: &str) -> (tree: Option<SyntaxNode>)
        ensures
            final(self).ready() == old(self).ready(),
            tree == (if old(self).ready() {
                rust_syntax(source@)
            } else {
                None
            }),
    {
        match self.parser.parse(source, None) {
            Some(tree) => Some(syntax_node_of(tree.root_node())),
            None => None,
        }
    }
}

} // verus!
