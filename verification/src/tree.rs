//! The two tree shapes: the modelled concrete syntax tree that a parser
//! produces, and the simplified tree that this library builds from it.

use vstd::prelude::*;

verus! {

/// One node of a concrete syntax tree, as handed over by a parsing engine:
/// a kind label, the byte range the node spans in the source text, and its
/// children in source order.
pub struct SyntaxNode {
    pub kind: String,
    pub start_byte: usize,
    pub end_byte: usize,
    pub children: Vec<SyntaxNode>,
}

/// One node of the simplified tree: the kind label kept verbatim, an optional
/// name (the source substring the node spans, for identifier- and type-like
/// kinds), and the simplified children, comments elided.
#[derive(Debug, PartialEq)]
pub struct CodeNode {
    pub kind: String,
    pub name: Option<String>,
    pub children: Vec<CodeNode>,
}

/// Mathematical model of a [`SyntaxNode`].
pub struct SynTree {
    pub kind: Seq<char>,
    pub start: int,
    pub end: int,
    pub children: Seq<SynTree>,
}

/// Mathematical model of a [`CodeNode`].
pub struct CodeTree {
    pub kind: Seq<char>,
    pub name: Option<Seq<char>>,
    pub children: Seq<CodeTree>,
}

pub open spec fn view_syntax(n: SyntaxNode) -> SynTree
    decreases n, 1int,
{
    SynTree {
        kind: n.kind@,
        start: n.start_byte as int,
        end: n.end_byte as int,
        children: view_syntax_seq(n.children@),
    }
}

pub open spec fn view_syntax_seq(s: Seq<SyntaxNode>) -> Seq<SynTree>
    decreases s, 0int,
{
    if s.len() == 0 {
        Seq::empty()
    } else {
        view_syntax_seq(s.drop_last()).push(view_syntax(s.last()))
    }
}

impl View for SyntaxNode {
    type V = SynTree;

    open spec fn view(&self) -> SynTree {
        view_syntax(*self)
    }
}

pub open spec fn view_code(c: CodeNode) -> CodeTree
    decreases c, 1int,
{
    CodeTree {
        kind: c.kind@,
        name: match c.name {
            Some(s) => Some(s@),
            None => None,
        },
        children: view_code_seq(c.children@),
    }
}

pub open spec fn view_code_seq(s: Seq<CodeNode>) -> Seq<CodeTree>
    decreases s, 0int,
{
    if s.len() == 0 {
        Seq::empty()
    } else {
        view_code_seq(s.drop_last()).push(view_code(s.last()))
    }
}

impl View for CodeNode {
    type V = CodeTree;

    open spec fn view(&self) -> CodeTree {
        view_code(*self)
    }
}

} // verus!
