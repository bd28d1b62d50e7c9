//! The guarantees of the simplifier, stated and proved once and for all:
//! structural fidelity of the node count, preservation of child order,
//! exactness of the naming rule, idempotence of comment filtering, and
//! determinism.

use vstd::prelude::*;
use vstd::utf8::{decode_utf8, decode_utf8_encode_utf8, encode_utf8};

use crate::simplify::{is_comment, named_kind, simplify_children, simplify_spec, spec_extract};
use crate::tree::{CodeNode, CodeTree, SynTree, SyntaxNode};

verus! {

/// How many nodes a syntax tree holds.
pub open spec fn node_count(t: SynTree) -> nat
    decreases t, 1int,
{
    1 + node_count_seq(t.children)
}

pub open spec fn node_count_seq(s: Seq<SynTree>) -> nat
    decreases s, 0int,
{
    if s.len() == 0 {
        0
    } else {
        node_count_seq(s.drop_last()) + node_count(s.last())
    }
}

/// How many nodes a simplified tree holds.
pub open spec fn code_count(t: CodeTree) -> nat
    decreases t, 1int,
{
    1 + code_count_seq(t.children)
}

pub open spec fn code_count_seq(s: Seq<CodeTree>) -> nat
    decreases s, 0int,
{
    if s.len() == 0 {
        0
    } else {
        code_count_seq(s.drop_last()) + code_count(s.last())
    }
}

/// How many nodes the simplifier elides from `t`: every comment child,
/// anywhere in the tree, together with all its descendants.
pub open spec fn elided_count(t: SynTree) -> nat
    decreases t, 1int,
{
    elided_count_seq(t.children)
}

pub open spec fn elided_count_seq(s: Seq<SynTree>) -> nat
    decreases s, 0int,
{
    if s.len() == 0 {
        0
    } else {
        elided_count_seq(s.drop_last()) + if is_comment(s.last()) {
            node_count(s.last())
        } else {
            elided_count(s.last())
        }
    }
}

/// `t` with every comment child, anywhere, removed together with its subtree.
pub open spec fn strip_comments(t: SynTree) -> SynTree
    decreases t, 1int,
{
    SynTree { kind: t.kind, start: t.start, end: t.end, children: strip_children(t.children) }
}

pub open spec fn strip_children(s: Seq<SynTree>) -> Seq<SynTree>
    decreases s, 0int,
{
    if s.len() == 0 {
        Seq::empty()
    } else {
        let rest = strip_children(s.drop_last());
        if is_comment(s.last()) {
            rest
        } else {
            rest.push(strip_comments(s.last()))
        }
    }
}

/// No node below the root of the simplified tree has kind `"comment"`.
pub open spec fn comment_free(t: CodeTree) -> bool
    decreases t, 1int,
{
    comment_free_seq(t.children)
}

pub open spec fn comment_free_seq(s: Seq<CodeTree>) -> bool
    decreases s, 0int,
{
    if s.len() == 0 {
        true
    } else {
        comment_free_seq(s.drop_last()) && s.last().kind != "comment"@ && comment_free(s.last())
    }
}

/// The kind labels of a sequence of simplified nodes, in order.
pub open spec fn code_kinds(s: Seq<CodeTree>) -> Seq<Seq<char>> {
    s.map_values(|c: CodeTree| c.kind)
}

/// The kind labels of a sequence of syntax nodes, in order.
pub open spec fn syn_kinds(s: Seq<SynTree>) -> Seq<Seq<char>> {
    s.map_values(|c: SynTree| c.kind)
}

/// Structural subset: the simplified tree holds exactly the original nodes
/// less those that comment filtering elides — none is synthesized, split or
/// merged.
pub proof fn lemma_structural_subset(t: SynTree, src: Seq<u8>)
    ensures
        code_count(simplify_spec(t, src)) + elided_count(t) == node_count(t),
    decreases t, 1int,
{
    lemma_structural_subset_seq(t.children, src);
}

proof fn lemma_structural_subset_seq(s: Seq<SynTree>, src: Seq<u8>)
    ensures
        code_count_seq(simplify_children(s, src)) + elided_count_seq(s) == node_count_seq(s),
    decreases s, 0int,
{
    if s.len() == 0 {
    } else {
        lemma_structural_subset_seq(s.drop_last(), src);
        if !is_comment(s.last()) {
            lemma_structural_subset(s.last(), src);
            let rest = simplify_children(s.drop_last(), src);
            let whole = rest.push(simplify_spec(s.last(), src));
            assert(whole.drop_last() =~= rest);
            assert(whole.last() == simplify_spec(s.last(), src));
        }
    }
}

/// Order preservation: the kinds of the simplified children are exactly the
/// kinds of the non-comment original children, in their original order.
pub proof fn lemma_order_preservation(t: SynTree, src: Seq<u8>)
    ensures
        code_kinds(simplify_spec(t, src).children) == syn_kinds(
            t.children.filter(|c: SynTree| !is_comment(c)),
        ),
{
    lemma_order_preservation_seq(t.children, src);
}

proof fn lemma_order_preservation_seq(s: Seq<SynTree>, src: Seq<u8>)
    ensures
        code_kinds(simplify_children(s, src)) == syn_kinds(s.filter(|c: SynTree| !is_comment(c))),
    decreases s, 0int,
{
    reveal(Seq::filter);
    if s.len() == 0 {
        assert(code_kinds(Seq::empty()) =~= syn_kinds(s.filter(|c: SynTree| !is_comment(c))));
    } else {
        lemma_order_preservation_seq(s.drop_last(), src);
        let rest = simplify_children(s.drop_last(), src);
        let kept = s.drop_last().filter(|c: SynTree| !is_comment(c));
        if is_comment(s.last()) {
        } else {
            let whole = rest.push(simplify_spec(s.last(), src));
            assert(whole.drop_last() =~= rest);
            assert(whole.last() == simplify_spec(s.last(), src));
            assert(code_kinds(whole) =~= code_kinds(rest).push(simplify_spec(s.last(), src).kind));
            assert(syn_kinds(kept.push(s.last())) =~= syn_kinds(kept).push(s.last().kind));
        }
    }
}

/// Naming correctness: a node of a named kind carries, whenever extraction
/// succeeds, exactly the source bytes its range spans, decoded; every other
/// node carries no name.
pub proof fn lemma_naming_correctness(t: SynTree, src: Seq<u8>)
    ensures
        !named_kind(t.kind) ==> simplify_spec(t, src).name is None,
        named_kind(t.kind) ==> simplify_spec(t, src).name == spec_extract(src, t.start, t.end),
        named_kind(t.kind) && spec_extract(src, t.start, t.end) is Some ==> {
            &&& simplify_spec(t, src).name == Some(decode_utf8(src.subrange(t.start, t.end)))
            &&& encode_utf8(decode_utf8(src.subrange(t.start, t.end))) == src.subrange(
                t.start,
                t.end,
            )
        },
{
    if named_kind(t.kind) && spec_extract(src, t.start, t.end) is Some {
        decode_utf8_encode_utf8(src.subrange(t.start, t.end));
    }
}

/// No node of `t`, at any depth, carries a name unless its kind satisfies
/// the naming predicate.
pub open spec fn named_only_on_named_kinds(t: CodeTree) -> bool
    decreases t, 1int,
{
    (t.name is Some ==> named_kind(t.kind)) && named_only_on_named_kinds_seq(t.children)
}

pub open spec fn named_only_on_named_kinds_seq(s: Seq<CodeTree>) -> bool
    decreases s, 0int,
{
    if s.len() == 0 {
        true
    } else {
        named_only_on_named_kinds_seq(s.drop_last()) && named_only_on_named_kinds(s.last())
    }
}

/// Naming correctness, tree-wide: nowhere in the simplified tree does a name
/// sit on a node whose kind does not match the naming predicate.
pub proof fn lemma_no_stray_names(t: SynTree, src: Seq<u8>)
    ensures
        named_only_on_named_kinds(simplify_spec(t, src)),
    decreases t, 1int,
{
    lemma_no_stray_names_seq(t.children, src);
}

proof fn lemma_no_stray_names_seq(s: Seq<SynTree>, src: Seq<u8>)
    ensures
        named_only_on_named_kinds_seq(simplify_children(s, src)),
    decreases s, 0int,
{
    if s.len() == 0 {
    } else {
        lemma_no_stray_names_seq(s.drop_last(), src);
        if !is_comment(s.last()) {
            lemma_no_stray_names(s.last(), src);
            let rest = simplify_children(s.drop_last(), src);
            let whole = rest.push(simplify_spec(s.last(), src));
            assert(whole.drop_last() =~= rest);
            assert(whole.last() == simplify_spec(s.last(), src));
        }
    }
}

/// Idempotence of filtering: removing every comment subtree beforehand does
/// not change what the simplifier produces — comments, once removed, never
/// reappear.
pub proof fn lemma_filter_idempotent(t: SynTree, src: Seq<u8>)
    ensures
        simplify_spec(strip_comments(t), src) == simplify_spec(t, src),
    decreases t, 1int,
{
    lemma_filter_idempotent_seq(t.children, src);
}

proof fn lemma_filter_idempotent_seq(s: Seq<SynTree>, src: Seq<u8>)
    ensures
        simplify_children(strip_children(s), src) == simplify_children(s, src),
    decreases s, 0int,
{
    if s.len() == 0 {
    } else {
        lemma_filter_idempotent_seq(s.drop_last(), src);
        if !is_comment(s.last()) {
            lemma_filter_idempotent(s.last(), src);
            let rest = strip_children(s.drop_last());
            let whole = rest.push(strip_comments(s.last()));
            assert(whole.drop_last() =~= rest);
            assert(whole.last() == strip_comments(s.last()));
        }
    }
}

/// The simplified tree holds no comment node below its root.
pub proof fn lemma_no_comment_remains(t: SynTree, src: Seq<u8>)
    ensures
        comment_free(simplify_spec(t, src)),
    decreases t, 1int,
{
    lemma_no_comment_remains_seq(t.children, src);
}

proof fn lemma_no_comment_remains_seq(s: Seq<SynTree>, src: Seq<u8>)
    ensures
        comment_free_seq(simplify_children(s, src)),
    decreases s, 0int,
{
    if s.len() == 0 {
    } else {
        lemma_no_comment_remains_seq(s.drop_last(), src);
        if !is_comment(s.last()) {
            lemma_no_comment_remains(s.last(), src);
            let rest = simplify_children(s.drop_last(), src);
            let whole = rest.push(simplify_spec(s.last(), src));
            assert(whole.drop_last() =~= rest);
            assert(whole.last() == simplify_spec(s.last(), src));
        }
    }
}

/// Determinism: two simplification results of the same tree against the same
/// source text denote the same simplified tree.
pub proof fn lemma_deterministic(n: SyntaxNode, src: Seq<u8>, r1: CodeNode, r2: CodeNode)
    requires
        r1@ == simplify_spec(n@, src),
        r2@ == simplify_spec(n@, src),
    ensures
        r1@ == r2@,
{
}

} // verus!
