//! The tree simplifier: the naming rule, the comment-filtering rule, and the
//! recursive walk that applies both, stated first as spec functions over the
//! mathematical trees and then implemented and proved.

use vstd::prelude::*;
use vstd::slice::{slice_subrange, slice_to_vec};
use vstd::utf8::{decode_utf8, valid_utf8};

use crate::text::{ends_with, str_ends_with, str_eq};
use crate::tree::{view_code_seq, view_syntax_seq, CodeNode, CodeTree, SynTree, SyntaxNode};

verus! {

/// A node of this kind is elided, together with its whole subtree, wherever
/// it occurs as a child.
pub open spec fn is_comment(t: SynTree) -> bool {
    t.kind == "comment"@
}

/// A node of such a kind carries the source text it spans as its name.
pub open spec fn named_kind(kind: Seq<char>) -> bool {
    ends_with(kind, "identifier"@) || ends_with(kind, "type"@)
}

/// What extracting the byte range `start..end` of `src` as text yields:
/// the decoded characters when the range lies inside `src` and holds valid
/// UTF-8, and nothing otherwise.
pub open spec fn spec_extract(src: Seq<u8>, start: int, end: int) -> Option<Seq<char>> {
    if 0 <= start <= end <= src.len() && valid_utf8(src.subrange(start, end)) {
        Some(decode_utf8(src.subrange(start, end)))
    } else {
        None
    }
}

/// The simplified form of the tree `t` against source text `src`: the kind is
/// kept verbatim, the name is the spanned source text exactly on nodes of a
/// named kind, and the children are the simplified non-comment children, in
/// their original order.
pub open spec fn simplify_spec(t: SynTree, src: Seq<u8>) -> CodeTree
    decreases t, 1int,
{
    CodeTree {
        kind: t.kind,
        name: if named_kind(t.kind) {
            spec_extract(src, t.start, t.end)
        } else {
            None
        },
        children: simplify_children(t.children, src),
    }
}

/// The simplified forms of the non-comment members of `s`, in order.
pub open spec fn simplify_children(s: Seq<SynTree>, src: Seq<u8>) -> Seq<CodeTree>
    decreases s, 0int,
{
    if s.len() == 0 {
        Seq::empty()
    } else {
        let rest = simplify_children(s.drop_last(), src);
        if is_comment(s.last()) {
            rest
        } else {
            rest.push(simplify_spec(s.last(), src))
        }
    }
}

/// Relies on `String::from_utf8`: it returns `Ok` exactly when the bytes are
/// valid UTF-8, and the string it then returns is those bytes decoded.
#[verifier::external_body]
fn bytes_to_string(v: Vec<u8>) -> (r: Option<String>)
    ensures
        r is Some <==> valid_utf8(v@),
        r matches Some(s) ==> s@ == decode_utf8(v@),
{
    match String::from_utf8(v) {
        Ok(s) => Some(s),
        Err(_) => None,
    }
}

/// Extract the byte range `start..end` of `source` as text; yields nothing
/// when the range is out of bounds or the bytes are not valid UTF-8.
pub fn extract_name(source: &Vec<u8>, start: usize, end: usize) -> (r: Option<String>)
    ensures
        match r {
            Some(s) => spec_extract(source@, start as int, end as int) == Some(s@),
            None => spec_extract(source@, start as int, end as int) is None,
        },
{
    if start <= end && end <= source.len() {
        let sub = slice_subrange(source.as_slice(), start, end);
        let bytes = slice_to_vec(sub);
        bytes_to_string(bytes)
    } else {
        None
    }
}

/// Simplify the syntax tree rooted at `node` against the source text
/// `source_code`, given as the bytes the tree's ranges index into.
pub fn to_code_node(node: &SyntaxNode, source_code: &Vec<u8>) -> (r: CodeNode)
    ensures
        r@ == simplify_spec(node@, source_code@),
    decreases *node,
{
    let kind_named = str_ends_with(node.kind.as_str(), "identifier") || str_ends_with(
        node.kind.as_str(),
        "type",
    );
    let name = if kind_named {
        extract_name(source_code, node.start_byte, node.end_byte)
    } else {
        None
    };

    let mut children: Vec<CodeNode> = Vec::new();
    let mut i: usize = 0;
    while i < node.children.len()
        invariant
            i <= node.children@.len(),
            view_code_seq(children@) == simplify_children(
                view_syntax_seq(node.children@.subrange(0, i as int)),
                source_code@,
            ),
        decreases node.children@.len() - i,
    {
        let ghost pre = node.children@.subrange(0, i as int);
        let ghost post = node.children@.subrange(0, i as int + 1);
        let ghost member = view_syntax_seq(pre).push(node.children@[i as int]@);
        proof {
            assert(post.drop_last() =~= pre);
            assert(post.last() == node.children@[i as int]);
            assert(view_syntax_seq(post) == member);
            assert(member.drop_last() =~= view_syntax_seq(pre));
            assert(member.last() == node.children@[i as int]@);
        }
        let child = &node.children[i];
        if !str_eq(child.kind.as_str(), "comment") {
            proof {
                assert(decreases_to!(*node => node.children@[i as int]));
            }
            let c = to_code_node(child, source_code);
            let ghost old_children = children@;
            children.push(c);
            proof {
                assert(children@.drop_last() =~= old_children);
                assert(children@.last() == c);
                assert(view_code_seq(children@) == view_code_seq(old_children).push(c@));
            }
        }
        i += 1;
    }
    proof {
        assert(node.children@.subrange(0, node.children@.len() as int) =~= node.children@);
    }

    let kind = node.kind.clone();
    CodeNode { kind, name, children }
}

} // verus!
