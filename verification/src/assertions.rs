//! `assert(...)` and `static_assert(...)` declarations.

use vstd::prelude::*;

use crate::expressions::{render_args, write_function_call_arguments};
use crate::node::{lemma_child_decreases, node_text, node_wf, Kind, Node};
use crate::preproc::{insert_break, spec_break_of};
use crate::writers::{
    spec_render_comment, write_comment, write_node, writer_core, Writer,
};

verus! {

/// The rendering of an assertion's pieces: the keyword's own text, the
/// argument list, any nested comment.
pub open spec fn render_assertion_items(
    n: Node, src: Seq<char>, indent: nat, istr: Seq<char>, j: int,
) -> Seq<char>
    decreases n, 5int, n.children@.len() - j
        via render_assertion_items_dec
{
    if j < 0 || j >= n.children@.len() {
        Seq::empty()
    } else {
        let c = n.children@[j];
        let piece = match c.kind {
            Kind::KwAssert | Kind::KwStaticAssert => node_text(c, src),
            Kind::FunctionCallArguments => render_args(c, src),
            Kind::Comment => spec_render_comment(n, j, src, indent, istr),
            _ => Seq::empty(),
        };
        piece + render_assertion_items(n, src, indent, istr, j + 1)
    }
}

/// Writes an assertion: the keyword, its argument list, `;`, then the
/// break decision.
pub fn write_assertion(parent: &Node, i: usize, writer: &mut Writer)
    requires
        i < parent.children@.len(),
        node_wf(parent.children@[i as int], old(writer).source@.len()),
    ensures
        final(writer).output@ == old(writer).output@
            + render_assertion_items(parent.children@[i as int], old(writer).source@,
                old(writer).indent as nat, old(writer).indent_string@, 0)
            + seq![';'] + spec_break_of(*parent, i as int),
        writer_core(*final(writer)) == writer_core(*old(writer)),
        final(writer).indent == old(writer).indent,
{
    let node = &parent.children[i];
    let ghost src = old(writer).source@;
    let ghost base = old(writer).output@;
    let ghost full = render_assertion_items(parent.children@[i as int], src,
        old(writer).indent as nat, old(writer).indent_string@, 0);
    let mut j: usize = 0;
    while j < node.children.len()
        invariant
            j <= node.children@.len(),
            i < parent.children@.len(),
            *node == parent.children@[i as int],
            node_wf(*node, writer.source@.len()),
            writer.source@ == src,
            writer.indent_string@ == old(writer).indent_string@,
            writer.output@ + render_assertion_items(*node, src,
                writer.indent as nat, writer.indent_string@, j as int) == base + full,
            writer_core(*writer) == writer_core(*old(writer)),
            writer.indent == old(writer).indent,
        decreases node.children@.len() - j,
    {
        let kind = node.children[j].kind;
        match kind {
            Kind::KwAssert | Kind::KwStaticAssert => write_node(&node.children[j], writer),
            Kind::FunctionCallArguments => {
                proof {
                    crate::node::lemma_child_wf(*node, writer.source@.len(), j as int);
                }
                write_function_call_arguments(&node.children[j], writer);
            },
            Kind::Comment => write_comment(node, j, writer),
            Kind::Semicolon => {},
            _ => {},
        }
        proof {
            assert(writer.output@ + render_assertion_items(*node, src,
                writer.indent as nat, writer.indent_string@, j + 1) =~= base + full);
        }
        j = j + 1;
    }
    writer.push(';');
    insert_break(parent, i, writer);
    proof {
        assert(final(writer).output@ =~= base + full + seq![';']
            + spec_break_of(*parent, i as int));
    }
}

#[via_fn]
proof fn render_assertion_items_dec(
    n: Node, src: Seq<char>, indent: nat, istr: Seq<char>, j: int,
) {
    if 0 <= j < n.children@.len() {
        lemma_child_decreases(n, j);
    }
}

} // verus!
