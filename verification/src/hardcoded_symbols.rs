//! The hardcoded `using __intrinsics__.Handle;` declaration.

use vstd::prelude::*;

use crate::node::{node_text, node_wf, Kind, Node};
use crate::preproc::{insert_break, spec_break_of};
use crate::writers::{write_node, writer_core, Writer};

verus! {

/// The rendering of a hardcoded symbol's pieces: its own text, `;`
/// dropped (it is appended once at the end).
pub open spec fn render_hardcoded_items(n: Node, src: Seq<char>, j: int) -> Seq<char>
    decreases n.children@.len() - j,
{
    if j < 0 || j >= n.children@.len() {
        Seq::empty()
    } else {
        let c = n.children@[j];
        let piece = match c.kind {
            Kind::KwUsingIntrinsicsHandle => node_text(c, src),
            _ => Seq::empty(),
        };
        piece + render_hardcoded_items(n, src, j + 1)
    }
}

/// Writes a hardcoded symbol verbatim, followed by `;` and the break
/// decision.
pub fn write_hardcoded_symbol(parent: &Node, i: usize, writer: &mut Writer)
    requires
        i < parent.children@.len(),
        node_wf(parent.children@[i as int], old(writer).source@.len()),
    ensures
        final(writer).output@ == old(writer).output@
            + render_hardcoded_items(parent.children@[i as int], old(writer).source@, 0)
            + seq![';'] + spec_break_of(*parent, i as int),
        writer_core(*final(writer)) == writer_core(*old(writer)),
        final(writer).indent == old(writer).indent,
{
    let node = &parent.children[i];
    let ghost src = old(writer).source@;
    let ghost base = old(writer).output@;
    let ghost full = render_hardcoded_items(parent.children@[i as int], src, 0);
    let mut j: usize = 0;
    while j < node.children.len()
        invariant
            j <= node.children@.len(),
            i < parent.children@.len(),
            *node == parent.children@[i as int],
            node_wf(*node, writer.source@.len()),
            writer.source@ == src,
            writer.output@ + render_hardcoded_items(*node, src, j as int) == base + full,
            writer_core(*writer) == writer_core(*old(writer)),
            writer.indent == old(writer).indent,
        decreases node.children@.len() - j,
    {
        let kind = node.children[j].kind;
        match kind {
            Kind::KwUsingIntrinsicsHandle => write_node(&node.children[j], writer),
            Kind::Semicolon => {},
            _ => {},
        }
        proof {
            assert(writer.output@ + render_hardcoded_items(*node, src, j + 1)
                =~= base + full);
        }
        j = j + 1;
    }
    writer.push(';');
    insert_break(parent, i, writer);
    proof {
        assert(final(writer).output@ =~= base + full + seq![';']
            + spec_break_of(*parent, i as int));
    }
}

} // verus!
