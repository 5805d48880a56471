//! Typedef and typeset declarations.
//!
//! `typedef Name = function ReturnType(args);` and
//! `typeset Name { function ReturnType(args); … };`, the typeset brace
//! governed by its own brace-wrapping setting.

use vstd::prelude::*;

use crate::expressions::{
    render_dimension, render_fixed_dimension, write_dimension, write_fixed_dimension,
};
use crate::functions::{
    render_arg_decls_items, spec_decl_breaks, write_argument_declarations, write_decl_breaks,
};
use crate::node::{
    lemma_child_decreases, next_sibling_kind, node_text, node_wf, Kind, Node,
};
use crate::settings::Settings;
use crate::variables::{render_type, write_type};
use crate::writers::{
    nl, repeat_seq, sp, write_comment, write_node, writer_core, Writer,
};

verus! {

/// The rendering of a function-type expression's pieces at a given
/// indent: `function `, the return type, its dimensions and the argument
/// list.
pub open spec fn render_typedef_expr_items(n: Node, src: Seq<char>, j: int) -> Seq<char>
    decreases n, 5int, n.children@.len() - j
        via render_typedef_expr_items_dec
{
    if j < 0 || j >= n.children@.len() {
        Seq::empty()
    } else {
        let c = n.children@[j];
        let piece = match c.kind {
            Kind::KwFunction => "function "@,
            Kind::Type => render_type(n, j, src),
            Kind::Dimension => render_dimension(n, j, true),
            Kind::FixedDimension => render_fixed_dimension(n, j, src, true),
            Kind::ArgumentDeclarations => render_arg_decls_items(c, src, 0),
            _ => Seq::empty(),
        };
        piece + render_typedef_expr_items(n, src, j + 1)
    }
}

/// The whole rendering of a function-type expression: the current indent
/// followed by its pieces.
pub open spec fn render_typedef_expr(
    n: Node, src: Seq<char>, indent: nat, istr: Seq<char>,
) -> Seq<char> {
    repeat_seq(istr, indent) + render_typedef_expr_items(n, src, 0)
}

/// The rendering of a typedef's pieces at a given indent.
pub open spec fn render_typedef_items(
    n: Node, src: Seq<char>, indent: nat, istr: Seq<char>, j: int,
) -> Seq<char>
    decreases n, 6int, n.children@.len() - j
        via render_typedef_items_dec
{
    if j < 0 || j >= n.children@.len() {
        Seq::empty()
    } else {
        let c = n.children@[j];
        let piece = match c.kind {
            Kind::KwTypedef => "typedef "@,
            Kind::Symbol => node_text(c, src),
            Kind::Equals => " = "@,
            Kind::TypedefExpression => render_typedef_expr(c, src, indent, istr),
            _ => Seq::empty(),
        };
        piece + render_typedef_items(n, src, indent, istr, j + 1)
    }
}

/// Writes a typedef: leading blank lines, `typedef Name = `, its
/// function-type expression, then `;`.
pub fn write_typedef(parent: &Node, i: usize, writer: &mut Writer)
    requires
        i < parent.children@.len(),
        node_wf(parent.children@[i as int], old(writer).source@.len()),
    ensures
        final(writer).output@ == old(writer).output@
            + spec_decl_breaks(*parent, i as int,
                old(writer).settings.breaks_before_function_decl as nat)
            + render_typedef_items(parent.children@[i as int], old(writer).source@,
                old(writer).indent as nat, old(writer).indent_string@, 0)
            + seq![';'] + nl(),
        writer_core(*final(writer)) == writer_core(*old(writer)),
        final(writer).indent == old(writer).indent,
        crate::writers::seq_ends_with(final(writer).output@, crate::writers::nl()),
{
    let nb_lines: usize = writer.settings.breaks_before_function_decl as usize;
    write_decl_breaks(parent, i, writer, nb_lines);
    let node = &parent.children[i];
    let ghost src = old(writer).source@;
    let ghost base = writer.output@;
    let ghost full = render_typedef_items(parent.children@[i as int], src,
        old(writer).indent as nat, old(writer).indent_string@, 0);
    let mut j: usize = 0;
    while j < node.children.len()
        invariant
            j <= node.children@.len(),
            i < parent.children@.len(),
            *node == parent.children@[i as int],
            node_wf(*node, writer.source@.len()),
            writer.source@ == src,
            writer.indent_string@ == old(writer).indent_string@,
            writer.output@ + render_typedef_items(*node, src,
                writer.indent as nat, writer.indent_string@, j as int) == base + full,
            writer_core(*writer) == writer_core(*old(writer)),
            writer.indent == old(writer).indent,
        decreases node.children@.len() - j,
    {
        let kind = node.children[j].kind;
        match kind {
            Kind::KwTypedef => writer.push_str("typedef "),
            Kind::Symbol => write_node(&node.children[j], writer),
            Kind::Equals => writer.push_str(" = "),
            Kind::TypedefExpression => write_typedef_expression(node, j, writer),
            Kind::Semicolon => {},
            _ => {},
        }
        proof {
            assert(writer.output@ + render_typedef_items(*node, src,
                writer.indent as nat, writer.indent_string@, j + 1) =~= base + full);
        }
        j = j + 1;
    }
    writer.push(';');
    writer.breakl();
    proof {
        assert(final(writer).output@ =~= old(writer).output@
            + spec_decl_breaks(*parent, i as int,
                old(writer).settings.breaks_before_function_decl as nat)
            + render_typedef_items(parent.children@[i as int], old(writer).source@,
                old(writer).indent as nat, old(writer).indent_string@, 0)
            + seq![';'] + nl());
    }
    proof {
        assert(crate::writers::seq_ends_with(writer.output@, crate::writers::nl())) by {
            assert(writer.output@.subrange(
                writer.output@.len() - 1, writer.output@.len() as int)
                =~= crate::writers::nl());
        }
    }
}

/// The buffer after a typeset's children from `j` on: each member ends
/// with `;` on its own line.
pub open spec fn render_typeset_items(
    n: Node, src: Seq<char>, st: Settings, entry: nat, istr: Seq<char>, j: int, ind: nat,
    buf: Seq<char>,
) -> Seq<char>
    decreases n, 8int, n.children@.len() - j
        via render_typeset_items_dec
{
    if j < 0 || j >= n.children@.len() {
        buf
    } else {
        let c = n.children@[j];
        match c.kind {
            Kind::KwTypeset => render_typeset_items(n, src, st, entry, istr, j + 1, ind,
                buf + "typeset "@),
            Kind::Symbol => render_typeset_items(n, src, st, entry, istr, j + 1, ind,
                buf + node_text(c, src)),
            Kind::LBrace => {
                let b2 = if st.brace_wrapping_before_typeset { buf + nl() } else { buf + sp() };
                render_typeset_items(n, src, st, entry, istr, j + 1,
                    crate::writers::inc_indent(ind), b2 + "{\n"@)
            },
            Kind::RBrace => render_typeset_items(n, src, st, entry, istr, j + 1, entry,
                buf + seq!['}']),
            Kind::TypedefExpression => {
                let piece = render_typedef_expr(c, src, ind, istr) + seq![';']
                    + (if crate::node::spec_next_sibling_kind(n, j) is Some { nl() }
                        else { Seq::empty() });
                render_typeset_items(n, src, st, entry, istr, j + 1, ind, buf + piece)
            },
            Kind::Comment => render_typeset_items(n, src, st, entry, istr, j + 1, ind,
                buf + crate::writers::spec_render_comment(n, j, src, ind, istr)),
            _ => render_typeset_items(n, src, st, entry, istr, j + 1, ind, buf),
        }
    }
}

/// Writes a typeset: leading blank lines, `typeset Name`, its members
/// each followed by `;` on their own line, then `};`.
pub fn write_typeset(parent: &Node, i: usize, writer: &mut Writer)
    requires
        i < parent.children@.len(),
        node_wf(parent.children@[i as int], old(writer).source@.len()),
    ensures
        final(writer).output@ == render_typeset_items(parent.children@[i as int],
            old(writer).source@, old(writer).settings, old(writer).indent as nat,
            old(writer).indent_string@, 0, old(writer).indent as nat,
            old(writer).output@ + spec_decl_breaks(*parent, i as int,
                old(writer).settings.breaks_before_function_decl as nat))
            + seq![';'] + nl(),
        writer_core(*final(writer)) == writer_core(*old(writer)),
        final(writer).indent == old(writer).indent,
{
    let nb_lines: usize = writer.settings.breaks_before_function_decl as usize;
    write_decl_breaks(parent, i, writer, nb_lines);
    let node = &parent.children[i];
    let entry_indent: usize = writer.indent;
    let ghost src = old(writer).source@;
    let ghost st = old(writer).settings;
    let ghost istr = old(writer).indent_string@;
    let ghost full = render_typeset_items(parent.children@[i as int], src, st,
        entry_indent as nat, istr, 0, entry_indent as nat, writer.output@);
    let mut j: usize = 0;
    while j < node.children.len()
        invariant
            j <= node.children@.len(),
            i < parent.children@.len(),
            *node == parent.children@[i as int],
            node_wf(*node, writer.source@.len()),
            writer.source@ == src,
            writer.settings == st,
            writer.indent_string@ == istr,
            render_typeset_items(*node, src, st, entry_indent as nat, istr, j as int,
                writer.indent as nat, writer.output@) == full,
            writer_core(*writer) == writer_core(*old(writer)),
        decreases node.children@.len() - j,
    {
        let ghost pre = writer.output@;
        let kind = node.children[j].kind;
        match kind {
            Kind::KwTypeset => writer.push_str("typeset "),
            Kind::Symbol => write_node(&node.children[j], writer),
            Kind::LBrace => {
                if writer.settings.brace_wrapping_before_typeset {
                    writer.breakl();
                } else {
                    writer.push(' ');
                }
                writer.push_str("{\n");
                writer.indent_inc();
            },
            Kind::RBrace => {
                writer.push('}');
                writer.indent = entry_indent;
            },
            Kind::TypedefExpression => {
                let next_kind = next_sibling_kind(node, j);
                write_typedef_expression(node, j, writer);
                writer.push(';');
                if next_kind.is_some() {
                    writer.breakl();
                }
                proof {
                    assert(writer.output@ =~= pre
                        + (render_typedef_expr(node.children@[j as int], src,
                            writer.indent as nat, istr) + seq![';']
                            + (if crate::node::spec_next_sibling_kind(*node, j as int)
                                is Some { nl() } else { Seq::<char>::empty() })));
                }
            },
            Kind::Comment => write_comment(node, j, writer),
            Kind::Semicolon => {},
            _ => {},
        }
        proof {
            assert(render_typeset_items(*node, src, st, entry_indent as nat, istr, j + 1,
                writer.indent as nat, writer.output@) == full);
        }
        j = j + 1;
    }
    writer.push(';');
    writer.breakl();
    writer.indent = entry_indent;
    proof {
        assert(final(writer).output@ =~= full + seq![';'] + nl());
    }
}

/// Writes one function-type expression:
/// `function ReturnType(args)` at the current indent.
pub fn write_typedef_expression(parent: &Node, i: usize, writer: &mut Writer)
    requires
        i < parent.children@.len(),
        node_wf(parent.children@[i as int], old(writer).source@.len()),
    ensures
        final(writer).output@ == old(writer).output@
            + render_typedef_expr(parent.children@[i as int], old(writer).source@,
                old(writer).indent as nat, old(writer).indent_string@),
        writer_core(*final(writer)) == writer_core(*old(writer)),
        final(writer).indent == old(writer).indent,
{
    let node = &parent.children[i];
    writer.write_indent();
    let ghost src = old(writer).source@;
    let ghost base = writer.output@;
    let ghost full = render_typedef_expr_items(parent.children@[i as int], src, 0);
    let mut j: usize = 0;
    while j < node.children.len()
        invariant
            j <= node.children@.len(),
            i < parent.children@.len(),
            *node == parent.children@[i as int],
            node_wf(*node, writer.source@.len()),
            writer.source@ == src,
            writer.output@ + render_typedef_expr_items(*node, src, j as int) == base + full,
            writer_core(*writer) == writer_core(*old(writer)),
            writer.indent == old(writer).indent,
        decreases node.children@.len() - j,
    {
        let kind = node.children[j].kind;
        match kind {
            Kind::KwFunction => writer.push_str("function "),
            Kind::Type => write_type(node, j, writer),
            Kind::Dimension => write_dimension(node, j, true, writer),
            Kind::FixedDimension => write_fixed_dimension(node, j, true, writer),
            Kind::ArgumentDeclarations => write_argument_declarations(node, j, writer),
            Kind::LParen | Kind::RParen => {},
            _ => {},
        }
        proof {
            assert(writer.output@ + render_typedef_expr_items(*node, src, j + 1)
                =~= base + full);
        }
        j = j + 1;
    }
    proof {
        assert(final(writer).output@ =~= old(writer).output@
            + render_typedef_expr(parent.children@[i as int], old(writer).source@,
                old(writer).indent as nat, old(writer).indent_string@));
    }
}

#[via_fn]
proof fn render_typedef_expr_items_dec(n: Node, src: Seq<char>, j: int) {
    if 0 <= j < n.children@.len() {
        lemma_child_decreases(n, j);
    }
}

#[via_fn]
proof fn render_typedef_items_dec(
    n: Node, src: Seq<char>, indent: nat, istr: Seq<char>, j: int,
) {
    if 0 <= j < n.children@.len() {
        lemma_child_decreases(n, j);
    }
}

#[via_fn]
proof fn render_typeset_items_dec(
    n: Node, src: Seq<char>, st: Settings, entry: nat, istr: Seq<char>, j: int, ind: nat,
    buf: Seq<char>,
) {
    if 0 <= j < n.children@.len() {
        lemma_child_decreases(n, j);
    }
}

} // verus!