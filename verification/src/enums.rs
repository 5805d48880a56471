//! Enum declarations.
//!
//! `enum [Name] [(: type) | (op= expr)] { entries }`: each entry stands
//! on its own indented line and is followed by a `,`, the last one
//! included; the opening brace follows the enum brace-wrapping setting.

use vstd::prelude::*;

use crate::expressions::{
    render_expr, render_fixed_dimension, write_expression, write_fixed_dimension,
};
use crate::node::{lemma_child_decreases, node_text, node_wf, Kind, Node};
use crate::settings::Settings;
use crate::writers::{
    inc_indent, nl, repeat_seq, sp, spec_is_expression, write_node, writer_core, Writer,
};

verus! {

/// The rendering of one enum entry's pieces.
pub open spec fn render_enum_entry_items(n: Node, src: Seq<char>, j: int) -> Seq<char>
    decreases n, 5int, n.children@.len() - j
        via render_enum_entry_items_dec
{
    if j < 0 || j >= n.children@.len() {
        Seq::empty()
    } else {
        let c = n.children@[j];
        let piece = match c.kind {
            Kind::BuiltinType | Kind::Symbol => node_text(c, src),
            Kind::Colon => ": "@,
            Kind::FixedDimension => render_fixed_dimension(n, j, src, false),
            Kind::Equals => " = "@,
            _ => {
                if spec_is_expression(c.kind) {
                    render_expr(c, src)
                } else {
                    Seq::empty()
                }
            },
        };
        piece + render_enum_entry_items(n, src, j + 1)
    }
}

/// The buffer after an enum's entry list from `j` on.
pub open spec fn render_enum_entries_items(
    n: Node, src: Seq<char>, st: Settings, entry: nat, istr: Seq<char>, j: int, ind: nat,
    buf: Seq<char>,
) -> Seq<char>
    decreases n, 8int, n.children@.len() - j
        via render_enum_entries_items_dec
{
    if j < 0 || j >= n.children@.len() {
        buf
    } else {
        let c = n.children@[j];
        match c.kind {
            Kind::LBrace => {
                let b2 = if st.brace_wrapping_before_enum { buf + nl() } else { buf + sp() };
                render_enum_entries_items(n, src, st, entry, istr, j + 1, inc_indent(ind),
                    b2 + "{\n"@)
            },
            Kind::RBrace => render_enum_entries_items(n, src, st, entry, istr, j + 1, entry,
                buf + seq!['}']),
            Kind::EnumEntry => render_enum_entries_items(n, src, st, entry, istr, j + 1, ind,
                buf + repeat_seq(istr, ind) + render_enum_entry_items(c, src, 0)
                    + seq![','] + nl()),
            Kind::Comma => render_enum_entries_items(n, src, st, entry, istr, j + 1, ind, buf),
            Kind::OpEndsEq => render_enum_entries_items(n, src, st, entry, istr, j + 1, ind,
                buf + node_text(c, src) + sp()),
            _ => {
                if spec_is_expression(c.kind) {
                    render_enum_entries_items(n, src, st, entry, istr, j + 1, ind,
                        buf + render_expr(c, src))
                } else {
                    render_enum_entries_items(n, src, st, entry, istr, j + 1, ind, buf)
                }
            },
        }
    }
}

/// The buffer after an enum declaration's children from `j` on.
pub open spec fn render_enum_items(
    n: Node, src: Seq<char>, st: Settings, indent: nat, istr: Seq<char>, j: int,
    buf: Seq<char>,
) -> Seq<char>
    decreases n, 9int, n.children@.len() - j
        via render_enum_items_dec
{
    if j < 0 || j >= n.children@.len() {
        buf
    } else {
        let c = n.children@[j];
        match c.kind {
            Kind::KwEnum => render_enum_items(n, src, st, indent, istr, j + 1,
                buf + "enum "@),
            Kind::Symbol | Kind::Colon | Kind::LParen | Kind::Semicolon =>
                render_enum_items(n, src, st, indent, istr, j + 1, buf + node_text(c, src)),
            Kind::RParen => render_enum_items(n, src, st, indent, istr, j + 1, buf + ") "@),
            Kind::EnumEntries => render_enum_items(n, src, st, indent, istr, j + 1,
                render_enum_entries_items(c, src, st, indent, istr, 0, indent, buf)),
            Kind::OpEndsEq => render_enum_items(n, src, st, indent, istr, j + 1,
                buf + node_text(c, src)),
            _ => {
                if spec_is_expression(c.kind) {
                    render_enum_items(n, src, st, indent, istr, j + 1,
                        buf + render_expr(c, src))
                } else {
                    render_enum_items(n, src, st, indent, istr, j + 1, buf)
                }
            },
        }
    }
}

/// Writes an enum declaration: leading blank lines, the header, then its
/// entries, then a line break.
pub fn write_enum(parent: &Node, i: usize, writer: &mut Writer)
    requires
        i < parent.children@.len(),
        node_wf(parent.children@[i as int], old(writer).source@.len()),
    ensures
        final(writer).output@ == render_enum_items(parent.children@[i as int],
            old(writer).source@, old(writer).settings, old(writer).indent as nat,
            old(writer).indent_string@, 0,
            old(writer).output@ + crate::functions::spec_decl_breaks(*parent, i as int,
                old(writer).settings.breaks_before_enum as nat)) + nl(),
        writer_core(*final(writer)) == writer_core(*old(writer)),
        final(writer).indent == old(writer).indent,
{
    let nb_lines: usize = writer.settings.breaks_before_enum as usize;
    crate::functions::write_decl_breaks(parent, i, writer, nb_lines);
    let node = &parent.children[i];
    let ghost src = old(writer).source@;
    let ghost st = old(writer).settings;
    let ghost istr = old(writer).indent_string@;
    let ghost indent0 = old(writer).indent as nat;
    let ghost full = render_enum_items(parent.children@[i as int], src, st, indent0, istr,
        0, writer.output@);
    let mut j: usize = 0;
    while j < node.children.len()
        invariant
            j <= node.children@.len(),
            i < parent.children@.len(),
            *node == parent.children@[i as int],
            node_wf(*node, writer.source@.len()),
            writer.source@ == src,
            writer.settings == st,
            writer.indent_string@ == istr,
            writer.indent as nat == indent0,
            render_enum_items(*node, src, st, indent0, istr, j as int, writer.output@)
                == full,
            writer_core(*writer) == writer_core(*old(writer)),
        decreases node.children@.len() - j,
    {
        let kind = node.children[j].kind;
        match kind {
            Kind::KwEnum => writer.push_str("enum "),
            Kind::Symbol | Kind::Colon | Kind::LParen | Kind::Semicolon => {
                write_node(&node.children[j], writer);
            },
            Kind::RParen => writer.push_str(") "),
            Kind::EnumEntries => write_enum_entries(node, j, writer),
            Kind::OpEndsEq => write_node(&node.children[j], writer),
            _ => {
                if writer.is_expression(kind) {
                    write_expression(&node.children[j], writer);
                }
            },
        }
        proof {
            assert(render_enum_items(*node, src, st, indent0, istr, j + 1, writer.output@)
                == full);
        }
        j = j + 1;
    }
    writer.breakl();
    proof {
        assert(final(writer).output@ =~= full + nl());
    }
}

/// Writes the braced entry list of an enum; each entry ends with a `,`.
pub fn write_enum_entries(parent: &Node, i: usize, writer: &mut Writer)
    requires
        i < parent.children@.len(),
        node_wf(parent.children@[i as int], old(writer).source@.len()),
    ensures
        final(writer).output@ == render_enum_entries_items(parent.children@[i as int],
            old(writer).source@, old(writer).settings, old(writer).indent as nat,
            old(writer).indent_string@, 0, old(writer).indent as nat,
            old(writer).output@),
        writer_core(*final(writer)) == writer_core(*old(writer)),
        final(writer).indent == old(writer).indent,
{
    let node = &parent.children[i];
    let entry_indent: usize = writer.indent;
    let ghost src = old(writer).source@;
    let ghost st = old(writer).settings;
    let ghost istr = old(writer).indent_string@;
    let ghost full = render_enum_entries_items(parent.children@[i as int], src, st,
        entry_indent as nat, istr, 0, entry_indent as nat, old(writer).output@);
    let mut j: usize = 0;
    while j < node.children.len()
        invariant
            j <= node.children@.len(),
            i < parent.children@.len(),
            *node == parent.children@[i as int],
            node_wf(*node, writer.source@.len()),
            writer.source@ == src,
            writer.settings == st,
            writer.indent_string@ == istr,
            render_enum_entries_items(*node, src, st, entry_indent as nat, istr, j as int,
                writer.indent as nat, writer.output@) == full,
            writer_core(*writer) == writer_core(*old(writer)),
        decreases node.children@.len() - j,
    {
        let ghost pre = writer.output@;
        let kind = node.children[j].kind;
        match kind {
            Kind::LBrace => {
                if writer.settings.brace_wrapping_before_enum {
                    writer.breakl();
                } else {
                    writer.push(' ');
                }
                writer.push_str("{\n");
                writer.indent_inc();
            },
            Kind::RBrace => {
                writer.push('}');
                writer.indent = entry_indent;
            },
            Kind::EnumEntry => write_enum_entry(node, j, writer),
            Kind::Comma => {},
            Kind::OpEndsEq => {
                write_node(&node.children[j], writer);
                writer.push(' ');
                proof {
                    assert(writer.output@ =~= pre
                        + node_text(node.children@[j as int], src) + sp());
                }
            },
            _ => {
                if writer.is_expression(kind) {
                    write_expression(&node.children[j], writer);
                }
            },
        }
        proof {
            assert(render_enum_entries_items(*node, src, st, entry_indent as nat, istr,
                j + 1, writer.indent as nat, writer.output@) == full);
        }
        j = j + 1;
    }
    writer.indent = entry_indent;
}

/// Writes one enum entry on its own indented line, ending with a `,`.
pub fn write_enum_entry(parent: &Node, i: usize, writer: &mut Writer)
    requires
        i < parent.children@.len(),
        node_wf(parent.children@[i as int], old(writer).source@.len()),
    ensures
        final(writer).output@ == old(writer).output@
            + repeat_seq(old(writer).indent_string@, old(writer).indent as nat)
            + render_enum_entry_items(parent.children@[i as int], old(writer).source@, 0)
            + seq![','] + nl(),
        writer_core(*final(writer)) == writer_core(*old(writer)),
        final(writer).indent == old(writer).indent,
{
    let node = &parent.children[i];
    writer.write_indent();
    let ghost src = old(writer).source@;
    let ghost base = writer.output@;
    let ghost full = render_enum_entry_items(parent.children@[i as int], src, 0);
    let mut j: usize = 0;
    while j < node.children.len()
        invariant
            j <= node.children@.len(),
            i < parent.children@.len(),
            *node == parent.children@[i as int],
            node_wf(*node, writer.source@.len()),
            writer.source@ == src,
            writer.output@ + render_enum_entry_items(*node, src, j as int) == base + full,
            writer_core(*writer) == writer_core(*old(writer)),
            writer.indent == old(writer).indent,
        decreases node.children@.len() - j,
    {
        let kind = node.children[j].kind;
        match kind {
            Kind::BuiltinType | Kind::Symbol => write_node(&node.children[j], writer),
            Kind::Colon => writer.push_str(": "),
            Kind::FixedDimension => write_fixed_dimension(node, j, false, writer),
            Kind::Equals => writer.push_str(" = "),
            _ => {
                if writer.is_expression(kind) {
                    write_expression(&node.children[j], writer);
                }
            },
        }
        proof {
            assert(writer.output@ + render_enum_entry_items(*node, src, j + 1)
                =~= base + full);
        }
        j = j + 1;
    }
    writer.push(',');
    writer.breakl();
    proof {
        assert(final(writer).output@ =~= old(writer).output@
            + repeat_seq(old(writer).indent_string@, old(writer).indent as nat)
            + render_enum_entry_items(parent.children@[i as int], old(writer).source@, 0)
            + seq![','] + nl());
    }
}

#[via_fn]
proof fn render_enum_entry_items_dec(n: Node, src: Seq<char>, j: int) {
    if 0 <= j < n.children@.len() {
        lemma_child_decreases(n, j);
    }
}

#[via_fn]
proof fn render_enum_entries_items_dec(
    n: Node, src: Seq<char>, st: Settings, entry: nat, istr: Seq<char>, j: int, ind: nat,
    buf: Seq<char>,
) {
    if 0 <= j < n.children@.len() {
        lemma_child_decreases(n, j);
    }
}

#[via_fn]
proof fn render_enum_items_dec(
    n: Node, src: Seq<char>, st: Settings, indent: nat, istr: Seq<char>, j: int,
    buf: Seq<char>,
) {
    if 0 <= j < n.children@.len() {
        lemma_child_decreases(n, j);
    }
}

} // verus!