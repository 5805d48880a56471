//! Struct declarations (legacy form) and struct constructors.
//!
//! `struct Name { public|const type name dims; … }` and the
//! constructor-style `public Name = { key = expr, … };`.

use vstd::prelude::*;

use crate::expressions::{
    render_dimension, render_expr, render_fixed_dimension, write_dimension,
    write_expression, write_fixed_dimension,
};
use crate::node::{lemma_child_decreases, node_text, node_wf, Kind, Node};
use crate::writers::{
    inc_indent, repeat_seq, seq_ends_with, sp, spec_render_comment, write_comment,
    write_node, writer_core, Writer,
};

verus! {

/// The rendering of one struct field's pieces:
/// `public|const type name dims;`.
pub open spec fn render_struct_field_items(n: Node, src: Seq<char>, j: int) -> Seq<char>
    decreases n, 5int, n.children@.len() - j
        via render_struct_field_items_dec
{
    if j < 0 || j >= n.children@.len() {
        Seq::empty()
    } else {
        let c = n.children@[j];
        let piece = match c.kind {
            Kind::KwPublic => "public "@,
            Kind::KwConst => "const "@,
            Kind::Type => node_text(c, src),
            Kind::Symbol => sp() + node_text(c, src),
            Kind::FixedDimension => render_fixed_dimension(n, j, src, false),
            Kind::Dimension => render_dimension(n, j, false),
            Kind::Semicolon => seq![';'],
            _ => Seq::empty(),
        };
        piece + render_struct_field_items(n, src, j + 1)
    }
}

/// The text one `key = value,` line of a struct constructor appends;
/// `key` says whether the next symbol is a field name.
pub open spec fn render_sfv_items(
    n: Node, src: Seq<char>, indent: nat, istr: Seq<char>, j: int, key: bool,
) -> Seq<char>
    decreases n, 8int, n.children@.len() - j
        via render_sfv_items_dec
{
    if j < 0 || j >= n.children@.len() {
        Seq::empty()
    } else {
        let c = n.children@[j];
        match c.kind {
            Kind::Comment => seq!['\t'] + spec_render_comment(n, j, src, indent, istr)
                + render_sfv_items(n, src, indent, istr, j + 1, key),
            Kind::Symbol => {
                if key {
                    repeat_seq(istr, indent) + node_text(c, src)
                        + render_sfv_items(n, src, indent, istr, j + 1, false)
                } else {
                    node_text(c, src) + ",\n"@
                        + render_sfv_items(n, src, indent, istr, j + 1, true)
                }
            },
            Kind::Equals => " = "@ + render_sfv_items(n, src, indent, istr, j + 1, key),
            _ => render_expr(c, src) + ",\n"@
                + render_sfv_items(n, src, indent, istr, j + 1, key),
        }
    }
}

/// The buffer after a struct constructor's children from `j` on.
pub open spec fn render_struct_ctor_items(
    n: Node, src: Seq<char>, entry: nat, istr: Seq<char>, j: int, ind: nat, buf: Seq<char>,
) -> Seq<char>
    decreases n, 8int, n.children@.len() - j
        via render_struct_ctor_items_dec
{
    if j < 0 || j >= n.children@.len() {
        buf
    } else {
        let c = n.children@[j];
        match c.kind {
            Kind::Comment => render_struct_ctor_items(n, src, entry, istr, j + 1, ind,
                buf + seq!['\t'] + spec_render_comment(n, j, src, ind, istr)),
            Kind::StructFieldValue => render_struct_ctor_items(n, src, entry, istr, j + 1,
                ind, buf + render_sfv_items(c, src, ind, istr, 0, true)),
            Kind::LBrace => render_struct_ctor_items(n, src, entry, istr, j + 1,
                inc_indent(ind), buf + "{\n"@),
            Kind::RBrace => render_struct_ctor_items(n, src, entry, istr, j + 1, entry,
                buf + seq!['}']),
            Kind::Semicolon => render_struct_ctor_items(n, src, entry, istr, j + 1, ind,
                buf + seq![';']),
            _ => render_struct_ctor_items(n, src, entry, istr, j + 1, ind, buf),
        }
    }
}

/// The buffer after a whole struct constructor: its children, with a
/// `;` and newline supplied when the buffer does not already end in `;`.
pub open spec fn render_struct_constructor(
    parent: Node, i: int, src: Seq<char>, indent: nat, istr: Seq<char>, buf: Seq<char>,
) -> Seq<char> {
    let b = render_struct_ctor_items(parent.children@[i], src, indent, istr, 0, indent, buf);
    if seq_ends_with(b, ";"@) {
        b
    } else {
        b + ";\n"@
    }
}

/// The buffer after a constructor-style struct declaration's children
/// from `j` on.
pub open spec fn render_struct_decl_items(
    n: Node, src: Seq<char>, indent: nat, istr: Seq<char>, j: int, buf: Seq<char>,
) -> Seq<char>
    decreases n, 9int, n.children@.len() - j
        via render_struct_decl_items_dec
{
    if j < 0 || j >= n.children@.len() {
        buf
    } else {
        let c = n.children@[j];
        match c.kind {
            Kind::KwPublic | Kind::Symbol => render_struct_decl_items(n, src, indent, istr,
                j + 1, buf + node_text(c, src) + sp()),
            Kind::Comment => render_struct_decl_items(n, src, indent, istr, j + 1,
                buf + seq!['\t'] + spec_render_comment(n, j, src, indent, istr)),
            Kind::Equals => render_struct_decl_items(n, src, indent, istr, j + 1,
                buf + "=\n"@),
            Kind::StructConstructor => render_struct_decl_items(n, src, indent, istr, j + 1,
                render_struct_constructor(n, j, src, indent, istr, buf)),
            _ => render_struct_decl_items(n, src, indent, istr, j + 1, buf),
        }
    }
}

/// Writes a constructor-style struct declaration:
/// `public Name = { key = expr, … };`.
pub fn write_struct_declaration(parent: &Node, i: usize, writer: &mut Writer)
    requires
        i < parent.children@.len(),
        node_wf(parent.children@[i as int], old(writer).source@.len()),
    ensures
        final(writer).output@ == render_struct_decl_items(parent.children@[i as int],
            old(writer).source@, old(writer).indent as nat, old(writer).indent_string@,
            0, old(writer).output@),
        writer_core(*final(writer)) == writer_core(*old(writer)),
        final(writer).indent == old(writer).indent,
{
    let node = &parent.children[i];
    let ghost src = old(writer).source@;
    let ghost istr = old(writer).indent_string@;
    let ghost indent0 = old(writer).indent as nat;
    let ghost full = render_struct_decl_items(parent.children@[i as int], src, indent0,
        istr, 0, old(writer).output@);
    let mut j: usize = 0;
    while j < node.children.len()
        invariant
            j <= node.children@.len(),
            i < parent.children@.len(),
            *node == parent.children@[i as int],
            node_wf(*node, writer.source@.len()),
            writer.source@ == src,
            writer.indent_string@ == istr,
            writer.indent as nat == indent0,
            render_struct_decl_items(*node, src, indent0, istr, j as int, writer.output@)
                == full,
            writer_core(*writer) == writer_core(*old(writer)),
        decreases node.children@.len() - j,
    {
        let ghost pre = writer.output@;
        let kind = node.children[j].kind;
        match kind {
            Kind::KwPublic | Kind::Symbol => {
                write_node(&node.children[j], writer);
                writer.push(' ');
                proof {
                    assert(writer.output@ =~= pre
                        + node_text(node.children@[j as int], src) + sp());
                }
            },
            Kind::Comment => {
                writer.push('\t');
                write_comment(node, j, writer);
                proof {
                    assert(writer.output@ =~= pre + seq!['\t']
                        + spec_render_comment(*node, j as int, src, indent0, istr));
                }
            },
            Kind::Equals => writer.push_str("=\n"),
            Kind::StructConstructor => write_struct_constructor(node, j, writer),
            _ => {},
        }
        proof {
            assert(render_struct_decl_items(*node, src, indent0, istr, j + 1,
                writer.output@) == full);
        }
        j = j + 1;
    }
    proof {
        assert(final(writer).output@ =~= full);
    }
}

/// Writes the braced field-value list of a struct constructor, ending
/// with `;`.
pub fn write_struct_constructor(parent: &Node, i: usize, writer: &mut Writer)
    requires
        i < parent.children@.len(),
        node_wf(parent.children@[i as int], old(writer).source@.len()),
    ensures
        final(writer).output@ == render_struct_constructor(*parent, i as int,
            old(writer).source@, old(writer).indent as nat, old(writer).indent_string@,
            old(writer).output@),
        writer_core(*final(writer)) == writer_core(*old(writer)),
        final(writer).indent == old(writer).indent,
{
    let node = &parent.children[i];
    let entry_indent: usize = writer.indent;
    let ghost src = old(writer).source@;
    let ghost istr = old(writer).indent_string@;
    let ghost full = render_struct_ctor_items(parent.children@[i as int], src,
        entry_indent as nat, istr, 0, entry_indent as nat, old(writer).output@);
    let mut j: usize = 0;
    while j < node.children.len()
        invariant
            j <= node.children@.len(),
            i < parent.children@.len(),
            *node == parent.children@[i as int],
            node_wf(*node, writer.source@.len()),
            writer.source@ == src,
            writer.indent_string@ == istr,
            render_struct_ctor_items(*node, src, entry_indent as nat, istr, j as int,
                writer.indent as nat, writer.output@) == full,
            writer_core(*writer) == writer_core(*old(writer)),
        decreases node.children@.len() - j,
    {
        let ghost pre = writer.output@;
        let kind = node.children[j].kind;
        match kind {
            Kind::Comment => {
                writer.push('\t');
                write_comment(node, j, writer);
                proof {
                    assert(writer.output@ =~= pre + seq!['\t']
                        + spec_render_comment(*node, j as int, src,
                            writer.indent as nat, istr));
                }
            },
            Kind::StructFieldValue => write_struct_field_value(node, j, writer),
            Kind::LBrace => {
                writer.indent_inc();
                writer.push_str("{\n");
            },
            Kind::RBrace => {
                writer.indent = entry_indent;
                writer.push('}');
            },
            Kind::Semicolon => writer.push(';'),
            _ => {},
        }
        proof {
            assert(render_struct_ctor_items(*node, src, entry_indent as nat, istr, j + 1,
                writer.indent as nat, writer.output@) == full);
        }
        j = j + 1;
    }
    if !writer.ends_with(";") {
        writer.push_str(";\n");
    }
    writer.indent = entry_indent;
    proof {
        assert(final(writer).output@ =~= render_struct_constructor(*parent, i as int,
            old(writer).source@, old(writer).indent as nat, old(writer).indent_string@,
            old(writer).output@));
    }
}

/// Writes one `key = value,` line of a struct constructor.
pub fn write_struct_field_value(parent: &Node, i: usize, writer: &mut Writer)
    requires
        i < parent.children@.len(),
        node_wf(parent.children@[i as int], old(writer).source@.len()),
    ensures
        final(writer).output@ == old(writer).output@
            + render_sfv_items(parent.children@[i as int], old(writer).source@,
                old(writer).indent as nat, old(writer).indent_string@, 0, true),
        writer_core(*final(writer)) == writer_core(*old(writer)),
        final(writer).indent == old(writer).indent,
{
    let node = &parent.children[i];
    let ghost src = old(writer).source@;
    let ghost istr = old(writer).indent_string@;
    let ghost base = old(writer).output@;
    let ghost full = render_sfv_items(parent.children@[i as int], src,
        old(writer).indent as nat, istr, 0, true);
    let mut key: bool = true;
    let mut j: usize = 0;
    while j < node.children.len()
        invariant
            j <= node.children@.len(),
            i < parent.children@.len(),
            *node == parent.children@[i as int],
            node_wf(*node, writer.source@.len()),
            writer.source@ == src,
            writer.indent_string@ == istr,
            writer.output@ + render_sfv_items(*node, src, writer.indent as nat, istr,
                j as int, key) == base + full,
            writer_core(*writer) == writer_core(*old(writer)),
            writer.indent == old(writer).indent,
        decreases node.children@.len() - j,
    {
        let ghost pre = writer.output@;
        let kind = node.children[j].kind;
        match kind {
            Kind::Comment => {
                writer.push('\t');
                write_comment(node, j, writer);
                proof {
                    assert(writer.output@ =~= pre + (seq!['\t']
                        + spec_render_comment(*node, j as int, src,
                            writer.indent as nat, istr)));
                }
            },
            Kind::Symbol => {
                if key {
                    key = false;
                    writer.write_indent();
                    write_node(&node.children[j], writer);
                    proof {
                        assert(writer.output@ =~= pre
                            + (repeat_seq(istr, writer.indent as nat)
                                + node_text(node.children@[j as int], src)));
                    }
                } else {
                    key = true;
                    write_node(&node.children[j], writer);
                    writer.push_str(",\n");
                    proof {
                        assert(writer.output@ =~= pre
                            + (node_text(node.children@[j as int], src) + ",\n"@));
                    }
                }
            },
            Kind::Equals => writer.push_str(" = "),
            _ => {
                write_expression(&node.children[j], writer);
                writer.push_str(",\n");
                proof {
                    assert(writer.output@ =~= pre
                        + (render_expr(node.children@[j as int], src) + ",\n"@));
                }
            },
        }
        proof {
            assert(writer.output@ + render_sfv_items(*node, src, writer.indent as nat,
                istr, j + 1, key) =~= base + full);
        }
        j = j + 1;
    }
    proof {
        assert(final(writer).output@ =~= base + full);
    }
}

/// The buffer after a struct declaration's children from `j` on.
pub open spec fn render_struct_items(
    n: Node, src: Seq<char>, entry: nat, istr: Seq<char>, j: int, ind: nat, buf: Seq<char>,
) -> Seq<char>
    decreases n, 8int, n.children@.len() - j
        via render_struct_items_dec
{
    if j < 0 || j >= n.children@.len() {
        buf
    } else {
        let c = n.children@[j];
        match c.kind {
            Kind::Comment => render_struct_items(n, src, entry, istr, j + 1, ind,
                buf + seq!['\t'] + spec_render_comment(n, j, src, ind, istr)),
            Kind::KwStruct => render_struct_items(n, src, entry, istr, j + 1, ind,
                buf + "struct "@),
            Kind::Symbol => render_struct_items(n, src, entry, istr, j + 1, ind,
                buf + node_text(c, src)),
            Kind::LBrace => render_struct_items(n, src, entry, istr, j + 1, inc_indent(ind),
                buf + "\n{\n"@),
            Kind::RBrace => render_struct_items(n, src, entry, istr, j + 1, entry,
                buf + seq!['}']),
            Kind::StructField => render_struct_items(n, src, entry, istr, j + 1, ind,
                buf + repeat_seq(istr, ind) + render_struct_field_items(c, src, 0)),
            _ => render_struct_items(n, src, entry, istr, j + 1, ind, buf + ";\n"@),
        }
    }
}

/// Writes a struct declaration: `struct Name { fields }`.
pub fn write_struct(parent: &Node, i: usize, writer: &mut Writer)
    requires
        i < parent.children@.len(),
        node_wf(parent.children@[i as int], old(writer).source@.len()),
    ensures
        final(writer).output@ == render_struct_items(parent.children@[i as int],
            old(writer).source@, old(writer).indent as nat, old(writer).indent_string@,
            0, old(writer).indent as nat, old(writer).output@),
        writer_core(*final(writer)) == writer_core(*old(writer)),
        final(writer).indent == old(writer).indent,
{
    let node = &parent.children[i];
    let entry_indent: usize = writer.indent;
    let ghost src = old(writer).source@;
    let ghost istr = old(writer).indent_string@;
    let ghost full = render_struct_items(parent.children@[i as int], src,
        entry_indent as nat, istr, 0, entry_indent as nat, old(writer).output@);
    let mut j: usize = 0;
    while j < node.children.len()
        invariant
            j <= node.children@.len(),
            i < parent.children@.len(),
            *node == parent.children@[i as int],
            node_wf(*node, writer.source@.len()),
            writer.source@ == src,
            writer.indent_string@ == istr,
            render_struct_items(*node, src, entry_indent as nat, istr, j as int,
                writer.indent as nat, writer.output@) == full,
            writer_core(*writer) == writer_core(*old(writer)),
        decreases node.children@.len() - j,
    {
        let ghost pre = writer.output@;
        let kind = node.children[j].kind;
        match kind {
            Kind::Comment => {
                writer.push('\t');
                write_comment(node, j, writer);
                proof {
                    assert(writer.output@ =~= pre + seq!['\t']
                        + spec_render_comment(*node, j as int, src,
                            writer.indent as nat, istr));
                }
            },
            Kind::KwStruct => writer.push_str("struct "),
            Kind::Symbol => write_node(&node.children[j], writer),
            Kind::LBrace => {
                writer.indent_inc();
                writer.push_str("\n{\n");
            },
            Kind::RBrace => {
                writer.indent = entry_indent;
                writer.push('}');
            },
            Kind::StructField => write_struct_field(node, j, writer),
            _ => writer.push_str(";\n"),
        }
        proof {
            assert(render_struct_items(*node, src, entry_indent as nat, istr, j + 1,
                writer.indent as nat, writer.output@) == full);
        }
        j = j + 1;
    }
    writer.indent = entry_indent;
    proof {
        assert(final(writer).output@ =~= full);
    }
}

/// Writes one struct field: `public|const type name dims;` at the
/// current indent.
pub fn write_struct_field(parent: &Node, i: usize, writer: &mut Writer)
    requires
        i < parent.children@.len(),
        node_wf(parent.children@[i as int], old(writer).source@.len()),
    ensures
        final(writer).output@ == old(writer).output@
            + repeat_seq(old(writer).indent_string@, old(writer).indent as nat)
            + render_struct_field_items(
                parent.children@[i as int], old(writer).source@, 0),
        writer_core(*final(writer)) == writer_core(*old(writer)),
        final(writer).indent == old(writer).indent,
{
    let node = &parent.children[i];
    writer.write_indent();
    let ghost src = old(writer).source@;
    let ghost base = writer.output@;
    let ghost full = render_struct_field_items(parent.children@[i as int], src, 0);
    let mut j: usize = 0;
    while j < node.children.len()
        invariant
            j <= node.children@.len(),
            i < parent.children@.len(),
            *node == parent.children@[i as int],
            node_wf(*node, writer.source@.len()),
            writer.source@ == src,
            writer.output@ + render_struct_field_items(*node, src, j as int)
                == base + full,
            writer_core(*writer) == writer_core(*old(writer)),
            writer.indent == old(writer).indent,
        decreases node.children@.len() - j,
    {
        let ghost pre = writer.output@;
        let kind = node.children[j].kind;
        match kind {
            Kind::KwPublic => writer.push_str("public "),
            Kind::KwConst => writer.push_str("const "),
            Kind::Type => write_node(&node.children[j], writer),
            Kind::Symbol => {
                writer.push(' ');
                write_node(&node.children[j], writer);
                proof {
                    assert(writer.output@
                        =~= pre + (sp() + node_text(node.children@[j as int], src)));
                }
            },
            Kind::FixedDimension => write_fixed_dimension(node, j, false, writer),
            Kind::Dimension => write_dimension(node, j, false, writer),
            Kind::Semicolon => writer.push(';'),
            _ => {},
        }
        proof {
            assert(writer.output@ + render_struct_field_items(*node, src, j + 1)
                =~= base + full);
        }
        j = j + 1;
    }
    proof {
        assert(final(writer).output@ =~= old(writer).output@
            + repeat_seq(old(writer).indent_string@, old(writer).indent as nat)
            + render_struct_field_items(
                parent.children@[i as int], old(writer).source@, 0));
    }
}

#[via_fn]
proof fn render_struct_field_items_dec(n: Node, src: Seq<char>, j: int) {
    if 0 <= j < n.children@.len() {
        lemma_child_decreases(n, j);
    }
}

#[via_fn]
proof fn render_sfv_items_dec(
    n: Node, src: Seq<char>, indent: nat, istr: Seq<char>, j: int, key: bool,
) {
    if 0 <= j < n.children@.len() {
        lemma_child_decreases(n, j);
    }
}

#[via_fn]
proof fn render_struct_ctor_items_dec(
    n: Node, src: Seq<char>, entry: nat, istr: Seq<char>, j: int, ind: nat, buf: Seq<char>,
) {
    if 0 <= j < n.children@.len() {
        lemma_child_decreases(n, j);
    }
}

#[via_fn]
proof fn render_struct_decl_items_dec(
    n: Node, src: Seq<char>, indent: nat, istr: Seq<char>, j: int, buf: Seq<char>,
) {
    if 0 <= j < n.children@.len() {
        lemma_child_decreases(n, j);
    }
}

#[via_fn]
proof fn render_struct_items_dec(
    n: Node, src: Seq<char>, entry: nat, istr: Seq<char>, j: int, ind: nat, buf: Seq<char>,
) {
    if 0 <= j < n.children@.len() {
        lemma_child_decreases(n, j);
    }
}

} // verus!