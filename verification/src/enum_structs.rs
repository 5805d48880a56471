//! Enum struct declarations.
//!
//! `enum struct Name { … }`: fields are `type name fixed-dims;` lines,
//! methods render like function declarations one level deeper.

use vstd::prelude::*;

use crate::expressions::{render_fixed_dimension, write_fixed_dimension};
use crate::functions::{
    render_arg_decls_items, spec_decl_breaks, write_argument_declarations, write_decl_breaks,
};
use crate::methodmaps::spec_member_breaks;
use crate::node::{
    node_text, node_wf, prev_sibling_kind, spec_prev_sibling_kind, Kind, Node,
};
use crate::settings::Settings;
use crate::statements::{render_block_items, write_block};
use crate::variables::{render_type, write_type};
use crate::writers::{
    inc_indent, is_preproc_kind, nl, repeat_seq, sp, spec_is_preproc, spec_render_comment,
    write_comment, write_node, writer_core, Writer,
};

verus! {

/// The blank lines before an enum struct field: none when it follows the
/// opening brace, a comment, a preprocessor directive, another field or
/// nothing.
pub open spec fn spec_field_breaks(parent: Node, i: int, nb_lines: nat) -> Seq<char> {
    let suppress = match spec_prev_sibling_kind(parent, i) {
        Option::None => true,
        Option::Some(k) => spec_is_preproc(k) || k == Kind::Comment || k == Kind::LBrace
            || k == Kind::EnumStructField,
    };
    if suppress {
        Seq::empty()
    } else {
        repeat_seq(nl(), nb_lines)
    }
}

/// The text one enum struct field's pieces append.
pub open spec fn render_es_field_items(n: Node, src: Seq<char>, j: int) -> Seq<char>
    decreases n, 5int, n.children@.len() - j
        via render_es_field_items_dec
{
    if j < 0 || j >= n.children@.len() {
        Seq::empty()
    } else {
        let c = n.children@[j];
        let piece = match c.kind {
            Kind::Type => render_type(n, j, src),
            Kind::Symbol => node_text(c, src),
            Kind::FixedDimension => render_fixed_dimension(n, j, src, false),
            Kind::Semicolon => node_text(c, src),
            _ => Seq::empty(),
        };
        piece + render_es_field_items(n, src, j + 1)
    }
}

/// The buffer after one enum struct field: its blank lines, the current
/// indent, its pieces and a line break.
pub open spec fn render_enum_struct_field(
    parent: Node, i: int, src: Seq<char>, st: Settings, indent: nat, istr: Seq<char>,
    buf: Seq<char>,
) -> Seq<char> {
    buf + spec_field_breaks(parent, i, st.breaks_before_function_decl as nat)
        + repeat_seq(istr, indent)
        + render_es_field_items(parent.children@[i], src, 0) + nl()
}

/// The buffer after one enum struct method's children from `j` on.
pub open spec fn render_es_method_items(
    n: Node, src: Seq<char>, st: Settings, indent: nat, istr: Seq<char>, j: int,
    buf: Seq<char>,
) -> Seq<char>
    decreases n.children@.len() - j,
{
    if j < 0 || j >= n.children@.len() {
        buf
    } else {
        let c = n.children@[j];
        match c.kind {
            Kind::Type => render_es_method_items(n, src, st, indent, istr, j + 1,
                buf + render_type(n, j, src)),
            Kind::Symbol => render_es_method_items(n, src, st, indent, istr, j + 1,
                buf + node_text(c, src)),
            Kind::ArgumentDeclarations => render_es_method_items(n, src, st, indent, istr,
                j + 1, buf + render_arg_decls_items(c, src, 0)),
            Kind::Block => {
                let b2 = if st.brace_wrapping_before_function {
                    render_block_items(c, src, st, indent, istr, true, 0, indent, buf + nl())
                } else {
                    render_block_items(c, src, st, indent, istr, false, 0, indent, buf + sp())
                };
                render_es_method_items(n, src, st, indent, istr, j + 1, b2)
            },
            _ => render_es_method_items(n, src, st, indent, istr, j + 1, buf),
        }
    }
}

/// The buffer after one enum struct method: its blank lines, the current
/// indent, its pieces and a line break.
pub open spec fn render_enum_struct_method(
    parent: Node, i: int, src: Seq<char>, st: Settings, indent: nat, istr: Seq<char>,
    buf: Seq<char>,
) -> Seq<char> {
    render_es_method_items(parent.children@[i], src, st, indent, istr, 0,
        buf + spec_member_breaks(parent, i, st.breaks_before_function_decl as nat)
            + repeat_seq(istr, indent)) + nl()
}

/// The buffer after an enum struct's children from `j` on.
pub open spec fn render_enum_struct_items(
    n: Node, src: Seq<char>, st: Settings, entry: nat, istr: Seq<char>, j: int, ind: nat,
    buf: Seq<char>,
) -> Seq<char>
    decreases n, 8int, n.children@.len() - j
        via render_enum_struct_items_dec
{
    if j < 0 || j >= n.children@.len() {
        buf
    } else {
        let c = n.children@[j];
        match c.kind {
            Kind::KwEnum | Kind::KwStruct => render_enum_struct_items(n, src, st, entry, istr,
                j + 1, ind, buf + node_text(c, src) + sp()),
            Kind::Symbol => render_enum_struct_items(n, src, st, entry, istr, j + 1, ind,
                buf + node_text(c, src)),
            Kind::LBrace => {
                let b2 = if st.brace_wrapping_before_enum_struct {
                    buf + nl()
                } else {
                    buf + sp()
                };
                render_enum_struct_items(n, src, st, entry, istr, j + 1, inc_indent(ind),
                    b2 + "{\n"@)
            },
            Kind::RBrace => render_enum_struct_items(n, src, st, entry, istr, j + 1, entry,
                buf + "}\n"@),
            Kind::Comment => render_enum_struct_items(n, src, st, entry, istr, j + 1, ind,
                buf + spec_render_comment(n, j, src, ind, istr)),
            Kind::EnumStructField => render_enum_struct_items(n, src, st, entry, istr, j + 1,
                ind, render_enum_struct_field(n, j, src, st, ind, istr, buf)),
            Kind::EnumStructMethod => render_enum_struct_items(n, src, st, entry, istr, j + 1,
                ind, render_enum_struct_method(n, j, src, st, ind, istr, buf)),
            _ => render_enum_struct_items(n, src, st, entry, istr, j + 1, ind, buf),
        }
    }
}

/// Writes an enum struct: leading blank lines, `enum struct Name`, then
/// its fields and methods inside the brace governed by the enum-struct
/// brace-wrapping setting.
pub fn write_enum_struct(parent: &Node, i: usize, writer: &mut Writer)
    requires
        i < parent.children@.len(),
        node_wf(parent.children@[i as int], old(writer).source@.len()),
    ensures
        final(writer).output@ == render_enum_struct_items(parent.children@[i as int],
            old(writer).source@, old(writer).settings, old(writer).indent as nat,
            old(writer).indent_string@, 0, old(writer).indent as nat,
            old(writer).output@ + spec_decl_breaks(*parent, i as int,
                old(writer).settings.breaks_before_enum_struct as nat)) + nl(),
        writer_core(*final(writer)) == writer_core(*old(writer)),
        final(writer).indent == old(writer).indent,
{
    let nb_lines: usize = writer.settings.breaks_before_enum_struct as usize;
    write_decl_breaks(parent, i, writer, nb_lines);
    let node = &parent.children[i];
    let entry_indent: usize = writer.indent;
    let ghost src = old(writer).source@;
    let ghost st = old(writer).settings;
    let ghost istr = old(writer).indent_string@;
    let ghost full = render_enum_struct_items(parent.children@[i as int], src, st,
        entry_indent as nat, istr, 0, entry_indent as nat, writer.output@);
    let mut j: usize = 0;
    while j < node.children.len()
        invariant
            j <= node.children@.len(),
            i < parent.children@.len(),
            *node == parent.children@[i as int],
            node_wf(*node, writer.source@.len()),
            writer.source@ == src,
            writer.settings == st,
            writer.indent_string@ == istr,
            render_enum_struct_items(*node, src, st, entry_indent as nat, istr, j as int,
                writer.indent as nat, writer.output@) == full,
            writer_core(*writer) == writer_core(*old(writer)),
        decreases node.children@.len() - j,
    {
        let ghost pre = writer.output@;
        let kind = node.children[j].kind;
        match kind {
            Kind::KwEnum | Kind::KwStruct => {
                write_node(&node.children[j], writer);
                writer.push(' ');
                proof {
                    assert(writer.output@ =~= pre
                        + node_text(node.children@[j as int], src) + sp());
                }
            },
            Kind::Symbol => write_node(&node.children[j], writer),
            Kind::LBrace => {
                if writer.settings.brace_wrapping_before_enum_struct {
                    writer.breakl();
                } else {
                    writer.push(' ');
                }
                writer.push_str("{\n");
                writer.indent_inc();
            },
            Kind::RBrace => {
                writer.push_str("}\n");
                writer.indent = entry_indent;
            },
            Kind::Comment => write_comment(node, j, writer),
            Kind::EnumStructField => write_enum_struct_field(node, j, writer),
            Kind::EnumStructMethod => write_enum_struct_method(node, j, writer),
            _ => {},
        }
        proof {
            assert(render_enum_struct_items(*node, src, st, entry_indent as nat, istr, j + 1,
                writer.indent as nat, writer.output@) == full);
        }
        j = j + 1;
    }
    writer.breakl();
    writer.indent = entry_indent;
    proof {
        assert(final(writer).output@ =~= full + nl());
    }
}

/// Writes one field of an enum struct: `type name fixed-dims;` on its
/// own indented line, with blank lines before a field that does not
/// follow the opening brace, a comment or another field.
pub fn write_enum_struct_field(parent: &Node, i: usize, writer: &mut Writer)
    requires
        i < parent.children@.len(),
        node_wf(parent.children@[i as int], old(writer).source@.len()),
    ensures
        final(writer).output@ == render_enum_struct_field(*parent, i as int,
            old(writer).source@, old(writer).settings, old(writer).indent as nat,
            old(writer).indent_string@, old(writer).output@),
        writer_core(*final(writer)) == writer_core(*old(writer)),
        final(writer).indent == old(writer).indent,
{
    let nb_lines: usize = writer.settings.breaks_before_function_decl as usize;
    let prev_kind = prev_sibling_kind(parent, i);
    let suppress: bool = match prev_kind {
        Option::None => true,
        Option::Some(k) => is_preproc_kind(k) || k == Kind::LBrace || k == Kind::Comment
            || k == Kind::EnumStructField,
    };
    if !suppress {
        writer.push_breaks(nb_lines);
    }
    writer.write_indent();
    let node = &parent.children[i];
    let ghost src = old(writer).source@;
    let ghost base = writer.output@;
    let ghost full = render_es_field_items(parent.children@[i as int], src, 0);
    let mut j: usize = 0;
    while j < node.children.len()
        invariant
            j <= node.children@.len(),
            i < parent.children@.len(),
            *node == parent.children@[i as int],
            node_wf(*node, writer.source@.len()),
            writer.source@ == src,
            writer.output@ + render_es_field_items(*node, src, j as int) == base + full,
            writer_core(*writer) == writer_core(*old(writer)),
            writer.indent == old(writer).indent,
        decreases node.children@.len() - j,
    {
        let kind = node.children[j].kind;
        match kind {
            Kind::Type => write_type(node, j, writer),
            Kind::Symbol => write_node(&node.children[j], writer),
            Kind::FixedDimension => write_fixed_dimension(node, j, false, writer),
            Kind::Semicolon => write_node(&node.children[j], writer),
            _ => {},
        }
        proof {
            assert(writer.output@ + render_es_field_items(*node, src, j + 1)
                =~= base + full);
        }
        j = j + 1;
    }
    writer.breakl();
    proof {
        assert(final(writer).output@ =~= render_enum_struct_field(*parent, i as int,
            old(writer).source@, old(writer).settings, old(writer).indent as nat,
            old(writer).indent_string@, old(writer).output@));
    }
}

/// Writes one method of an enum struct: like a function declaration,
/// indented one level, its body brace following the function setting.
pub fn write_enum_struct_method(parent: &Node, i: usize, writer: &mut Writer)
    requires
        i < parent.children@.len(),
        node_wf(parent.children@[i as int], old(writer).source@.len()),
    ensures
        final(writer).output@ == render_enum_struct_method(*parent, i as int,
            old(writer).source@, old(writer).settings, old(writer).indent as nat,
            old(writer).indent_string@, old(writer).output@),
        writer_core(*final(writer)) == writer_core(*old(writer)),
        final(writer).indent == old(writer).indent,
{
    let nb_lines: usize = writer.settings.breaks_before_function_decl as usize;
    let prev_kind = prev_sibling_kind(parent, i);
    let suppress: bool = match prev_kind {
        Option::None => true,
        Option::Some(k) => is_preproc_kind(k) || k == Kind::LBrace || k == Kind::Comment,
    };
    if !suppress {
        writer.push_breaks(nb_lines);
    }
    writer.write_indent();
    let node = &parent.children[i];
    let ghost src = old(writer).source@;
    let ghost st = old(writer).settings;
    let ghost istr = old(writer).indent_string@;
    let ghost indent0 = old(writer).indent as nat;
    let ghost full = render_es_method_items(parent.children@[i as int], src, st, indent0,
        istr, 0, writer.output@);
    let mut j: usize = 0;
    while j < node.children.len()
        invariant
            j <= node.children@.len(),
            i < parent.children@.len(),
            *node == parent.children@[i as int],
            node_wf(*node, writer.source@.len()),
            writer.source@ == src,
            writer.settings == st,
            writer.indent_string@ == istr,
            writer.indent as nat == indent0,
            render_es_method_items(*node, src, st, indent0, istr, j as int, writer.output@)
                == full,
            writer_core(*writer) == writer_core(*old(writer)),
        decreases node.children@.len() - j,
    {
        let kind = node.children[j].kind;
        match kind {
            Kind::Type => write_type(node, j, writer),
            Kind::Symbol => write_node(&node.children[j], writer),
            Kind::ArgumentDeclarations => write_argument_declarations(node, j, writer),
            Kind::Block => {
                if writer.settings.brace_wrapping_before_function {
                    writer.breakl();
                    write_block(node, j, writer, true);
                } else {
                    writer.push(' ');
                    write_block(node, j, writer, false);
                }
            },
            _ => {},
        }
        proof {
            assert(render_es_method_items(*node, src, st, indent0, istr, j + 1,
                writer.output@) == full);
        }
        j = j + 1;
    }
    writer.breakl();
    proof {
        assert(final(writer).output@ =~= render_enum_struct_method(*parent, i as int,
            old(writer).source@, old(writer).settings, old(writer).indent as nat,
            old(writer).indent_string@, old(writer).output@));
    }
}

#[via_fn]
proof fn render_es_field_items_dec(n: Node, src: Seq<char>, j: int) {
    if 0 <= j < n.children@.len() {
        crate::node::lemma_child_decreases(n, j);
    }
}

#[via_fn]
proof fn render_enum_struct_items_dec(
    n: Node, src: Seq<char>, st: Settings, entry: nat, istr: Seq<char>, j: int, ind: nat,
    buf: Seq<char>,
) {
    if 0 <= j < n.children@.len() {
        crate::node::lemma_child_decreases(n, j);
    }
}

} // verus!
