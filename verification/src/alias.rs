//! Operator alias declarations and assignments.

use vstd::prelude::*;

use crate::expressions::{render_dimension, render_old_type, write_dimension, write_old_type};
use crate::functions::{
    render_arg_decls_items, render_visibility_items, write_argument_declarations,
    write_function_visibility,
};
use crate::node::{node_text, node_wf, prev_sibling_kind, spec_prev_sibling_kind, Kind, Node};
use crate::settings::Settings;
use crate::statements::{render_block_items, render_statement, write_block, write_statement};
use crate::variables::{render_type, write_type};
use crate::writers::{
    is_preproc_kind, nl, repeat_seq, sp, spec_is_preproc, spec_is_statement, write_node,
    writer_core, Writer,
};

verus! {

/// The blank lines before an alias item: none when it opens the file or
/// follows a comment, a preprocessor directive or another item of the
/// same form.
pub open spec fn spec_alias_breaks(parent: Node, i: int, same: Kind, nb_lines: nat)
    -> Seq<char> {
    let suppress = match spec_prev_sibling_kind(parent, i) {
        Option::None => true,
        Option::Some(k) => spec_is_preproc(k) || k == Kind::Comment || k == same,
    };
    if suppress {
        Seq::empty()
    } else {
        repeat_seq(nl(), nb_lines)
    }
}

/// The buffer after an alias declaration's children from `j` on.
pub open spec fn render_alias_decl_items(
    n: Node, src: Seq<char>, st: Settings, indent: nat, istr: Seq<char>, j: int,
    buf: Seq<char>,
) -> Seq<char>
    decreases n.children@.len() - j,
{
    if j < 0 || j >= n.children@.len() {
        buf
    } else {
        let c = n.children@[j];
        match c.kind {
            Kind::FunctionVisibility => render_alias_decl_items(n, src, st, indent, istr,
                j + 1, buf + render_visibility_items(c, src, 0)),
            Kind::Type => render_alias_decl_items(n, src, st, indent, istr, j + 1,
                buf + render_type(n, j, src)),
            Kind::OldType => render_alias_decl_items(n, src, st, indent, istr, j + 1,
                buf + render_old_type(c, src)),
            Kind::Dimension => render_alias_decl_items(n, src, st, indent, istr, j + 1,
                buf + render_dimension(n, j, true)),
            Kind::AliasOperator | Kind::Operator => render_alias_decl_items(n, src, st,
                indent, istr, j + 1, buf + node_text(c, src)),
            Kind::ArgumentDeclarations => render_alias_decl_items(n, src, st, indent, istr,
                j + 1, buf + render_arg_decls_items(c, src, 0)),
            Kind::Block => {
                let b2 = if st.brace_wrapping_before_function {
                    render_block_items(c, src, st, indent, istr, true, 0, indent, buf + nl())
                } else {
                    render_block_items(c, src, st, indent, istr, false, 0, indent, buf + sp())
                };
                render_alias_decl_items(n, src, st, indent, istr, j + 1, b2)
            },
            _ => {
                if spec_is_statement(c.kind) {
                    render_alias_decl_items(n, src, st, indent, istr, j + 1,
                        render_statement(n, j, src, st, indent, istr, false, false, buf))
                } else {
                    render_alias_decl_items(n, src, st, indent, istr, j + 1, buf)
                }
            },
        }
    }
}

/// Writes an operator alias declaration, its body brace following the
/// function brace-wrapping setting.
pub fn write_alias_declaration(parent: &Node, i: usize, writer: &mut Writer)
    requires
        i < parent.children@.len(),
        node_wf(parent.children@[i as int], old(writer).source@.len()),
    ensures
        final(writer).output@ == render_alias_decl_items(parent.children@[i as int],
            old(writer).source@, old(writer).settings, old(writer).indent as nat,
            old(writer).indent_string@, 0,
            old(writer).output@ + spec_alias_breaks(*parent, i as int,
                Kind::AliasDeclaration,
                old(writer).settings.breaks_before_function_decl as nat)) + nl(),
        writer_core(*final(writer)) == writer_core(*old(writer)),
        final(writer).indent == old(writer).indent,
{
    let nb_lines: usize = writer.settings.breaks_before_function_decl as usize;
    let prev_kind = prev_sibling_kind(parent, i);
    let suppress: bool = match prev_kind {
        Option::None => true,
        Option::Some(k) => is_preproc_kind(k) || k == Kind::Comment
            || k == Kind::AliasDeclaration,
    };
    if !suppress {
        writer.push_breaks(nb_lines);
    }
    let node = &parent.children[i];
    let ghost src = old(writer).source@;
    let ghost st = old(writer).settings;
    let ghost istr = old(writer).indent_string@;
    let ghost indent0 = old(writer).indent as nat;
    let ghost full = render_alias_decl_items(parent.children@[i as int], src, st, indent0,
        istr, 0, writer.output@);
    let mut j: usize = 0;
    while j < node.children.len()
        invariant
            j <= node.children@.len(),
            i < parent.children@.len(),
            *node == parent.children@[i as int],
            node_wf(*node, writer.source@.len()),
            writer.source@ == src,
            writer.settings == st,
            writer.indent_string@ == istr,
            writer.indent as nat == indent0,
            render_alias_decl_items(*node, src, st, indent0, istr, j as int, writer.output@)
                == full,
            writer_core(*writer) == writer_core(*old(writer)),
        decreases node.children@.len() - j,
    {
        let kind = node.children[j].kind;
        match kind {
            Kind::FunctionVisibility => write_function_visibility(node, j, writer),
            Kind::Type => write_type(node, j, writer),
            Kind::OldType => write_old_type(&node.children[j], writer),
            Kind::Dimension => write_dimension(node, j, true, writer),
            Kind::AliasOperator | Kind::Operator => write_node(&node.children[j], writer),
            Kind::ArgumentDeclarations => write_argument_declarations(node, j, writer),
            Kind::Block => {
                if writer.settings.brace_wrapping_before_function {
                    writer.breakl();
                    write_block(node, j, writer, true);
                } else {
                    writer.push(' ');
                    write_block(node, j, writer, false);
                }
            },
            _ => {
                if writer.is_statement(kind) {
                    write_statement(node, j, writer, false, false);
                }
            },
        }
        proof {
            assert(render_alias_decl_items(*node, src, st, indent0, istr, j + 1,
                writer.output@) == full);
        }
        j = j + 1;
    }
    writer.breakl();
    proof {
        assert(final(writer).output@ =~= full + nl());
    }
}

/// The buffer after an alias assignment's children from `j` on.
pub open spec fn render_alias_assign_items(
    n: Node, src: Seq<char>, st: Settings, indent: nat, istr: Seq<char>, j: int,
    buf: Seq<char>,
) -> Seq<char>
    decreases n.children@.len() - j,
{
    if j < 0 || j >= n.children@.len() {
        buf
    } else {
        let c = n.children@[j];
        match c.kind {
            Kind::FunctionDefinitionType => render_alias_assign_items(n, src, st, indent,
                istr, j + 1, buf + render_visibility_items(c, src, 0)),
            Kind::Type => render_alias_assign_items(n, src, st, indent, istr, j + 1,
                buf + render_type(n, j, src)),
            Kind::OldType => render_alias_assign_items(n, src, st, indent, istr, j + 1,
                buf + render_old_type(c, src)),
            Kind::Symbol => render_alias_assign_items(n, src, st, indent, istr, j + 1,
                buf + node_text(c, src)),
            Kind::Dimension => render_alias_assign_items(n, src, st, indent, istr, j + 1,
                buf + render_dimension(n, j, true)),
            Kind::Equals => render_alias_assign_items(n, src, st, indent, istr, j + 1,
                buf + " = "@),
            Kind::AliasOperator | Kind::Operator => render_alias_assign_items(n, src, st,
                indent, istr, j + 1, buf + node_text(c, src)),
            Kind::ArgumentDeclarations => render_alias_assign_items(n, src, st, indent, istr,
                j + 1, buf + render_arg_decls_items(c, src, 0)),
            Kind::Semicolon => render_alias_assign_items(n, src, st, indent, istr, j + 1,
                buf + seq![';']),
            _ => {
                if spec_is_statement(c.kind) {
                    render_alias_assign_items(n, src, st, indent, istr, j + 1,
                        render_statement(n, j, src, st, indent, istr, false, false, buf))
                } else {
                    render_alias_assign_items(n, src, st, indent, istr, j + 1, buf)
                }
            },
        }
    }
}

/// Writes an operator alias assignment, terminated by its `;`.
pub fn write_alias_assignment(parent: &Node, i: usize, writer: &mut Writer)
    requires
        i < parent.children@.len(),
        node_wf(parent.children@[i as int], old(writer).source@.len()),
    ensures
        final(writer).output@ == render_alias_assign_items(parent.children@[i as int],
            old(writer).source@, old(writer).settings, old(writer).indent as nat,
            old(writer).indent_string@, 0,
            old(writer).output@ + spec_alias_breaks(*parent, i as int,
                Kind::AliasAssignment,
                old(writer).settings.breaks_before_function_def as nat)) + nl(),
        writer_core(*final(writer)) == writer_core(*old(writer)),
        final(writer).indent == old(writer).indent,
{
    let nb_lines: usize = writer.settings.breaks_before_function_def as usize;
    let prev_kind = prev_sibling_kind(parent, i);
    let suppress: bool = match prev_kind {
        Option::None => true,
        Option::Some(k) => is_preproc_kind(k) || k == Kind::Comment
            || k == Kind::AliasAssignment,
    };
    if !suppress {
        writer.push_breaks(nb_lines);
    }
    let node = &parent.children[i];
    let ghost src = old(writer).source@;
    let ghost st = old(writer).settings;
    let ghost istr = old(writer).indent_string@;
    let ghost indent0 = old(writer).indent as nat;
    let ghost full = render_alias_assign_items(parent.children@[i as int], src, st, indent0,
        istr, 0, writer.output@);
    let mut j: usize = 0;
    while j < node.children.len()
        invariant
            j <= node.children@.len(),
            i < parent.children@.len(),
            *node == parent.children@[i as int],
            node_wf(*node, writer.source@.len()),
            writer.source@ == src,
            writer.settings == st,
            writer.indent_string@ == istr,
            writer.indent as nat == indent0,
            render_alias_assign_items(*node, src, st, indent0, istr, j as int,
                writer.output@) == full,
            writer_core(*writer) == writer_core(*old(writer)),
        decreases node.children@.len() - j,
    {
        let kind = node.children[j].kind;
        match kind {
            Kind::FunctionDefinitionType => write_function_visibility(node, j, writer),
            Kind::Type => write_type(node, j, writer),
            Kind::OldType => write_old_type(&node.children[j], writer),
            Kind::Symbol => write_node(&node.children[j], writer),
            Kind::Dimension => write_dimension(node, j, true, writer),
            Kind::Equals => writer.push_str(" = "),
            Kind::AliasOperator | Kind::Operator => write_node(&node.children[j], writer),
            Kind::ArgumentDeclarations => write_argument_declarations(node, j, writer),
            Kind::Semicolon => writer.push(';'),
            _ => {
                if writer.is_statement(kind) {
                    write_statement(node, j, writer, false, false);
                }
            },
        }
        proof {
            assert(render_alias_assign_items(*node, src, st, indent0, istr, j + 1,
                writer.output@) == full);
        }
        j = j + 1;
    }
    writer.breakl();
    proof {
        assert(final(writer).output@ =~= full + nl());
    }
}

} // verus!
