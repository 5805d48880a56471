//! Function declarations and definitions.
//!
//! A declaration is preceded by the configured number of blank lines
//! unless it follows a comment, a preprocessor directive or the start of
//! the file; its body brace follows the function brace-wrapping setting.
//! A definition is the forward/native form, terminated by `;`.

use vstd::prelude::*;

use crate::expressions::{
    render_dimension, render_expr, render_fixed_dimension, render_old_type,
    write_dimension, write_expression, write_fixed_dimension, write_old_type,
};
use crate::settings::Settings;
use crate::node::{
    lemma_child_decreases, next_sibling_kind, node_text, node_wf, prev_sibling_kind,
    spec_next_sibling_kind, spec_prev_sibling_kind, Kind, Node,
};
use crate::statements::{
    render_block_items, render_statement, write_block, write_statement,
};
use crate::variables::{render_type, write_type};
use crate::writers::{
    is_preproc_kind, nl, repeat_seq, sp, spec_is_preproc, write_node, writer_core, Writer,
};

verus! {

/// The blank lines before a declaration: none when it opens the file or
/// follows a comment or a preprocessor directive, the configured count of
/// newlines otherwise.
pub open spec fn spec_decl_breaks(parent: Node, i: int, nb_lines: nat) -> Seq<char> {
    let suppress = match spec_prev_sibling_kind(parent, i) {
        Option::None => true,
        Option::Some(k) => spec_is_preproc(k) || k == Kind::Comment,
    };
    if suppress {
        Seq::empty()
    } else {
        repeat_seq(nl(), nb_lines)
    }
}

/// The rendering of visibility tokens: each one's text followed by one
/// space.
pub open spec fn render_visibility_items(n: Node, src: Seq<char>, j: int) -> Seq<char>
    decreases n.children@.len() - j,
{
    if j < 0 || j >= n.children@.len() {
        Seq::empty()
    } else {
        node_text(n.children@[j], src) + sp() + render_visibility_items(n, src, j + 1)
    }
}

/// The rendering of an argument type's pieces: `&` gets a space after it
/// unless an old type or the end of the list follows.
pub open spec fn render_arg_type_items(n: Node, src: Seq<char>, j: int) -> Seq<char>
    decreases n, 1int, n.children@.len() - j
        via render_arg_type_items_dec
{
    if j < 0 || j >= n.children@.len() {
        Seq::empty()
    } else {
        let c = n.children@[j];
        let piece = match c.kind {
            Kind::Amp => {
                let space = match spec_next_sibling_kind(n, j) {
                    Option::None => false,
                    Option::Some(k) => k != Kind::OldType,
                };
                if space {
                    seq!['&'] + sp()
                } else {
                    seq!['&']
                }
            },
            Kind::Type => render_type(n, j, src),
            Kind::Dimension => render_dimension(n, j, true),
            _ => node_text(c, src),
        };
        piece + render_arg_type_items(n, src, j + 1)
    }
}

/// The rendering of a rest argument: its tokens, an old type with its
/// trailing space.
pub open spec fn render_rest_argument_items(n: Node, src: Seq<char>, j: int) -> Seq<char>
    decreases n.children@.len() - j,
{
    if j < 0 || j >= n.children@.len() {
        Seq::empty()
    } else {
        let c = n.children@[j];
        let piece = match c.kind {
            Kind::OldType => render_old_type(c, src),
            _ => node_text(c, src),
        };
        piece + render_rest_argument_items(n, src, j + 1)
    }
}

/// The rendering of one argument declaration's pieces.
pub open spec fn render_arg_decl_items(n: Node, src: Seq<char>, j: int) -> Seq<char>
    decreases n, 2int, n.children@.len() - j
        via render_arg_decl_items_dec
{
    if j < 0 || j >= n.children@.len() {
        Seq::empty()
    } else {
        let c = n.children@[j];
        let piece = match c.kind {
            Kind::KwConst => "const "@,
            Kind::VariableStorageClass => node_text(c, src) + sp(),
            Kind::ArgumentType => render_arg_type_items(c, src, 0),
            Kind::Type => render_type(n, j, src),
            Kind::OldType => render_old_type(c, src),
            Kind::Symbol => node_text(c, src),
            Kind::Dimension => render_dimension(n, j, true),
            Kind::FixedDimension => render_fixed_dimension(n, j, src, true),
            Kind::Equals => " = "@,
            _ => render_expr(c, src),
        };
        piece + render_arg_decl_items(n, src, j + 1)
    }
}

/// The rendering of a parenthesized, comma-separated argument list.
pub open spec fn render_arg_decls_items(n: Node, src: Seq<char>, j: int) -> Seq<char>
    decreases n, 3int, n.children@.len() - j
        via render_arg_decls_items_dec
{
    if j < 0 || j >= n.children@.len() {
        Seq::empty()
    } else {
        let c = n.children@[j];
        let piece = match c.kind {
            Kind::LParen | Kind::RParen => node_text(c, src),
            Kind::RestArgument => render_rest_argument_items(c, src, 0),
            Kind::ArgumentDeclaration => render_arg_decl_items(c, src, 0),
            Kind::Comma => ", "@,
            _ => node_text(c, src),
        };
        piece + render_arg_decls_items(n, src, j + 1)
    }
}

/// Decides the blank lines before a declaration: `nb_lines` newlines,
/// unless the previous sibling is a comment or a preprocessor directive
/// or there is none.
pub fn write_decl_breaks(parent: &Node, i: usize, writer: &mut Writer, nb_lines: usize)
    requires
        i < parent.children@.len(),
    ensures
        final(writer).output@ == old(writer).output@
            + spec_decl_breaks(*parent, i as int, nb_lines as nat),
        writer_core(*final(writer)) == writer_core(*old(writer)),
        final(writer).indent == old(writer).indent,
{
    let prev_kind = prev_sibling_kind(parent, i);
    let suppress: bool = match prev_kind {
        Option::None => true,
        Option::Some(k) => is_preproc_kind(k) || k == Kind::Comment,
    };
    if !suppress {
        writer.push_breaks(nb_lines);
    }
}

/// The buffer after a function declaration's children from `j` on:
/// visibility tokens, return type, name, argument list, then the body
/// block with the function brace-wrapping setting.
pub open spec fn render_fn_decl_items(
    n: Node, src: Seq<char>, st: Settings, indent: nat, istr: Seq<char>, j: int,
    buf: Seq<char>,
) -> Seq<char>
    decreases n.children@.len() - j,
{
    if j < 0 || j >= n.children@.len() {
        buf
    } else {
        let c = n.children@[j];
        match c.kind {
            Kind::FunctionVisibility => render_fn_decl_items(n, src, st, indent, istr, j + 1,
                buf + render_visibility_items(c, src, 0)),
            Kind::Type => render_fn_decl_items(n, src, st, indent, istr, j + 1,
                buf + render_type(n, j, src)),
            Kind::Dimension => render_fn_decl_items(n, src, st, indent, istr, j + 1,
                buf + render_dimension(n, j, true)),
            Kind::ArgumentDeclarations => render_fn_decl_items(n, src, st, indent, istr, j + 1,
                buf + render_arg_decls_items(c, src, 0)),
            Kind::Symbol => render_fn_decl_items(n, src, st, indent, istr, j + 1,
                buf + node_text(c, src)),
            Kind::Block => {
                let b2 = if st.brace_wrapping_before_function {
                    render_block_items(c, src, st, indent, istr, true, 0, indent, buf + nl())
                } else {
                    render_block_items(c, src, st, indent, istr, false, 0, indent, buf + sp())
                };
                render_fn_decl_items(n, src, st, indent, istr, j + 1, b2)
            },
            _ => render_fn_decl_items(n, src, st, indent, istr, j + 1,
                render_statement(n, j, src, st, indent, istr, false, false, buf)),
        }
    }
}

/// The buffer after a whole function declaration: its leading blank
/// lines, its pieces, and a final line break.
pub open spec fn render_function_declaration(
    parent: Node, i: int, src: Seq<char>, st: Settings, indent: nat, istr: Seq<char>,
    buf: Seq<char>,
) -> Seq<char> {
    render_fn_decl_items(parent.children@[i], src, st, indent, istr, 0,
        buf + spec_decl_breaks(parent, i, st.breaks_before_function_decl as nat)) + nl()
}

/// Writes a function declaration: leading blank lines, visibility
/// tokens, return type, name, argument list, then the body block with
/// the function brace-wrapping setting.
pub fn write_function_declaration(parent: &Node, i: usize, writer: &mut Writer)
    requires
        i < parent.children@.len(),
        node_wf(parent.children@[i as int], old(writer).source@.len()),
    ensures
        final(writer).output@ == render_function_declaration(*parent, i as int,
            old(writer).source@, old(writer).settings, old(writer).indent as nat,
            old(writer).indent_string@, old(writer).output@),
        writer_core(*final(writer)) == writer_core(*old(writer)),
        final(writer).indent == old(writer).indent,
{
    let nb_lines: usize = writer.settings.breaks_before_function_decl as usize;
    write_decl_breaks(parent, i, writer, nb_lines);
    let node = &parent.children[i];
    let ghost src = old(writer).source@;
    let ghost st = old(writer).settings;
    let ghost istr = old(writer).indent_string@;
    let ghost indent0 = old(writer).indent as nat;
    let ghost full = render_fn_decl_items(parent.children@[i as int], src, st, indent0,
        istr, 0, writer.output@);
    let mut j: usize = 0;
    while j < node.children.len()
        invariant
            j <= node.children@.len(),
            i < parent.children@.len(),
            *node == parent.children@[i as int],
            node_wf(*node, writer.source@.len()),
            writer.source@ == src,
            writer.settings == st,
            writer.indent_string@ == istr,
            writer.indent as nat == indent0,
            render_fn_decl_items(*node, src, st, indent0, istr, j as int, writer.output@)
                == full,
            writer_core(*writer) == writer_core(*old(writer)),
        decreases node.children@.len() - j,
    {
        let kind = node.children[j].kind;
        match kind {
            Kind::FunctionVisibility => write_function_visibility(node, j, writer),
            Kind::Type => write_type(node, j, writer),
            Kind::Dimension => write_dimension(node, j, true, writer),
            Kind::ArgumentDeclarations => write_argument_declarations(node, j, writer),
            Kind::Symbol => write_node(&node.children[j], writer),
            Kind::Block => {
                if writer.settings.brace_wrapping_before_function {
                    writer.breakl();
                    write_block(node, j, writer, true);
                } else {
                    writer.push(' ');
                    write_block(node, j, writer, false);
                }
            },
            _ => write_statement(node, j, writer, false, false),
        }
        proof {
            assert(render_fn_decl_items(*node, src, st, indent0, istr, j + 1,
                writer.output@) == full);
        }
        j = j + 1;
    }
    writer.breakl();
    proof {
        assert(final(writer).output@ =~= render_function_declaration(*parent, i as int,
            old(writer).source@, old(writer).settings, old(writer).indent as nat,
            old(writer).indent_string@, old(writer).output@));
    }
}

/// The rendering of a function definition's pieces: visibility tokens,
/// return type, dimensions, name and argument list; everything else,
/// the terminating `;` included, keeps its own text.
pub open spec fn render_fn_def_items(n: Node, src: Seq<char>, j: int) -> Seq<char>
    decreases n, 4int, n.children@.len() - j
        via render_fn_def_items_dec
{
    if j < 0 || j >= n.children@.len() {
        Seq::empty()
    } else {
        let c = n.children@[j];
        let piece = match c.kind {
            Kind::FunctionDefinitionType => render_visibility_items(c, src, 0),
            Kind::Type => render_type(n, j, src),
            Kind::Dimension => render_dimension(n, j, true),
            Kind::ArgumentDeclarations => render_arg_decls_items(c, src, 0),
            _ => node_text(c, src),
        };
        piece + render_fn_def_items(n, src, j + 1)
    }
}

/// Writes a function definition (the forward/native form): like a
/// declaration but without a body, its `;` kept as it stands, followed
/// by a line break.
pub fn write_function_definition(parent: &Node, i: usize, writer: &mut Writer)
    requires
        i < parent.children@.len(),
        node_wf(parent.children@[i as int], old(writer).source@.len()),
    ensures
        final(writer).output@ == old(writer).output@
            + spec_decl_breaks(*parent, i as int,
                old(writer).settings.breaks_before_function_def as nat)
            + render_fn_def_items(parent.children@[i as int], old(writer).source@, 0)
            + nl(),
        writer_core(*final(writer)) == writer_core(*old(writer)),
        final(writer).indent == old(writer).indent,
{
    let nb_lines: usize = writer.settings.breaks_before_function_def as usize;
    write_decl_breaks(parent, i, writer, nb_lines);
    let node = &parent.children[i];
    let ghost src = old(writer).source@;
    let ghost base = writer.output@;
    let ghost full = render_fn_def_items(parent.children@[i as int], src, 0);
    let mut j: usize = 0;
    while j < node.children.len()
        invariant
            j <= node.children@.len(),
            i < parent.children@.len(),
            *node == parent.children@[i as int],
            node_wf(*node, writer.source@.len()),
            writer.source@ == src,
            writer.output@ + render_fn_def_items(*node, src, j as int) == base + full,
            writer_core(*writer) == writer_core(*old(writer)),
            writer.indent == old(writer).indent,
        decreases node.children@.len() - j,
    {
        let kind = node.children[j].kind;
        match kind {
            Kind::FunctionDefinitionType => write_function_visibility(node, j, writer),
            Kind::Type => write_type(node, j, writer),
            Kind::Dimension => write_dimension(node, j, true, writer),
            Kind::ArgumentDeclarations => write_argument_declarations(node, j, writer),
            Kind::Symbol => write_node(&node.children[j], writer),
            _ => write_node(&node.children[j], writer),
        }
        proof {
            assert(writer.output@ + render_fn_def_items(*node, src, j + 1)
                =~= base + full);
        }
        j = j + 1;
    }
    writer.breakl();
    proof {
        assert(final(writer).output@ =~= old(writer).output@
            + spec_decl_breaks(*parent, i as int,
                old(writer).settings.breaks_before_function_def as nat)
            + render_fn_def_items(parent.children@[i as int], old(writer).source@, 0)
            + nl());
    }
}

/// Writes a parenthesized, comma-separated argument list.
pub fn write_argument_declarations(parent: &Node, i: usize, writer: &mut Writer)
    requires
        i < parent.children@.len(),
        node_wf(parent.children@[i as int], old(writer).source@.len()),
    ensures
        final(writer).output@ == old(writer).output@
            + render_arg_decls_items(parent.children@[i as int], old(writer).source@, 0),
        writer_core(*final(writer)) == writer_core(*old(writer)),
        final(writer).indent == old(writer).indent,
{
    let node = &parent.children[i];
    let ghost src = old(writer).source@;
    let ghost base = old(writer).output@;
    let ghost full = render_arg_decls_items(parent.children@[i as int], src, 0);
    let mut j: usize = 0;
    while j < node.children.len()
        invariant
            j <= node.children@.len(),
            i < parent.children@.len(),
            *node == parent.children@[i as int],
            node_wf(*node, writer.source@.len()),
            writer.source@ == src,
            writer.output@ + render_arg_decls_items(*node, src, j as int) == base + full,
            writer_core(*writer) == writer_core(*old(writer)),
            writer.indent == old(writer).indent,
        decreases node.children@.len() - j,
    {
        let kind = node.children[j].kind;
        match kind {
            Kind::LParen | Kind::RParen => write_node(&node.children[j], writer),
            Kind::RestArgument => {
                proof {
                    crate::node::lemma_child_wf(*node, writer.source@.len(), j as int);
                }
                let rest = &node.children[j];
                let ghost rest_base = writer.output@;
                let ghost rest_full = render_rest_argument_items(
                    node.children@[j as int], src, 0);
                let mut t: usize = 0;
                while t < rest.children.len()
                    invariant
                        t <= rest.children@.len(),
                        node_wf(*rest, writer.source@.len()),
                        writer.source@ == src,
                        writer.output@ + render_rest_argument_items(*rest, src, t as int)
                            == rest_base + rest_full,
                        writer_core(*writer) == writer_core(*old(writer)),
                        writer.indent == old(writer).indent,
                    decreases rest.children@.len() - t,
                {
                    let sub_kind = rest.children[t].kind;
                    match sub_kind {
                        Kind::Type => write_node(&rest.children[t], writer),
                        Kind::OldType => write_old_type(&rest.children[t], writer),
                        _ => write_node(&rest.children[t], writer),
                    }
                    proof {
                        assert(writer.output@
                            + render_rest_argument_items(*rest, src, t + 1)
                            =~= rest_base + rest_full);
                    }
                    t = t + 1;
                }
            },
            Kind::ArgumentDeclaration => write_argument_declaration(node, j, writer),
            Kind::Comma => writer.push_str(", "),
            _ => write_node(&node.children[j], writer),
        }
        proof {
            assert(writer.output@ + render_arg_decls_items(*node, src, j + 1)
                =~= base + full);
        }
        j = j + 1;
    }
}

/// Writes one argument declaration: `const`, the argument type, the
/// symbol, its dimensions and an optional default value.
pub fn write_argument_declaration(parent: &Node, i: usize, writer: &mut Writer)
    requires
        i < parent.children@.len(),
        node_wf(parent.children@[i as int], old(writer).source@.len()),
    ensures
        final(writer).output@ == old(writer).output@
            + render_arg_decl_items(parent.children@[i as int], old(writer).source@, 0),
        writer_core(*final(writer)) == writer_core(*old(writer)),
        final(writer).indent == old(writer).indent,
{
    let node = &parent.children[i];
    let ghost src = old(writer).source@;
    let ghost base = old(writer).output@;
    let ghost full = render_arg_decl_items(parent.children@[i as int], src, 0);
    let mut j: usize = 0;
    while j < node.children.len()
        invariant
            j <= node.children@.len(),
            i < parent.children@.len(),
            *node == parent.children@[i as int],
            node_wf(*node, writer.source@.len()),
            writer.source@ == src,
            writer.output@ + render_arg_decl_items(*node, src, j as int) == base + full,
            writer_core(*writer) == writer_core(*old(writer)),
            writer.indent == old(writer).indent,
        decreases node.children@.len() - j,
    {
        let ghost pre = writer.output@;
        let kind = node.children[j].kind;
        match kind {
            Kind::KwConst => writer.push_str("const "),
            Kind::VariableStorageClass => {
                write_node(&node.children[j], writer);
                writer.push(' ');
                proof {
                    assert(writer.output@
                        =~= pre + (node_text(node.children@[j as int], src) + sp()));
                }
            },
            Kind::ArgumentType => write_argument_type(node, j, writer),
            Kind::Type => write_type(node, j, writer),
            Kind::OldType => write_old_type(&node.children[j], writer),
            Kind::Symbol => write_node(&node.children[j], writer),
            Kind::Dimension => write_dimension(node, j, true, writer),
            Kind::FixedDimension => write_fixed_dimension(node, j, true, writer),
            Kind::Equals => writer.push_str(" = "),
            _ => write_expression(&node.children[j], writer),
        }
        proof {
            assert(writer.output@ + render_arg_decl_items(*node, src, j + 1)
                =~= base + full);
        }
        j = j + 1;
    }
}

/// Writes an argument's type, which may be `&` followed by a type or an
/// old type; the `&` is followed by a space unless an old type or the
/// end of the list follows.
pub fn write_argument_type(parent: &Node, i: usize, writer: &mut Writer)
    requires
        i < parent.children@.len(),
        node_wf(parent.children@[i as int], old(writer).source@.len()),
    ensures
        final(writer).output@ == old(writer).output@
            + render_arg_type_items(parent.children@[i as int], old(writer).source@, 0),
        writer_core(*final(writer)) == writer_core(*old(writer)),
        final(writer).indent == old(writer).indent,
{
    let node = &parent.children[i];
    let ghost src = old(writer).source@;
    let ghost base = old(writer).output@;
    let ghost full = render_arg_type_items(parent.children@[i as int], src, 0);
    let mut j: usize = 0;
    while j < node.children.len()
        invariant
            j <= node.children@.len(),
            i < parent.children@.len(),
            *node == parent.children@[i as int],
            node_wf(*node, writer.source@.len()),
            writer.source@ == src,
            writer.output@ + render_arg_type_items(*node, src, j as int) == base + full,
            writer_core(*writer) == writer_core(*old(writer)),
            writer.indent == old(writer).indent,
        decreases node.children@.len() - j,
    {
        let ghost pre = writer.output@;
        let kind = node.children[j].kind;
        match kind {
            Kind::Amp => {
                let next_kind = next_sibling_kind(node, j);
                writer.push('&');
                let space: bool = match next_kind {
                    Option::None => false,
                    Option::Some(k) => k != Kind::OldType,
                };
                if space {
                    writer.push(' ');
                    proof {
                        assert(writer.output@ =~= pre + (seq!['&'] + sp()));
                    }
                }
            },
            Kind::Type => write_type(node, j, writer),
            Kind::Dimension => write_dimension(node, j, true, writer),
            _ => write_node(&node.children[j], writer),
        }
        proof {
            assert(writer.output@ + render_arg_type_items(*node, src, j + 1)
                =~= base + full);
        }
        j = j + 1;
    }
}

/// Writes visibility tokens, each followed by one space.
pub fn write_function_visibility(parent: &Node, i: usize, writer: &mut Writer)
    requires
        i < parent.children@.len(),
        node_wf(parent.children@[i as int], old(writer).source@.len()),
    ensures
        final(writer).output@ == old(writer).output@
            + render_visibility_items(parent.children@[i as int], old(writer).source@, 0),
        writer_core(*final(writer)) == writer_core(*old(writer)),
        final(writer).indent == old(writer).indent,
{
    let node = &parent.children[i];
    let ghost src = old(writer).source@;
    let ghost base = old(writer).output@;
    let ghost full = render_visibility_items(parent.children@[i as int], src, 0);
    let mut j: usize = 0;
    while j < node.children.len()
        invariant
            j <= node.children@.len(),
            i < parent.children@.len(),
            *node == parent.children@[i as int],
            node_wf(*node, writer.source@.len()),
            writer.source@ == src,
            writer.output@ + render_visibility_items(*node, src, j as int) == base + full,
            writer_core(*writer) == writer_core(*old(writer)),
            writer.indent == old(writer).indent,
        decreases node.children@.len() - j,
    {
        let ghost pre = writer.output@;
        write_node(&node.children[j], writer);
        writer.push(' ');
        proof {
            assert(writer.output@
                =~= pre + (node_text(node.children@[j as int], src) + sp()));
            assert(writer.output@ + render_visibility_items(*node, src, j + 1)
                =~= base + full);
        }
        j = j + 1;
    }
}

#[via_fn]
proof fn render_arg_type_items_dec(n: Node, src: Seq<char>, j: int) {
    if 0 <= j < n.children@.len() {
        lemma_child_decreases(n, j);
    }
}

#[via_fn]
proof fn render_arg_decl_items_dec(n: Node, src: Seq<char>, j: int) {
    if 0 <= j < n.children@.len() {
        lemma_child_decreases(n, j);
    }
}

#[via_fn]
proof fn render_arg_decls_items_dec(n: Node, src: Seq<char>, j: int) {
    if 0 <= j < n.children@.len() {
        lemma_child_decreases(n, j);
    }
}

#[via_fn]
proof fn render_fn_def_items_dec(n: Node, src: Seq<char>, j: int) {
    if 0 <= j < n.children@.len() {
        lemma_child_decreases(n, j);
    }
}

} // verus!
