//! Legacy ("old") variable declarations.
//!
//! These use a `new`/`decl` prefix token and typed prefixes instead of an
//! explicit type, but share the width-triggered break rule with modern
//! declaration lists: past the threshold, or with a comment nested in the
//! list, each `,` is followed by a newline and a run of spaces as wide as
//! the declarator.

use vstd::prelude::*;

use crate::expressions::{
    render_dimension, render_expr, render_fixed_dimension, render_old_type,
    write_dimension, write_expression, write_fixed_dimension, write_old_type,
};
use crate::node::{next_sibling_kind, node_len, node_wf, Kind, Node};
use crate::preproc::insert_break;
use crate::settings::Settings;
use crate::variables::{
    cap_usize, clone_chars, has_comment_from, sat_add, width_threshold,
};
use crate::writers::{spec_is_expression, write_comment, write_node, writer_core, Writer};

verus! {

/// The rendering of one old declaration's pieces: the typed prefix with
/// its trailing space, the symbol, its dimensions and an optional
/// initializer.
pub open spec fn render_old_var_decl_items(n: Node, src: Seq<char>, j: int) -> Seq<char>
    decreases n, 5int, n.children@.len() - j
        via render_old_var_decl_items_dec
{
    if j < 0 || j >= n.children@.len() {
        Seq::empty()
    } else {
        let c = n.children@[j];
        let piece = match c.kind {
            Kind::OldType => render_old_type(c, src),
            Kind::Dimension => render_dimension(n, j, false),
            Kind::FixedDimension => render_fixed_dimension(n, j, src, false),
            Kind::Symbol => crate::node::node_text(c, src),
            Kind::Equals => " = "@,
            _ => {
                if spec_is_expression(c.kind) {
                    render_expr(c, src)
                } else {
                    Seq::empty()
                }
            },
        };
        piece + render_old_var_decl_items(n, src, j + 1)
    }
}

/// The single-line width of an old declaration list: the rendered width
/// of each declaration, plus two characters for each `, ` between them.
pub open spec fn old_rendered_total_from(n: Node, src: Seq<char>, j: int, any: bool) -> int
    decreases n, 7int, n.children@.len() - j
        via old_rendered_total_from_dec
{
    if j < 0 || j >= n.children@.len() {
        0
    } else {
        let c = n.children@[j];
        if c.kind == Kind::OldVariableDeclaration {
            render_old_var_decl_items(c, src, 0).len() + (if any { 2int } else { 0int })
                + old_rendered_total_from(n, src, j + 1, true)
        } else {
            old_rendered_total_from(n, src, j + 1, any)
        }
    }
}

/// Whether an old declaration list enters break mode: its single-line
/// rendered width exceeds the threshold, or a comment is nested in it.
pub open spec fn spec_should_break_old(n: Node, src: Seq<char>) -> bool {
    old_rendered_total_from(n, src, 0, false) > width_threshold() || has_comment_from(n, 0)
}

proof fn lemma_old_rendered_total_nonneg(n: Node, src: Seq<char>, j: int, any: bool)
    ensures
        old_rendered_total_from(n, src, j, any) >= 0,
    decreases n.children@.len() - j,
{
    if 0 <= j < n.children@.len() {
        lemma_old_rendered_total_nonneg(n, src, j + 1, true);
        lemma_old_rendered_total_nonneg(n, src, j + 1, any);
    }
}

/// Decides whether an old declaration list breaks after each `,`: when
/// its single-line rendered width exceeds the threshold, or when a
/// comment is nested among the declarations.
pub fn should_break_declaration(node: &Node, source: &Vec<char>, settings: &Settings)
    -> (r: bool)
    requires
        node_wf(*node, source@.len()),
    ensures
        r == spec_should_break_old(*node, source@),
{
    let mut scratch = Writer {
        output: Vec::new(),
        source: clone_chars(source),
        indent: 0,
        indent_string: Vec::new(),
        skip: 0,
        settings: *settings,
    };
    let mut length: usize = 0;
    let mut any: bool = false;
    let mut nested_comment: bool = false;
    let ghost mut pre_len: int = 0;
    proof {
        lemma_old_rendered_total_nonneg(*node, source@, 0, false);
    }
    let mut j: usize = 0;
    while j < node.children.len()
        invariant
            j <= node.children@.len(),
            node_wf(*node, source@.len()),
            scratch.source@ == source@,
            pre_len >= 0,
            length == cap_usize(pre_len),
            pre_len + old_rendered_total_from(*node, source@, j as int, any)
                == old_rendered_total_from(*node, source@, 0, false),
            nested_comment ==> has_comment_from(*node, 0),
            !nested_comment ==> has_comment_from(*node, 0) == has_comment_from(*node, j as int),
        decreases node.children@.len() - j,
    {
        let ghost c = node.children@[j as int];
        let kind = node.children[j].kind;
        match kind {
            Kind::OldVariableDeclaration => {
                proof {
                    crate::node::lemma_child_wf(*node, source@.len(), j as int);
                }
                scratch.output = Vec::new();
                write_old_variable_declaration(node, j, &mut scratch);
                proof {
                    assert(scratch.output@
                        =~= render_old_var_decl_items(c, source@, 0));
                }
                let width: usize = scratch.output.len();
                let extra: usize = if any { 2 } else { 0 };
                let ghost piece = render_old_var_decl_items(c, source@, 0).len()
                    + (if any { 2int } else { 0int });
                length = sat_add(length, sat_add(width, extra));
                proof {
                    crate::variables::lemma_cap_add(pre_len, piece);
                    pre_len = pre_len + piece;
                }
                any = true;
            },
            Kind::Comment => {
                nested_comment = true;
            },
            _ => {},
        }
        j = j + 1;
    }
    length > 80 || nested_comment
}

/// Writes one old declaration: the typed prefix, the symbol, its
/// dimensions and an optional initializer.
pub fn write_old_variable_declaration(parent: &Node, i: usize, writer: &mut Writer)
    requires
        i < parent.children@.len(),
        node_wf(parent.children@[i as int], old(writer).source@.len()),
    ensures
        final(writer).output@ == old(writer).output@
            + render_old_var_decl_items(
                parent.children@[i as int], old(writer).source@, 0),
        writer_core(*final(writer)) == writer_core(*old(writer)),
        final(writer).indent == old(writer).indent,
{
    let node = &parent.children[i];
    let ghost src = old(writer).source@;
    let ghost base = old(writer).output@;
    let ghost full = render_old_var_decl_items(parent.children@[i as int], src, 0);
    let mut j: usize = 0;
    while j < node.children.len()
        invariant
            j <= node.children@.len(),
            i < parent.children@.len(),
            *node == parent.children@[i as int],
            node_wf(*node, writer.source@.len()),
            writer.source@ == src,
            writer.output@ + render_old_var_decl_items(*node, src, j as int)
                == base + full,
            writer_core(*writer) == writer_core(*old(writer)),
            writer.indent == old(writer).indent,
        decreases node.children@.len() - j,
    {
        let kind = node.children[j].kind;
        match kind {
            Kind::OldType => write_old_type(&node.children[j], writer),
            Kind::Dimension => write_dimension(node, j, false, writer),
            Kind::FixedDimension => write_fixed_dimension(node, j, false, writer),
            Kind::Symbol => write_node(&node.children[j], writer),
            Kind::Equals => writer.push_str(" = "),
            _ => {
                if writer.is_expression(kind) {
                    write_expression(&node.children[j], writer);
                }
            },
        }
        proof {
            assert(writer.output@ + render_old_var_decl_items(*node, src, j + 1)
                =~= base + full);
        }
        j = j + 1;
    }
}

/// The rendering of an old global declaration list's pieces.  `brk`
/// says whether the list is in break mode; `dlen` carries the width of
/// the declarator written so far.
pub open spec fn render_old_global_items(
    n: Node, src: Seq<char>, indent: nat, istr: Seq<char>, brk: bool, j: int, dlen: int,
) -> Seq<char>
    decreases n, 6int, n.children@.len() - j
        via render_old_global_items_dec
{
    if j < 0 || j >= n.children@.len() {
        Seq::empty()
    } else {
        let c = n.children@[j];
        match c.kind {
            Kind::VariableStorageClass | Kind::VariableVisibility
            | Kind::KwNew | Kind::KwDecl =>
                crate::node::node_text(c, src) + crate::writers::sp()
                    + render_old_global_items(n, src, indent, istr, brk, j + 1,
                        crate::variables::cap_usize(
                            dlen + crate::variables::cap_usize((c.end - c.start) + 1))),
            Kind::Comment => {
                let pad = if brk {
                    crate::writers::spaces(dlen as nat)
                } else {
                    Seq::empty()
                };
                crate::writers::spec_render_comment(n, j, src, indent, istr) + pad
                    + render_old_global_items(n, src, indent, istr, brk, j + 1, dlen)
            },
            Kind::OldVariableDeclaration => render_old_var_decl_items(c, src, 0)
                + render_old_global_items(n, src, indent, istr, brk, j + 1, dlen),
            Kind::Comma => {
                let piece = if brk {
                    if crate::node::spec_next_sibling_kind(n, j) == Some(Kind::Comment) {
                        seq![',']
                    } else {
                        ",\n"@ + crate::writers::spaces(dlen as nat)
                    }
                } else {
                    ", "@
                };
                piece + render_old_global_items(n, src, indent, istr, brk, j + 1, dlen)
            },
            _ => render_old_global_items(n, src, indent, istr, brk, j + 1, dlen),
        }
    }
}

/// Writes an old global declaration list: the `new`/`decl` or storage
/// prefix, the declarations with the break rule, the final `;`, and the
/// break decision.
pub fn write_old_global_variable_declaration(parent: &Node, i: usize, writer: &mut Writer)
    requires
        i < parent.children@.len(),
        node_wf(parent.children@[i as int], old(writer).source@.len()),
    ensures
        final(writer).output@ == old(writer).output@
            + render_old_global_items(parent.children@[i as int], old(writer).source@,
                old(writer).indent as nat, old(writer).indent_string@,
                spec_should_break_old(
                    parent.children@[i as int], old(writer).source@), 0, 0)
            + seq![';'] + crate::preproc::spec_break_of(*parent, i as int),
        writer_core(*final(writer)) == writer_core(*old(writer)),
        final(writer).indent == old(writer).indent,
{
    let node = &parent.children[i];
    proof {
        crate::node::lemma_children_spans(*node, old(writer).source@.len());
        crate::node::lemma_grandchildren_spans(*node, old(writer).source@.len());
    }
    let st = writer.settings;
    let should_break = should_break_declaration(node, &writer.source, &st);
    let ghost src = old(writer).source@;
    let ghost base = old(writer).output@;
    let ghost full = render_old_global_items(parent.children@[i as int], src,
        old(writer).indent as nat, old(writer).indent_string@, should_break, 0, 0);
    let mut declarator_length: usize = 0;
    let mut j: usize = 0;
    while j < node.children.len()
        invariant
            j <= node.children@.len(),
            i < parent.children@.len(),
            *node == parent.children@[i as int],
            node_wf(*node, writer.source@.len()),
            writer.source@ == src,
            writer.indent_string@ == old(writer).indent_string@,
            writer.output@ + render_old_global_items(*node, src,
                writer.indent as nat, writer.indent_string@, should_break,
                j as int, declarator_length as int) == base + full,
            writer_core(*writer) == writer_core(*old(writer)),
            writer.indent == old(writer).indent,
        decreases node.children@.len() - j,
    {
        let ghost pre = writer.output@;
        let kind = node.children[j].kind;
        match kind {
            Kind::VariableStorageClass | Kind::VariableVisibility
            | Kind::KwNew | Kind::KwDecl => {
                proof {
                    crate::node::lemma_child_wf(*node, writer.source@.len(), j as int);
                }
                write_node(&node.children[j], writer);
                writer.push(' ');
                declarator_length = sat_add(
                    declarator_length, sat_add(node_len(&node.children[j]), 1));
                proof {
                    assert(writer.output@ =~= pre
                        + (crate::node::node_text(node.children@[j as int], src)
                            + crate::writers::sp()));
                }
            },
            Kind::Comment => {
                write_comment(node, j, writer);
                if should_break {
                    writer.push_spaces(declarator_length);
                    proof {
                        assert(writer.output@ =~= pre
                            + (crate::writers::spec_render_comment(
                                *node, j as int, src,
                                writer.indent as nat, writer.indent_string@)
                                + crate::writers::spaces(declarator_length as nat)));
                    }
                }
            },
            Kind::OldVariableDeclaration => {
                write_old_variable_declaration(node, j, writer);
            },
            Kind::Comma => {
                if should_break {
                    let next_kind = next_sibling_kind(node, j);
                    if next_kind == Some(Kind::Comment) {
                        writer.push(',');
                    } else {
                        writer.push_str(",\n");
                        writer.push_spaces(declarator_length);
                        proof {
                            assert(writer.output@ =~= pre
                                + (",\n"@
                                    + crate::writers::spaces(declarator_length as nat)));
                        }
                    }
                } else {
                    writer.push_str(", ");
                }
            },
            Kind::Semicolon => {},
            _ => {},
        }
        proof {
            assert(writer.output@ + render_old_global_items(*node, src,
                writer.indent as nat, writer.indent_string@, should_break,
                j + 1, declarator_length as int) =~= base + full);
        }
        j = j + 1;
    }
    writer.push(';');
    insert_break(parent, i, writer);
    proof {
        assert(final(writer).output@ =~= base + full + seq![';']
            + crate::preproc::spec_break_of(*parent, i as int));
    }
}

/// The rendering of an old declaration statement's pieces; `do_indent`
/// adds the current indent on each continuation line of break mode, and
/// a kind without a rule keeps its own text.
pub open spec fn render_old_stmt_items(
    n: Node, src: Seq<char>, indent: nat, istr: Seq<char>, do_indent: bool,
    brk: bool, j: int, dlen: int,
) -> Seq<char>
    decreases n, 6int, n.children@.len() - j
        via render_old_stmt_items_dec
{
    if j < 0 || j >= n.children@.len() {
        Seq::empty()
    } else {
        let c = n.children@[j];
        let cont_indent = if do_indent {
            crate::writers::repeat_seq(istr, indent)
        } else {
            Seq::empty()
        };
        match c.kind {
            Kind::VariableStorageClass | Kind::KwNew | Kind::KwDecl =>
                crate::node::node_text(c, src) + crate::writers::sp()
                    + render_old_stmt_items(n, src, indent, istr, do_indent, brk, j + 1,
                        crate::variables::cap_usize(
                            dlen + crate::variables::cap_usize((c.end - c.start) + 1))),
            Kind::OldVariableDeclaration => render_old_var_decl_items(c, src, 0)
                + render_old_stmt_items(n, src, indent, istr, do_indent, brk, j + 1, dlen),
            Kind::Comment => {
                let pad = if brk {
                    cont_indent + crate::writers::spaces(dlen as nat)
                } else {
                    Seq::empty()
                };
                crate::writers::spec_render_comment(n, j, src, indent, istr) + pad
                    + render_old_stmt_items(n, src, indent, istr, do_indent, brk, j + 1, dlen)
            },
            Kind::Comma => {
                let piece = if brk {
                    if crate::node::spec_next_sibling_kind(n, j) == Some(Kind::Comment) {
                        seq![',']
                    } else {
                        ",\n"@ + cont_indent + crate::writers::spaces(dlen as nat)
                    }
                } else {
                    ", "@
                };
                piece + render_old_stmt_items(n, src, indent, istr, do_indent, brk, j + 1, dlen)
            },
            Kind::Semicolon =>
                render_old_stmt_items(n, src, indent, istr, do_indent, brk, j + 1, dlen),
            _ => crate::node::node_text(c, src)
                + render_old_stmt_items(n, src, indent, istr, do_indent, brk, j + 1, dlen),
        }
    }
}

/// Writes an old variable declaration statement; inside a `for`
/// initializer (`do_indent` false) it leaves out the indent and the
/// trailing `;`.
pub fn write_old_variable_declaration_statement(
    parent: &Node, i: usize, writer: &mut Writer, do_indent: bool,
)
    requires
        i < parent.children@.len(),
        node_wf(parent.children@[i as int], old(writer).source@.len()),
    ensures
        final(writer).output@ == old(writer).output@
            + (if do_indent {
                crate::writers::repeat_seq(
                    old(writer).indent_string@, old(writer).indent as nat)
            } else {
                Seq::empty()
            })
            + render_old_stmt_items(parent.children@[i as int], old(writer).source@,
                old(writer).indent as nat, old(writer).indent_string@, do_indent,
                spec_should_break_old(
                    parent.children@[i as int], old(writer).source@), 0, 0)
            + (if do_indent {
                seq![';'] + crate::preproc::spec_break_of(*parent, i as int)
            } else {
                Seq::empty()
            }),
        writer_core(*final(writer)) == writer_core(*old(writer)),
        final(writer).indent == old(writer).indent,
{
    let node = &parent.children[i];
    proof {
        crate::node::lemma_children_spans(*node, old(writer).source@.len());
    }
    let st = writer.settings;
    let should_break = should_break_declaration(node, &writer.source, &st);
    if do_indent {
        writer.write_indent();
    }
    let ghost src = old(writer).source@;
    let ghost base = writer.output@;
    let ghost full = render_old_stmt_items(parent.children@[i as int], src,
        old(writer).indent as nat, old(writer).indent_string@, do_indent,
        should_break, 0, 0);
    let mut declarator_length: usize = 0;
    let mut j: usize = 0;
    while j < node.children.len()
        invariant
            j <= node.children@.len(),
            i < parent.children@.len(),
            *node == parent.children@[i as int],
            node_wf(*node, writer.source@.len()),
            writer.source@ == src,
            writer.indent_string@ == old(writer).indent_string@,
            writer.output@ + render_old_stmt_items(*node, src,
                writer.indent as nat, writer.indent_string@, do_indent, should_break,
                j as int, declarator_length as int) == base + full,
            writer_core(*writer) == writer_core(*old(writer)),
            writer.indent == old(writer).indent,
        decreases node.children@.len() - j,
    {
        let ghost pre = writer.output@;
        let kind = node.children[j].kind;
        match kind {
            Kind::VariableStorageClass | Kind::KwNew | Kind::KwDecl => {
                proof {
                    crate::node::lemma_child_wf(*node, writer.source@.len(), j as int);
                }
                write_node(&node.children[j], writer);
                writer.push(' ');
                declarator_length = sat_add(
                    declarator_length, sat_add(node_len(&node.children[j]), 1));
                proof {
                    assert(writer.output@ =~= pre
                        + (crate::node::node_text(node.children@[j as int], src)
                            + crate::writers::sp()));
                }
            },
            Kind::OldVariableDeclaration => {
                write_old_variable_declaration(node, j, writer);
            },
            Kind::Comment => {
                write_comment(node, j, writer);
                if should_break {
                    if do_indent {
                        writer.write_indent();
                    }
                    writer.push_spaces(declarator_length);
                    proof {
                        let cont_indent = if do_indent {
                            crate::writers::repeat_seq(
                                writer.indent_string@, writer.indent as nat)
                        } else {
                            Seq::<char>::empty()
                        };
                        assert(writer.output@ =~= pre
                            + (crate::writers::spec_render_comment(
                                *node, j as int, src,
                                writer.indent as nat, writer.indent_string@)
                                + (cont_indent
                                    + crate::writers::spaces(declarator_length as nat))));
                    }
                }
            },
            Kind::Comma => {
                if should_break {
                    let next_kind = next_sibling_kind(node, j);
                    if next_kind == Some(Kind::Comment) {
                        writer.push(',');
                    } else {
                        writer.push_str(",\n");
                        if do_indent {
                            writer.write_indent();
                        }
                        writer.push_spaces(declarator_length);
                        proof {
                            let cont_indent = if do_indent {
                                crate::writers::repeat_seq(
                                    writer.indent_string@, writer.indent as nat)
                            } else {
                                Seq::<char>::empty()
                            };
                            assert(writer.output@ =~= pre
                                + (",\n"@ + cont_indent
                                    + crate::writers::spaces(declarator_length as nat)));
                        }
                    }
                } else {
                    writer.push_str(", ");
                }
            },
            Kind::Semicolon => {},
            _ => {
                proof {
                    crate::node::lemma_child_wf(*node, writer.source@.len(), j as int);
                }
                write_node(&node.children[j], writer);
            },
        }
        proof {
            assert(writer.output@ + render_old_stmt_items(*node, src,
                writer.indent as nat, writer.indent_string@, do_indent, should_break,
                j + 1, declarator_length as int) =~= base + full);
        }
        j = j + 1;
    }
    if do_indent {
        writer.push(';');
        insert_break(parent, i, writer);
    }
    proof {
        assert(final(writer).output@ =~= old(writer).output@
            + (if do_indent {
                crate::writers::repeat_seq(
                    old(writer).indent_string@, old(writer).indent as nat)
            } else {
                Seq::<char>::empty()
            })
            + render_old_stmt_items(parent.children@[i as int], old(writer).source@,
                old(writer).indent as nat, old(writer).indent_string@, do_indent,
                spec_should_break_old(
                    parent.children@[i as int], old(writer).source@), 0, 0)
            + (if do_indent {
                seq![';'] + crate::preproc::spec_break_of(*parent, i as int)
            } else {
                Seq::<char>::empty()
            }));
    }
}

#[via_fn]
proof fn render_old_stmt_items_dec(
    n: Node, src: Seq<char>, indent: nat, istr: Seq<char>, do_indent: bool,
    brk: bool, j: int, dlen: int,
) {
    if 0 <= j < n.children@.len() {
        crate::node::lemma_child_decreases(n, j);
    }
}

#[via_fn]
proof fn render_old_var_decl_items_dec(n: Node, src: Seq<char>, j: int) {
    if 0 <= j < n.children@.len() {
        crate::node::lemma_child_decreases(n, j);
    }
}

#[via_fn]
proof fn render_old_global_items_dec(
    n: Node, src: Seq<char>, indent: nat, istr: Seq<char>, brk: bool, j: int, dlen: int,
) {
    if 0 <= j < n.children@.len() {
        crate::node::lemma_child_decreases(n, j);
    }
}

#[via_fn]
proof fn old_rendered_total_from_dec(n: Node, src: Seq<char>, j: int, any: bool) {
    if 0 <= j < n.children@.len() {
        crate::node::lemma_child_decreases(n, j);
    }
}

} // verus!