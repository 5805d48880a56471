//! The statement writer.
//!
//! One entry point, `write_statement`, dispatches on the statement kind;
//! `do_indent` prefixes the current indent and `do_break` appends the
//! trailing newline decision.  Layout here depends on what stands in the
//! buffer already — an `else if` continues the `else` the enclosing
//! conditional just wrote — so the `render_*` specifications below are
//! buffer transformers: each takes the buffer as it stands and returns
//! the buffer with the statement's rendering appended.  Every writer
//! proves that it leaves exactly its specification's buffer behind.

use vstd::prelude::*;

use crate::expressions::{render_expr, write_expression};
use crate::node::{
    lemma_child_decreases, next_sibling_start, node_text, node_wf,
    spec_next_sibling_start_row, Kind, Node,
};
use crate::old_variables::{
    render_old_stmt_items, spec_should_break_old, write_old_variable_declaration_statement,
};
use crate::settings::Settings;
use crate::variables::{
    cap_usize, render_var_stmt_items, spec_max_name_length,
    write_variable_declaration_statement,
};
use crate::writers::{
    inc_indent, nl, repeat_seq, seq_ends_with, sp, spec_is_expression, spec_is_statement,
    spec_render_comment, write_comment, write_node, writer_core, Writer,
};

verus! {

/// The extra newline `do_break` inserts when the next sibling sits more
/// than one row further down.
pub open spec fn spec_gap_break(parent: Node, i: int) -> Seq<char> {
    match spec_next_sibling_start_row(parent, i) {
        Option::Some(st) => {
            if st - parent.children@[i].end_row > 1 {
                nl()
            } else {
                Seq::empty()
            }
        },
        Option::None => Seq::empty(),
    }
}

/// The buffer after one statement is written: dispatch on its kind, then
/// the `do_break` newline with its gap rule.  An old declaration
/// statement carries its own break decision, so `do_break` adds nothing
/// after it.
pub open spec fn render_statement(
    parent: Node, i: int, src: Seq<char>, st: Settings, indent: nat, istr: Seq<char>,
    do_indent: bool, do_break: bool, buf: Seq<char>,
) -> Seq<char>
    decreases parent.children@[i], 9int, 0int,
{
    let node = parent.children@[i];
    let b1 = match node.kind {
        Kind::Block => render_block_items(node, src, st, indent, istr, do_indent, 0, indent, buf),
        Kind::VariableDeclarationStatement => buf
            + (if do_indent { repeat_seq(istr, indent) } else { Seq::empty() })
            + render_var_stmt_items(node, src, indent, istr, do_indent,
                cap_usize(spec_max_name_length(node, src)), 0, 1)
            + (if do_indent { seq![';'] } else { Seq::empty() }),
        Kind::OldVariableDeclarationStatement => buf
            + (if do_indent { repeat_seq(istr, indent) } else { Seq::empty() })
            + render_old_stmt_items(node, src, indent, istr, do_indent,
                spec_should_break_old(node, src), 0, 0)
            + (if do_indent {
                seq![';'] + crate::preproc::spec_break_of(parent, i)
            } else {
                Seq::empty()
            }),
        Kind::ForLoop => render_for_items(node, src, st, indent, istr, do_indent, 0, false, buf),
        Kind::WhileLoop => render_while_items(node, src, st, indent, istr, do_indent, 0, false, buf),
        Kind::DoWhileLoop =>
            render_do_while_items(node, src, st, indent, istr, do_indent, 0, false, buf),
        Kind::BreakStatement => buf
            + (if do_indent { repeat_seq(istr, indent) } else { Seq::empty() })
            + "break"@ + seq![';'],
        Kind::ContinueStatement => buf
            + (if do_indent { repeat_seq(istr, indent) } else { Seq::empty() })
            + "continue"@ + seq![';'],
        Kind::ConditionStatement =>
            render_condition_items(node, src, st, indent, istr, do_indent, 0, false, false, buf),
        Kind::SwitchStatement =>
            render_switch_items(node, src, st, indent, istr, do_indent, 0, indent, buf),
        Kind::ReturnStatement => buf
            + render_return_items(node, src, indent, istr, do_indent, 0),
        Kind::DeleteStatement => buf
            + render_delete_items(node, src, indent, istr, do_indent, 0),
        Kind::ExpressionStatement => buf
            + (if do_indent { repeat_seq(istr, indent) } else { Seq::empty() })
            + render_expr_stmt_items(node, src, indent, istr, 0),
        _ => buf + node_text(node, src),
    };
    if do_break && !(node.kind == Kind::OldVariableDeclarationStatement && do_indent) {
        b1 + spec_gap_break(parent, i) + nl()
    } else {
        b1
    }
}

/// The buffer after a block's children from `j` on: `{` on its own line,
/// contents one level deeper, `}` back at the entry depth.
pub open spec fn render_block_items(
    n: Node, src: Seq<char>, st: Settings, entry: nat, istr: Seq<char>, do_indent: bool,
    j: int, ind: nat, buf: Seq<char>,
) -> Seq<char>
    decreases n, 8int, n.children@.len() - j
        via render_block_items_dec
{
    if j < 0 || j >= n.children@.len() {
        buf
    } else {
        let c = n.children@[j];
        match c.kind {
            Kind::LBrace => render_block_items(n, src, st, entry, istr, do_indent, j + 1,
                inc_indent(ind),
                buf + (if do_indent { repeat_seq(istr, ind) } else { Seq::empty() })
                    + node_text(c, src) + nl()),
            Kind::RBrace => render_block_items(n, src, st, entry, istr, do_indent, j + 1,
                entry, buf + repeat_seq(istr, entry) + node_text(c, src)),
            Kind::Comment => render_block_items(n, src, st, entry, istr, do_indent, j + 1,
                ind, buf + spec_render_comment(n, j, src, ind, istr)),
            _ => {
                if spec_is_statement(c.kind) {
                    render_block_items(n, src, st, entry, istr, do_indent, j + 1, ind,
                        render_statement(n, j, src, st, ind, istr, true, true, buf))
                } else {
                    render_block_items(n, src, st, entry, istr, do_indent, j + 1, ind,
                        buf + node_text(c, src))
                }
            },
        }
    }
}

/// The buffer after a `for` loop's children from `j` on; `end_cond`
/// records whether the closing parenthesis of the header has passed.
pub open spec fn render_for_items(
    n: Node, src: Seq<char>, st: Settings, indent: nat, istr: Seq<char>, do_indent: bool,
    j: int, end_cond: bool, buf: Seq<char>,
) -> Seq<char>
    decreases n, 8int, n.children@.len() - j
        via render_for_items_dec
{
    if j < 0 || j >= n.children@.len() {
        buf
    } else {
        let c = n.children@[j];
        match c.kind {
            Kind::KwFor => render_for_items(n, src, st, indent, istr, do_indent, j + 1, end_cond,
                buf + (if do_indent { repeat_seq(istr, indent) } else { Seq::empty() })
                    + node_text(c, src) + sp()),
            Kind::LParen => render_for_items(n, src, st, indent, istr, do_indent, j + 1, end_cond,
                buf + node_text(c, src)),
            Kind::RParen => render_for_items(n, src, st, indent, istr, do_indent, j + 1, true,
                buf + node_text(c, src)),
            Kind::AssignmentExpression => render_for_items(n, src, st, indent, istr, do_indent,
                j + 1, end_cond, buf + render_expr(c, src)),
            Kind::Semicolon => render_for_items(n, src, st, indent, istr, do_indent, j + 1,
                end_cond, buf + seq![';']),
            Kind::Comma => render_for_items(n, src, st, indent, istr, do_indent, j + 1,
                end_cond, buf + ", "@),
            _ => {
                if spec_is_statement(c.kind) {
                    if !end_cond {
                        let b2 = if seq_ends_with(buf, ";"@) { buf + sp() } else { buf };
                        render_for_items(n, src, st, indent, istr, do_indent, j + 1, end_cond,
                            render_statement(n, j, src, st, indent, istr, false, false, b2))
                    } else if c.kind == Kind::Block {
                        if st.brace_wrapping_before_loop {
                            render_for_items(n, src, st, indent, istr, do_indent, j + 1, end_cond,
                                render_block_items(c, src, st, indent, istr, true, 0, indent,
                                    buf + nl()))
                        } else {
                            render_for_items(n, src, st, indent, istr, do_indent, j + 1, end_cond,
                                render_block_items(c, src, st, indent, istr, false, 0, indent,
                                    buf + sp()))
                        }
                    } else {
                        render_for_items(n, src, st, indent, istr, do_indent, j + 1, end_cond,
                            render_statement(n, j, src, st, inc_indent(indent), istr,
                                true, false, buf + nl()))
                    }
                } else if spec_is_expression(c.kind) {
                    let b2 = if seq_ends_with(buf, ";"@) { buf + sp() } else { buf };
                    render_for_items(n, src, st, indent, istr, do_indent, j + 1, end_cond,
                        b2 + render_expr(c, src))
                } else {
                    render_for_items(n, src, st, indent, istr, do_indent, j + 1, end_cond,
                        buf + node_text(c, src))
                }
            },
        }
    }
}

/// The buffer after a `while` loop's children from `j` on.
pub open spec fn render_while_items(
    n: Node, src: Seq<char>, st: Settings, indent: nat, istr: Seq<char>, do_indent: bool,
    j: int, end_cond: bool, buf: Seq<char>,
) -> Seq<char>
    decreases n, 8int, n.children@.len() - j
        via render_while_items_dec
{
    if j < 0 || j >= n.children@.len() {
        buf
    } else {
        let c = n.children@[j];
        match c.kind {
            Kind::KwWhile => render_while_items(n, src, st, indent, istr, do_indent, j + 1,
                end_cond,
                buf + (if do_indent { repeat_seq(istr, indent) } else { Seq::empty() })
                    + node_text(c, src) + sp()),
            Kind::LParen => render_while_items(n, src, st, indent, istr, do_indent, j + 1,
                end_cond, buf + node_text(c, src)),
            Kind::RParen => render_while_items(n, src, st, indent, istr, do_indent, j + 1,
                true, buf + node_text(c, src)),
            _ => {
                if spec_is_statement(c.kind) {
                    if end_cond {
                        if c.kind == Kind::Block {
                            if st.brace_wrapping_before_loop {
                                render_while_items(n, src, st, indent, istr, do_indent, j + 1,
                                    end_cond,
                                    render_block_items(c, src, st, indent, istr, true, 0,
                                        indent, buf + nl()))
                            } else {
                                render_while_items(n, src, st, indent, istr, do_indent, j + 1,
                                    end_cond,
                                    render_block_items(c, src, st, indent, istr, false, 0,
                                        indent, buf + sp()))
                            }
                        } else {
                            render_while_items(n, src, st, indent, istr, do_indent, j + 1,
                                end_cond,
                                render_statement(n, j, src, st, inc_indent(indent), istr,
                                    true, false, buf + nl()))
                        }
                    } else {
                        render_while_items(n, src, st, indent, istr, do_indent, j + 1, end_cond,
                            render_statement(n, j, src, st, indent, istr, false, false, buf))
                    }
                } else if spec_is_expression(c.kind) {
                    let b2 = if seq_ends_with(buf, ";"@) { buf + sp() } else { buf };
                    render_while_items(n, src, st, indent, istr, do_indent, j + 1, end_cond,
                        b2 + render_expr(c, src))
                } else {
                    render_while_items(n, src, st, indent, istr, do_indent, j + 1, end_cond,
                        buf + node_text(c, src))
                }
            },
        }
    }
}

/// The buffer after a `do … while` loop's children from `j` on;
/// `in_cond` records whether the trailing `while` has passed.
pub open spec fn render_do_while_items(
    n: Node, src: Seq<char>, st: Settings, indent: nat, istr: Seq<char>, do_indent: bool,
    j: int, in_cond: bool, buf: Seq<char>,
) -> Seq<char>
    decreases n, 8int, n.children@.len() - j
        via render_do_while_items_dec
{
    if j < 0 || j >= n.children@.len() {
        buf
    } else {
        let c = n.children@[j];
        match c.kind {
            Kind::KwDo => render_do_while_items(n, src, st, indent, istr, do_indent, j + 1,
                in_cond,
                buf + (if do_indent { repeat_seq(istr, indent) } else { Seq::empty() })
                    + "do"@),
            Kind::KwWhile => render_do_while_items(n, src, st, indent, istr, do_indent, j + 1,
                true, buf + repeat_seq(istr, indent) + "while "@),
            Kind::LParen | Kind::RParen => render_do_while_items(n, src, st, indent, istr,
                do_indent, j + 1, in_cond, buf + node_text(c, src)),
            _ => {
                if spec_is_statement(c.kind) {
                    if in_cond {
                        render_do_while_items(n, src, st, indent, istr, do_indent, j + 1,
                            in_cond,
                            render_statement(n, j, src, st, indent, istr, false, false, buf))
                    } else if c.kind == Kind::Block {
                        let b2 = if st.brace_wrapping_before_loop {
                            render_block_items(c, src, st, indent, istr, true, 0, indent,
                                buf + nl())
                        } else {
                            render_block_items(c, src, st, indent, istr, false, 0, indent,
                                buf + sp())
                        };
                        render_do_while_items(n, src, st, indent, istr, do_indent, j + 1,
                            in_cond, b2 + nl())
                    } else {
                        render_do_while_items(n, src, st, indent, istr, do_indent, j + 1,
                            in_cond,
                            render_statement(n, j, src, st, inc_indent(indent), istr,
                                true, false, buf + nl()))
                    }
                } else if spec_is_expression(c.kind) {
                    let b2 = if seq_ends_with(buf, ";"@) { buf + sp() } else { buf };
                    render_do_while_items(n, src, st, indent, istr, do_indent, j + 1, in_cond,
                        b2 + render_expr(c, src))
                } else {
                    render_do_while_items(n, src, st, indent, istr, do_indent, j + 1, in_cond,
                        buf + node_text(c, src))
                }
            },
        }
    }
}

/// The buffer after an `if`/`else if`/`else` chain's children from `j`
/// on; `out` records that the condition has closed, `els` that an `else`
/// was seen.  An `if` that follows an `else` already in the buffer
/// continues its line.
pub open spec fn render_condition_items(
    n: Node, src: Seq<char>, st: Settings, indent: nat, istr: Seq<char>, do_indent: bool,
    j: int, out: bool, els: bool, buf: Seq<char>,
) -> Seq<char>
    decreases n, 8int, n.children@.len() - j
        via render_condition_items_dec
{
    if j < 0 || j >= n.children@.len() {
        buf
    } else {
        let c = n.children@[j];
        match c.kind {
            Kind::KwIf => {
                let b2 = if seq_ends_with(buf, "else"@) {
                    buf + sp()
                } else if do_indent {
                    buf + repeat_seq(istr, indent)
                } else {
                    buf
                };
                render_condition_items(n, src, st, indent, istr, do_indent, j + 1, out, els,
                    b2 + node_text(c, src) + sp())
            },
            Kind::KwElse => {
                let b2 = if st.brace_wrapping_before_condition {
                    buf + nl() + repeat_seq(istr, indent)
                } else {
                    buf + sp()
                };
                render_condition_items(n, src, st, indent, istr, do_indent, j + 1, true, true,
                    b2 + node_text(c, src))
            },
            Kind::LParen => render_condition_items(n, src, st, indent, istr, do_indent, j + 1,
                out, els, buf + node_text(c, src)),
            Kind::RParen => render_condition_items(n, src, st, indent, istr, do_indent, j + 1,
                true, els, buf + node_text(c, src)),
            _ => {
                if spec_is_statement(c.kind) {
                    if out {
                        if c.kind == Kind::Block {
                            if st.brace_wrapping_before_condition {
                                render_condition_items(n, src, st, indent, istr, do_indent,
                                    j + 1, out, els,
                                    render_block_items(c, src, st, indent, istr, true, 0,
                                        indent, buf + nl()))
                            } else {
                                render_condition_items(n, src, st, indent, istr, do_indent,
                                    j + 1, out, els,
                                    render_block_items(c, src, st, indent, istr, false, 0,
                                        indent, buf + sp()))
                            }
                        } else if els && c.kind == Kind::ConditionStatement {
                            render_condition_items(n, src, st, indent, istr, do_indent, j + 1,
                                out, els,
                                render_statement(n, j, src, st, indent, istr, true, false, buf))
                        } else {
                            render_condition_items(n, src, st, indent, istr, do_indent, j + 1,
                                out, els,
                                render_statement(n, j, src, st, inc_indent(indent), istr,
                                    true, false, buf + nl()))
                        }
                    } else {
                        render_condition_items(n, src, st, indent, istr, do_indent, j + 1,
                            out, els,
                            render_statement(n, j, src, st, indent, istr, false, false, buf))
                    }
                } else if spec_is_expression(c.kind) {
                    let b2 = if seq_ends_with(buf, ";"@) { buf + sp() } else { buf };
                    render_condition_items(n, src, st, indent, istr, do_indent, j + 1, out, els,
                        b2 + render_expr(c, src))
                } else {
                    render_condition_items(n, src, st, indent, istr, do_indent, j + 1, out, els,
                        buf + node_text(c, src))
                }
            },
        }
    }
}

/// The buffer after a `switch` statement's children from `j` on.
pub open spec fn render_switch_items(
    n: Node, src: Seq<char>, st: Settings, entry: nat, istr: Seq<char>, do_indent: bool,
    j: int, ind: nat, buf: Seq<char>,
) -> Seq<char>
    decreases n, 8int, n.children@.len() - j
        via render_switch_items_dec
{
    if j < 0 || j >= n.children@.len() {
        buf
    } else {
        let c = n.children@[j];
        match c.kind {
            Kind::KwSwitch => render_switch_items(n, src, st, entry, istr, do_indent, j + 1, ind,
                buf + (if do_indent { repeat_seq(istr, ind) } else { Seq::empty() })
                    + "switch "@),
            Kind::LParen | Kind::RParen => render_switch_items(n, src, st, entry, istr,
                do_indent, j + 1, ind, buf + node_text(c, src)),
            Kind::LBrace => {
                let b2 = if st.brace_wrapping_before_condition {
                    buf + nl() + repeat_seq(istr, ind)
                } else {
                    buf + sp()
                };
                render_switch_items(n, src, st, entry, istr, do_indent, j + 1,
                    inc_indent(ind), b2 + seq!['{'] + nl())
            },
            Kind::RBrace => render_switch_items(n, src, st, entry, istr, do_indent, j + 1,
                entry, buf + repeat_seq(istr, entry) + seq!['}']),
            Kind::SwitchCase => render_switch_items(n, src, st, entry, istr, do_indent, j + 1,
                ind, render_switch_case_items(c, src, st, ind, istr, 0, buf)),
            Kind::SwitchDefaultCase => render_switch_items(n, src, st, entry, istr, do_indent,
                j + 1, ind, render_switch_default_items(c, src, st, ind, istr, 0, buf)),
            _ => {
                if spec_is_expression(c.kind) {
                    render_switch_items(n, src, st, entry, istr, do_indent, j + 1, ind,
                        buf + render_expr(c, src))
                } else {
                    render_switch_items(n, src, st, entry, istr, do_indent, j + 1, ind,
                        buf + node_text(c, src))
                }
            },
        }
    }
}

/// The buffer after one `case V1, V2, …:` arm's children from `j` on;
/// the body sits one level deeper.
pub open spec fn render_switch_case_items(
    n: Node, src: Seq<char>, st: Settings, indent: nat, istr: Seq<char>, j: int,
    buf: Seq<char>,
) -> Seq<char>
    decreases n, 8int, n.children@.len() - j
        via render_switch_case_items_dec
{
    if j < 0 || j >= n.children@.len() {
        buf
    } else {
        let c = n.children@[j];
        match c.kind {
            Kind::KwCase => render_switch_case_items(n, src, st, indent, istr, j + 1,
                buf + repeat_seq(istr, indent) + node_text(c, src) + sp()),
            Kind::Colon => render_switch_case_items(n, src, st, indent, istr, j + 1,
                buf + ":\n"@),
            Kind::Comma => render_switch_case_items(n, src, st, indent, istr, j + 1,
                buf + ", "@),
            Kind::SwitchCaseValues => render_switch_case_items(n, src, st, indent, istr, j + 1,
                buf + render_case_values_items(c, src, indent, istr, 0)),
            Kind::Comment => render_switch_case_items(n, src, st, indent, istr, j + 1,
                buf + spec_render_comment(n, j, src, indent, istr)),
            _ => {
                if c.kind == Kind::Block {
                    render_switch_case_items(n, src, st, indent, istr, j + 1,
                        render_statement(n, j, src, st, indent, istr, true, true, buf))
                } else if spec_is_statement(c.kind) {
                    render_switch_case_items(n, src, st, indent, istr, j + 1,
                        render_statement(n, j, src, st, inc_indent(indent), istr,
                            true, true, buf))
                } else {
                    render_switch_case_items(n, src, st, indent, istr, j + 1,
                        buf + node_text(c, src))
                }
            },
        }
    }
}

/// The buffer after the `default:` arm's children from `j` on.
pub open spec fn render_switch_default_items(
    n: Node, src: Seq<char>, st: Settings, indent: nat, istr: Seq<char>, j: int,
    buf: Seq<char>,
) -> Seq<char>
    decreases n, 8int, n.children@.len() - j
        via render_switch_default_items_dec
{
    if j < 0 || j >= n.children@.len() {
        buf
    } else {
        let c = n.children@[j];
        match c.kind {
            Kind::KwDefault => render_switch_default_items(n, src, st, indent, istr, j + 1,
                buf + repeat_seq(istr, indent) + node_text(c, src)),
            Kind::Colon => render_switch_default_items(n, src, st, indent, istr, j + 1,
                buf + ":\n"@),
            _ => {
                if c.kind == Kind::Block {
                    render_switch_default_items(n, src, st, indent, istr, j + 1,
                        render_statement(n, j, src, st, indent, istr, true, true, buf))
                } else if spec_is_statement(c.kind) {
                    render_switch_default_items(n, src, st, indent, istr, j + 1,
                        render_statement(n, j, src, st, inc_indent(indent), istr,
                            true, true, buf))
                } else {
                    render_switch_default_items(n, src, st, indent, istr, j + 1,
                        buf + node_text(c, src))
                }
            },
        }
    }
}

/// The text a `case` arm's value list appends: `, ` between values.
pub open spec fn render_case_values_items(
    n: Node, src: Seq<char>, indent: nat, istr: Seq<char>, j: int,
) -> Seq<char>
    decreases n, 8int, n.children@.len() - j
        via render_case_values_items_dec
{
    if j < 0 || j >= n.children@.len() {
        Seq::empty()
    } else {
        let c = n.children@[j];
        let piece = match c.kind {
            Kind::Comment => spec_render_comment(n, j, src, indent, istr),
            Kind::Symbol => node_text(c, src),
            Kind::Comma => ", "@,
            _ => {
                if spec_is_expression(c.kind) {
                    render_expr(c, src)
                } else {
                    node_text(c, src)
                }
            },
        };
        piece + render_case_values_items(n, src, indent, istr, j + 1)
    }
}

/// The text a `return` statement appends: `return` bare, or `return `
/// followed by its expression, then `;`.
pub open spec fn render_return_items(
    n: Node, src: Seq<char>, indent: nat, istr: Seq<char>, do_indent: bool, j: int,
) -> Seq<char>
    decreases n, 8int, n.children@.len() - j
        via render_return_items_dec
{
    if j < 0 || j >= n.children@.len() {
        Seq::empty()
    } else {
        let c = n.children@[j];
        let piece = match c.kind {
            Kind::Comment => spec_render_comment(n, j, src, indent, istr),
            Kind::KwReturn => (if do_indent { repeat_seq(istr, indent) } else { Seq::empty() })
                + "return"@,
            Kind::Semicolon => seq![';'],
            _ => {
                if spec_is_expression(c.kind) {
                    sp() + render_expr(c, src)
                } else {
                    node_text(c, src)
                }
            },
        };
        piece + render_return_items(n, src, indent, istr, do_indent, j + 1)
    }
}

/// The text a `delete` statement appends: `delete `, its expression, `;`.
pub open spec fn render_delete_items(
    n: Node, src: Seq<char>, indent: nat, istr: Seq<char>, do_indent: bool, j: int,
) -> Seq<char>
    decreases n, 8int, n.children@.len() - j
        via render_delete_items_dec
{
    if j < 0 || j >= n.children@.len() {
        Seq::empty()
    } else {
        let c = n.children@[j];
        let piece = match c.kind {
            Kind::Comment => spec_render_comment(n, j, src, indent, istr),
            Kind::KwDelete => (if do_indent { repeat_seq(istr, indent) } else { Seq::empty() })
                + "delete "@,
            Kind::Semicolon => seq![';'],
            _ => {
                if spec_is_expression(c.kind) {
                    render_expr(c, src)
                } else {
                    node_text(c, src)
                }
            },
        };
        piece + render_delete_items(n, src, indent, istr, do_indent, j + 1)
    }
}

/// The text an expression statement appends: the expression and its `;`.
pub open spec fn render_expr_stmt_items(
    n: Node, src: Seq<char>, indent: nat, istr: Seq<char>, j: int,
) -> Seq<char>
    decreases n, 8int, n.children@.len() - j
        via render_expr_stmt_items_dec
{
    if j < 0 || j >= n.children@.len() {
        Seq::empty()
    } else {
        let c = n.children@[j];
        let piece = match c.kind {
            Kind::Comment => spec_render_comment(n, j, src, indent, istr),
            _ => {
                if spec_is_expression(c.kind) {
                    render_expr(c, src)
                } else {
                    node_text(c, src)
                }
            },
        };
        piece + render_expr_stmt_items(n, src, indent, istr, j + 1)
    }
}

/// Writes one statement.  `do_indent` prefixes the current indent where
/// the form asks for it; `do_break` appends a newline, preceded by a
/// second one when the next sibling sits more than one row further down.
/// An old declaration statement carries its own break decision, so
/// `do_break` adds nothing after it.
pub fn write_statement(
    parent: &Node, i: usize, writer: &mut Writer, do_indent: bool, do_break: bool,
)
    requires
        i < parent.children@.len(),
        node_wf(parent.children@[i as int], old(writer).source@.len()),
    ensures
        final(writer).output@ == render_statement(*parent, i as int, old(writer).source@,
            old(writer).settings, old(writer).indent as nat, old(writer).indent_string@,
            do_indent, do_break, old(writer).output@),
        writer_core(*final(writer)) == writer_core(*old(writer)),
        final(writer).indent == old(writer).indent,
    decreases parent.children@[i as int], 9int,
{
    let node = &parent.children[i];
    let kind = node.kind;
    match kind {
        Kind::Block => write_block(parent, i, writer, do_indent),
        Kind::VariableDeclarationStatement => {
            write_variable_declaration_statement(parent, i, writer, do_indent);
        },
        Kind::OldVariableDeclarationStatement => {
            write_old_variable_declaration_statement(parent, i, writer, do_indent);
        },
        Kind::ForLoop => write_for_loop(parent, i, writer, do_indent),
        Kind::WhileLoop => write_while_loop(parent, i, writer, do_indent),
        Kind::DoWhileLoop => write_do_while_loop(parent, i, writer, do_indent),
        Kind::BreakStatement => {
            if do_indent {
                writer.write_indent();
            }
            writer.push_str("break");
            writer.push(';');
        },
        Kind::ContinueStatement => {
            if do_indent {
                writer.write_indent();
            }
            writer.push_str("continue");
            writer.push(';');
        },
        Kind::ConditionStatement => write_condition_statement(parent, i, writer, do_indent),
        Kind::SwitchStatement => write_switch_statement(parent, i, writer, do_indent),
        Kind::ReturnStatement => write_return_statement(parent, i, writer, do_indent),
        Kind::DeleteStatement => write_delete_statement(parent, i, writer, do_indent),
        Kind::ExpressionStatement => {
            if do_indent {
                writer.write_indent();
            }
            write_expression_statement(parent, i, writer);
        },
        _ => write_node(node, writer),
    }
    let skip_break: bool = kind == Kind::OldVariableDeclarationStatement && do_indent;
    let ghost mid = writer.output@;
    if do_break && !skip_break {
        match next_sibling_start(parent, i) {
            Option::Some(st) => {
                if st > node.end_row && st - node.end_row > 1 {
                    writer.breakl();
                }
            },
            Option::None => {},
        }
        writer.breakl();
        proof {
            assert(writer.output@ =~= mid + spec_gap_break(*parent, i as int) + nl());
        }
    }
    proof {
        assert(final(writer).output@ =~= render_statement(*parent, i as int,
            old(writer).source@, old(writer).settings, old(writer).indent as nat,
            old(writer).indent_string@, do_indent, do_break, old(writer).output@));
    }
}

/// Writes a block: `{` on its own line, the contents indented one level
/// deeper, `}` back at the block's own indent.
pub fn write_block(parent: &Node, i: usize, writer: &mut Writer, do_indent: bool)
    requires
        i < parent.children@.len(),
        node_wf(parent.children@[i as int], old(writer).source@.len()),
    ensures
        final(writer).output@ == render_block_items(parent.children@[i as int],
            old(writer).source@, old(writer).settings, old(writer).indent as nat,
            old(writer).indent_string@, do_indent, 0, old(writer).indent as nat,
            old(writer).output@),
        writer_core(*final(writer)) == writer_core(*old(writer)),
        final(writer).indent == old(writer).indent,
    decreases parent.children@[i as int], 8int,
{
    let node = &parent.children[i];
    let entry_indent: usize = writer.indent;
    let ghost src = old(writer).source@;
    let ghost st = old(writer).settings;
    let ghost istr = old(writer).indent_string@;
    let ghost full = render_block_items(parent.children@[i as int], src, st,
        entry_indent as nat, istr, do_indent, 0, entry_indent as nat, old(writer).output@);
    let mut j: usize = 0;
    while j < node.children.len()
        invariant
            j <= node.children@.len(),
            i < parent.children@.len(),
            *node == parent.children@[i as int],
            node_wf(*node, writer.source@.len()),
            writer.source@ == src,
            writer.settings == st,
            writer.indent_string@ == istr,
            render_block_items(*node, src, st, entry_indent as nat, istr, do_indent,
                j as int, writer.indent as nat, writer.output@) == full,
            writer_core(*writer) == writer_core(*old(writer)),
        decreases node.children@.len() - j,
    {
        let ghost pre = writer.output@;
        let kind = node.children[j].kind;
        match kind {
            Kind::LBrace => {
                let ghost ind0 = writer.indent as nat;
                if do_indent {
                    writer.write_indent();
                }
                write_node(&node.children[j], writer);
                writer.breakl();
                writer.indent_inc();
                proof {
                    assert(writer.indent as nat == inc_indent(ind0));
                    assert(writer.output@ =~= pre
                        + (if do_indent { repeat_seq(istr, ind0) }
                            else { Seq::<char>::empty() })
                        + node_text(node.children@[j as int], src) + nl());
                }
            },
            Kind::RBrace => {
                writer.indent = entry_indent;
                writer.write_indent();
                write_node(&node.children[j], writer);
                proof {
                    assert(writer.output@ =~= pre + repeat_seq(istr, entry_indent as nat)
                        + node_text(node.children@[j as int], src));
                }
            },
            Kind::Comment => {
                write_comment(node, j, writer);
            },
            _ => {
                if writer.is_statement(kind) {
                    proof {
                        lemma_child_decreases(*node, j as int);
                    }
                    write_statement(node, j, writer, true, true);
                } else {
                    write_node(&node.children[j], writer);
                }
            },
        }
        proof {
            assert(render_block_items(*node, src, st, entry_indent as nat, istr, do_indent,
                j + 1, writer.indent as nat, writer.output@) == full);
        }
        j = j + 1;
    }
    writer.indent = entry_indent;
}

/// Writes a `for` loop: header tokens with `; ` between the clauses, then
/// the body with the loop's brace-wrapping setting.
pub fn write_for_loop(parent: &Node, i: usize, writer: &mut Writer, do_indent: bool)
    requires
        i < parent.children@.len(),
        node_wf(parent.children@[i as int], old(writer).source@.len()),
    ensures
        final(writer).output@ == render_for_items(parent.children@[i as int],
            old(writer).source@, old(writer).settings, old(writer).indent as nat,
            old(writer).indent_string@, do_indent, 0, false, old(writer).output@),
        writer_core(*final(writer)) == writer_core(*old(writer)),
        final(writer).indent == old(writer).indent,
    decreases parent.children@[i as int], 8int,
{
    let node = &parent.children[i];
    let entry_indent: usize = writer.indent;
    let ghost src = old(writer).source@;
    let ghost st = old(writer).settings;
    let ghost istr = old(writer).indent_string@;
    let ghost full = render_for_items(parent.children@[i as int], src, st,
        entry_indent as nat, istr, do_indent, 0, false, old(writer).output@);
    let mut end_condition_reached: bool = false;
    let mut j: usize = 0;
    while j < node.children.len()
        invariant
            j <= node.children@.len(),
            i < parent.children@.len(),
            *node == parent.children@[i as int],
            node_wf(*node, writer.source@.len()),
            writer.source@ == src,
            writer.settings == st,
            writer.indent_string@ == istr,
            writer.indent == entry_indent,
            render_for_items(*node, src, st, entry_indent as nat, istr, do_indent,
                j as int, end_condition_reached, writer.output@) == full,
            writer_core(*writer) == writer_core(*old(writer)),
        decreases node.children@.len() - j,
    {
        let ghost pre = writer.output@;
        let kind = node.children[j].kind;
        match kind {
            Kind::KwFor => {
                if do_indent {
                    writer.write_indent();
                }
                write_node(&node.children[j], writer);
                writer.push(' ');
                proof {
                    assert(writer.output@ =~= pre
                        + (if do_indent { repeat_seq(istr, entry_indent as nat) }
                            else { Seq::<char>::empty() })
                        + node_text(node.children@[j as int], src) + sp());
                }
            },
            Kind::LParen => write_node(&node.children[j], writer),
            Kind::RParen => {
                end_condition_reached = true;
                write_node(&node.children[j], writer);
            },
            Kind::AssignmentExpression => {
                write_expression(&node.children[j], writer);
            },
            Kind::Semicolon => writer.push(';'),
            Kind::Comma => writer.push_str(", "),
            _ => {
                if writer.is_statement(kind) {
                    proof {
                        lemma_child_decreases(*node, j as int);
                    }
                    if !end_condition_reached {
                        if writer.ends_with(";") {
                            writer.push(' ');
                        }
                        write_statement(node, j, writer, false, false);
                    } else if kind == Kind::Block {
                        if writer.settings.brace_wrapping_before_loop {
                            writer.breakl();
                            write_block(node, j, writer, true);
                        } else {
                            writer.push(' ');
                            write_block(node, j, writer, false);
                        }
                    } else {
                        writer.breakl();
                        writer.indent_inc();
                        write_statement(node, j, writer, true, false);
                        writer.indent = entry_indent;
                    }
                } else if writer.is_expression(kind) {
                    if writer.ends_with(";") {
                        writer.push(' ');
                    }
                    write_expression(&node.children[j], writer);
                } else {
                    write_node(&node.children[j], writer);
                }
            },
        }
        proof {
            assert(render_for_items(*node, src, st, entry_indent as nat, istr, do_indent,
                j + 1, end_condition_reached, writer.output@) == full);
        }
        j = j + 1;
    }
    writer.indent = entry_indent;
}

/// Writes a `while` loop.
pub fn write_while_loop(parent: &Node, i: usize, writer: &mut Writer, do_indent: bool)
    requires
        i < parent.children@.len(),
        node_wf(parent.children@[i as int], old(writer).source@.len()),
    ensures
        final(writer).output@ == render_while_items(parent.children@[i as int],
            old(writer).source@, old(writer).settings, old(writer).indent as nat,
            old(writer).indent_string@, do_indent, 0, false, old(writer).output@),
        writer_core(*final(writer)) == writer_core(*old(writer)),
        final(writer).indent == old(writer).indent,
    decreases parent.children@[i as int], 8int,
{
    let node = &parent.children[i];
    let entry_indent: usize = writer.indent;
    let ghost src = old(writer).source@;
    let ghost st = old(writer).settings;
    let ghost istr = old(writer).indent_string@;
    let ghost full = render_while_items(parent.children@[i as int], src, st,
        entry_indent as nat, istr, do_indent, 0, false, old(writer).output@);
    let mut end_condition_reached: bool = false;
    let mut j: usize = 0;
    while j < node.children.len()
        invariant
            j <= node.children@.len(),
            i < parent.children@.len(),
            *node == parent.children@[i as int],
            node_wf(*node, writer.source@.len()),
            writer.source@ == src,
            writer.settings == st,
            writer.indent_string@ == istr,
            writer.indent == entry_indent,
            render_while_items(*node, src, st, entry_indent as nat, istr, do_indent,
                j as int, end_condition_reached, writer.output@) == full,
            writer_core(*writer) == writer_core(*old(writer)),
        decreases node.children@.len() - j,
    {
        let ghost pre = writer.output@;
        let kind = node.children[j].kind;
        match kind {
            Kind::KwWhile => {
                if do_indent {
                    writer.write_indent();
                }
                write_node(&node.children[j], writer);
                writer.push(' ');
                proof {
                    assert(writer.output@ =~= pre
                        + (if do_indent { repeat_seq(istr, entry_indent as nat) }
                            else { Seq::<char>::empty() })
                        + node_text(node.children@[j as int], src) + sp());
                }
            },
            Kind::LParen => write_node(&node.children[j], writer),
            Kind::RParen => {
                end_condition_reached = true;
                write_node(&node.children[j], writer);
            },
            _ => {
                if writer.is_statement(kind) {
                    proof {
                        lemma_child_decreases(*node, j as int);
                    }
                    if end_condition_reached {
                        if kind == Kind::Block {
                            if writer.settings.brace_wrapping_before_loop {
                                writer.breakl();
                                write_block(node, j, writer, true);
                            } else {
                                writer.push(' ');
                                write_block(node, j, writer, false);
                            }
                        } else {
                            writer.breakl();
                            writer.indent_inc();
                            write_statement(node, j, writer, true, false);
                            writer.indent = entry_indent;
                        }
                    } else {
                        write_statement(node, j, writer, false, false);
                    }
                } else if writer.is_expression(kind) {
                    if writer.ends_with(";") {
                        writer.push(' ');
                    }
                    write_expression(&node.children[j], writer);
                } else {
                    write_node(&node.children[j], writer);
                }
            },
        }
        proof {
            assert(render_while_items(*node, src, st, entry_indent as nat, istr, do_indent,
                j + 1, end_condition_reached, writer.output@) == full);
        }
        j = j + 1;
    }
    writer.indent = entry_indent;
}

/// Writes a `do … while (…)` loop; the condition follows the body on a
/// line of its own.
pub fn write_do_while_loop(parent: &Node, i: usize, writer: &mut Writer, do_indent: bool)
    requires
        i < parent.children@.len(),
        node_wf(parent.children@[i as int], old(writer).source@.len()),
    ensures
        final(writer).output@ == render_do_while_items(parent.children@[i as int],
            old(writer).source@, old(writer).settings, old(writer).indent as nat,
            old(writer).indent_string@, do_indent, 0, false, old(writer).output@),
        writer_core(*final(writer)) == writer_core(*old(writer)),
        final(writer).indent == old(writer).indent,
    decreases parent.children@[i as int], 8int,
{
    let node = &parent.children[i];
    let entry_indent: usize = writer.indent;
    let ghost src = old(writer).source@;
    let ghost st = old(writer).settings;
    let ghost istr = old(writer).indent_string@;
    let ghost full = render_do_while_items(parent.children@[i as int], src, st,
        entry_indent as nat, istr, do_indent, 0, false, old(writer).output@);
    let mut in_condition: bool = false;
    let mut j: usize = 0;
    while j < node.children.len()
        invariant
            j <= node.children@.len(),
            i < parent.children@.len(),
            *node == parent.children@[i as int],
            node_wf(*node, writer.source@.len()),
            writer.source@ == src,
            writer.settings == st,
            writer.indent_string@ == istr,
            writer.indent == entry_indent,
            render_do_while_items(*node, src, st, entry_indent as nat, istr, do_indent,
                j as int, in_condition, writer.output@) == full,
            writer_core(*writer) == writer_core(*old(writer)),
        decreases node.children@.len() - j,
    {
        let ghost pre = writer.output@;
        let kind = node.children[j].kind;
        match kind {
            Kind::KwDo => {
                if do_indent {
                    writer.write_indent();
                }
                writer.push_str("do");
                proof {
                    assert(writer.output@ =~= pre
                        + (if do_indent { repeat_seq(istr, entry_indent as nat) }
                            else { Seq::<char>::empty() })
                        + "do"@);
                }
            },
            Kind::KwWhile => {
                in_condition = true;
                writer.write_indent();
                writer.push_str("while ");
                proof {
                    assert(writer.output@ =~= pre + repeat_seq(istr, entry_indent as nat)
                        + "while "@);
                }
            },
            Kind::LParen => write_node(&node.children[j], writer),
            Kind::RParen => write_node(&node.children[j], writer),
            _ => {
                if writer.is_statement(kind) {
                    proof {
                        lemma_child_decreases(*node, j as int);
                    }
                    if in_condition {
                        write_statement(node, j, writer, false, false);
                    } else if kind == Kind::Block {
                        if writer.settings.brace_wrapping_before_loop {
                            writer.breakl();
                            write_block(node, j, writer, true);
                        } else {
                            writer.push(' ');
                            write_block(node, j, writer, false);
                        }
                        writer.breakl();
                    } else {
                        writer.breakl();
                        writer.indent_inc();
                        write_statement(node, j, writer, true, false);
                        writer.indent = entry_indent;
                    }
                } else if writer.is_expression(kind) {
                    if writer.ends_with(";") {
                        writer.push(' ');
                    }
                    write_expression(&node.children[j], writer);
                } else {
                    write_node(&node.children[j], writer);
                }
            },
        }
        proof {
            assert(render_do_while_items(*node, src, st, entry_indent as nat, istr, do_indent,
                j + 1, in_condition, writer.output@) == full);
        }
        j = j + 1;
    }
    writer.indent = entry_indent;
}

/// Writes an `if`/`else if`/`else` chain: under wrapped braces the
/// `else` goes on its own indented line, under attached braces it
/// follows the closing brace; an `else if` continues on the `else`'s
/// line.
pub fn write_condition_statement(parent: &Node, i: usize, writer: &mut Writer, do_indent: bool)
    requires
        i < parent.children@.len(),
        node_wf(parent.children@[i as int], old(writer).source@.len()),
    ensures
        final(writer).output@ == render_condition_items(parent.children@[i as int],
            old(writer).source@, old(writer).settings, old(writer).indent as nat,
            old(writer).indent_string@, do_indent, 0, false, false, old(writer).output@),
        writer_core(*final(writer)) == writer_core(*old(writer)),
        final(writer).indent == old(writer).indent,
    decreases parent.children@[i as int], 8int,
{
    let node = &parent.children[i];
    let entry_indent: usize = writer.indent;
    let ghost src = old(writer).source@;
    let ghost st = old(writer).settings;
    let ghost istr = old(writer).indent_string@;
    let ghost full = render_condition_items(parent.children@[i as int], src, st,
        entry_indent as nat, istr, do_indent, 0, false, false, old(writer).output@);
    let mut out_of_condition: bool = false;
    let mut else_statement: bool = false;
    let mut j: usize = 0;
    while j < node.children.len()
        invariant
            j <= node.children@.len(),
            i < parent.children@.len(),
            *node == parent.children@[i as int],
            node_wf(*node, writer.source@.len()),
            writer.source@ == src,
            writer.settings == st,
            writer.indent_string@ == istr,
            writer.indent == entry_indent,
            render_condition_items(*node, src, st, entry_indent as nat, istr, do_indent,
                j as int, out_of_condition, else_statement, writer.output@) == full,
            writer_core(*writer) == writer_core(*old(writer)),
        decreases node.children@.len() - j,
    {
        let ghost pre = writer.output@;
        let kind = node.children[j].kind;
        match kind {
            Kind::KwIf => {
                if writer.ends_with("else") {
                    writer.push(' ');
                } else if do_indent {
                    writer.write_indent();
                }
                write_node(&node.children[j], writer);
                writer.push(' ');
                proof {
                    let b2 = if seq_ends_with(pre, "else"@) {
                        pre + sp()
                    } else if do_indent {
                        pre + repeat_seq(istr, entry_indent as nat)
                    } else {
                        pre
                    };
                    assert(writer.output@ =~= b2
                        + node_text(node.children@[j as int], src) + sp());
                }
            },
            Kind::KwElse => {
                if writer.settings.brace_wrapping_before_condition {
                    writer.breakl();
                    writer.write_indent();
                } else {
                    writer.push(' ');
                }
                write_node(&node.children[j], writer);
                out_of_condition = true;
                else_statement = true;
                proof {
                    let b2 = if st.brace_wrapping_before_condition {
                        pre + nl() + repeat_seq(istr, entry_indent as nat)
                    } else {
                        pre + sp()
                    };
                    assert(writer.output@ =~= b2 + node_text(node.children@[j as int], src));
                }
            },
            Kind::LParen => write_node(&node.children[j], writer),
            Kind::RParen => {
                write_node(&node.children[j], writer);
                out_of_condition = true;
            },
            _ => {
                if writer.is_statement(kind) {
                    proof {
                        lemma_child_decreases(*node, j as int);
                    }
                    if out_of_condition {
                        if kind == Kind::Block {
                            if writer.settings.brace_wrapping_before_condition {
                                writer.breakl();
                                write_block(node, j, writer, true);
                            } else {
                                writer.push(' ');
                                write_block(node, j, writer, false);
                            }
                        } else if else_statement && kind == Kind::ConditionStatement {
                            write_statement(node, j, writer, true, false);
                        } else {
                            writer.breakl();
                            writer.indent_inc();
                            write_statement(node, j, writer, true, false);
                            writer.indent = entry_indent;
                        }
                    } else {
                        write_statement(node, j, writer, false, false);
                    }
                } else if writer.is_expression(kind) {
                    if writer.ends_with(";") {
                        writer.push(' ');
                    }
                    write_expression(&node.children[j], writer);
                } else {
                    write_node(&node.children[j], writer);
                }
            },
        }
        proof {
            assert(render_condition_items(*node, src, st, entry_indent as nat, istr,
                do_indent, j + 1, out_of_condition, else_statement, writer.output@) == full);
        }
        j = j + 1;
    }
    writer.indent = entry_indent;
}

/// Writes a `switch` statement: the brace follows the condition setting,
/// cases are indented one level.
pub fn write_switch_statement(parent: &Node, i: usize, writer: &mut Writer, do_indent: bool)
    requires
        i < parent.children@.len(),
        node_wf(parent.children@[i as int], old(writer).source@.len()),
    ensures
        final(writer).output@ == render_switch_items(parent.children@[i as int],
            old(writer).source@, old(writer).settings, old(writer).indent as nat,
            old(writer).indent_string@, do_indent, 0, old(writer).indent as nat,
            old(writer).output@),
        writer_core(*final(writer)) == writer_core(*old(writer)),
        final(writer).indent == old(writer).indent,
    decreases parent.children@[i as int], 8int,
{
    let node = &parent.children[i];
    let entry_indent: usize = writer.indent;
    let ghost src = old(writer).source@;
    let ghost st = old(writer).settings;
    let ghost istr = old(writer).indent_string@;
    let ghost full = render_switch_items(parent.children@[i as int], src, st,
        entry_indent as nat, istr, do_indent, 0, entry_indent as nat, old(writer).output@);
    let mut j: usize = 0;
    while j < node.children.len()
        invariant
            j <= node.children@.len(),
            i < parent.children@.len(),
            *node == parent.children@[i as int],
            node_wf(*node, writer.source@.len()),
            writer.source@ == src,
            writer.settings == st,
            writer.indent_string@ == istr,
            render_switch_items(*node, src, st, entry_indent as nat, istr, do_indent,
                j as int, writer.indent as nat, writer.output@) == full,
            writer_core(*writer) == writer_core(*old(writer)),
        decreases node.children@.len() - j,
    {
        let ghost pre = writer.output@;
        let kind = node.children[j].kind;
        match kind {
            Kind::KwSwitch => {
                if do_indent {
                    writer.write_indent();
                }
                writer.push_str("switch ");
                proof {
                    assert(writer.output@ =~= pre
                        + (if do_indent { repeat_seq(istr, writer.indent as nat) }
                            else { Seq::<char>::empty() })
                        + "switch "@);
                }
            },
            Kind::LParen => write_node(&node.children[j], writer),
            Kind::RParen => write_node(&node.children[j], writer),
            Kind::LBrace => {
                let ghost ind0 = writer.indent as nat;
                if writer.settings.brace_wrapping_before_condition {
                    writer.breakl();
                    writer.write_indent();
                } else {
                    writer.push(' ');
                }
                writer.push('{');
                writer.breakl();
                writer.indent_inc();
                proof {
                    assert(writer.indent as nat == inc_indent(ind0));
                    let b2 = if st.brace_wrapping_before_condition {
                        pre + nl() + repeat_seq(istr, ind0)
                    } else {
                        pre + sp()
                    };
                    assert(writer.output@ =~= b2 + seq!['{'] + nl());
                }
            },
            Kind::RBrace => {
                writer.indent = entry_indent;
                writer.write_indent();
                writer.push('}');
                proof {
                    assert(writer.output@ =~= pre + repeat_seq(istr, entry_indent as nat)
                        + seq!['}']);
                }
            },
            Kind::SwitchCase => {
                proof {
                    lemma_child_decreases(*node, j as int);
                }
                write_switch_case(node, j, writer);
            },
            Kind::SwitchDefaultCase => {
                proof {
                    lemma_child_decreases(*node, j as int);
                }
                write_switch_default_case(node, j, writer);
            },
            _ => {
                if writer.is_expression(kind) {
                    write_expression(&node.children[j], writer);
                } else {
                    write_node(&node.children[j], writer);
                }
            },
        }
        proof {
            assert(render_switch_items(*node, src, st, entry_indent as nat, istr, do_indent,
                j + 1, writer.indent as nat, writer.output@) == full);
        }
        j = j + 1;
    }
    writer.indent = entry_indent;
}

/// Writes one `case V1, V2, …:` arm and its body, indented one level.
pub fn write_switch_case(parent: &Node, i: usize, writer: &mut Writer)
    requires
        i < parent.children@.len(),
        node_wf(parent.children@[i as int], old(writer).source@.len()),
    ensures
        final(writer).output@ == render_switch_case_items(parent.children@[i as int],
            old(writer).source@, old(writer).settings, old(writer).indent as nat,
            old(writer).indent_string@, 0, old(writer).output@),
        writer_core(*final(writer)) == writer_core(*old(writer)),
        final(writer).indent == old(writer).indent,
    decreases parent.children@[i as int], 8int,
{
    let node = &parent.children[i];
    let entry_indent: usize = writer.indent;
    let ghost src = old(writer).source@;
    let ghost st = old(writer).settings;
    let ghost istr = old(writer).indent_string@;
    let ghost full = render_switch_case_items(parent.children@[i as int], src, st,
        entry_indent as nat, istr, 0, old(writer).output@);
    let mut j: usize = 0;
    while j < node.children.len()
        invariant
            j <= node.children@.len(),
            i < parent.children@.len(),
            *node == parent.children@[i as int],
            node_wf(*node, writer.source@.len()),
            writer.source@ == src,
            writer.settings == st,
            writer.indent_string@ == istr,
            writer.indent == entry_indent,
            render_switch_case_items(*node, src, st, entry_indent as nat, istr,
                j as int, writer.output@) == full,
            writer_core(*writer) == writer_core(*old(writer)),
        decreases node.children@.len() - j,
    {
        let ghost pre = writer.output@;
        let kind = node.children[j].kind;
        match kind {
            Kind::KwCase => {
                writer.write_indent();
                write_node(&node.children[j], writer);
                writer.push(' ');
                proof {
                    assert(writer.output@ =~= pre + repeat_seq(istr, entry_indent as nat)
                        + node_text(node.children@[j as int], src) + sp());
                }
            },
            Kind::Colon => {
                writer.push_str(":\n");
            },
            Kind::Comma => writer.push_str(", "),
            Kind::SwitchCaseValues => {
                proof {
                    lemma_child_decreases(*node, j as int);
                }
                write_switch_case_values(node, j, writer);
            },
            Kind::Comment => write_comment(node, j, writer),
            _ => {
                proof {
                    lemma_child_decreases(*node, j as int);
                }
                if kind == Kind::Block {
                    write_statement(node, j, writer, true, true);
                } else if writer.is_statement(kind) {
                    writer.indent_inc();
                    write_statement(node, j, writer, true, true);
                    writer.indent = entry_indent;
                } else {
                    write_node(&node.children[j], writer);
                }
            },
        }
        proof {
            assert(render_switch_case_items(*node, src, st, entry_indent as nat, istr,
                j + 1, writer.output@) == full);
        }
        j = j + 1;
    }
    writer.indent = entry_indent;
}

/// Writes the `default:` arm of a switch and its body.
pub fn write_switch_default_case(parent: &Node, i: usize, writer: &mut Writer)
    requires
        i < parent.children@.len(),
        node_wf(parent.children@[i as int], old(writer).source@.len()),
    ensures
        final(writer).output@ == render_switch_default_items(parent.children@[i as int],
            old(writer).source@, old(writer).settings, old(writer).indent as nat,
            old(writer).indent_string@, 0, old(writer).output@),
        writer_core(*final(writer)) == writer_core(*old(writer)),
        final(writer).indent == old(writer).indent,
    decreases parent.children@[i as int], 8int,
{
    let node = &parent.children[i];
    let entry_indent: usize = writer.indent;
    let ghost src = old(writer).source@;
    let ghost st = old(writer).settings;
    let ghost istr = old(writer).indent_string@;
    let ghost full = render_switch_default_items(parent.children@[i as int], src, st,
        entry_indent as nat, istr, 0, old(writer).output@);
    let mut j: usize = 0;
    while j < node.children.len()
        invariant
            j <= node.children@.len(),
            i < parent.children@.len(),
            *node == parent.children@[i as int],
            node_wf(*node, writer.source@.len()),
            writer.source@ == src,
            writer.settings == st,
            writer.indent_string@ == istr,
            writer.indent == entry_indent,
            render_switch_default_items(*node, src, st, entry_indent as nat, istr,
                j as int, writer.output@) == full,
            writer_core(*writer) == writer_core(*old(writer)),
        decreases node.children@.len() - j,
    {
        let ghost pre = writer.output@;
        let kind = node.children[j].kind;
        match kind {
            Kind::KwDefault => {
                writer.write_indent();
                write_node(&node.children[j], writer);
                proof {
                    assert(writer.output@ =~= pre + repeat_seq(istr, entry_indent as nat)
                        + node_text(node.children@[j as int], src));
                }
            },
            Kind::Colon => {
                writer.push_str(":\n");
            },
            _ => {
                proof {
                    lemma_child_decreases(*node, j as int);
                }
                if kind == Kind::Block {
                    write_statement(node, j, writer, true, true);
                } else if writer.is_statement(kind) {
                    writer.indent_inc();
                    write_statement(node, j, writer, true, true);
                    writer.indent = entry_indent;
                } else {
                    write_node(&node.children[j], writer);
                }
            },
        }
        proof {
            assert(render_switch_default_items(*node, src, st, entry_indent as nat, istr,
                j + 1, writer.output@) == full);
        }
        j = j + 1;
    }
    writer.indent = entry_indent;
}

/// Writes the comma-separated value list of a `case` arm.
pub fn write_switch_case_values(parent: &Node, i: usize, writer: &mut Writer)
    requires
        i < parent.children@.len(),
        node_wf(parent.children@[i as int], old(writer).source@.len()),
    ensures
        final(writer).output@ == old(writer).output@
            + render_case_values_items(parent.children@[i as int], old(writer).source@,
                old(writer).indent as nat, old(writer).indent_string@, 0),
        writer_core(*final(writer)) == writer_core(*old(writer)),
        final(writer).indent == old(writer).indent,
    decreases parent.children@[i as int], 8int,
{
    let node = &parent.children[i];
    let ghost src = old(writer).source@;
    let ghost istr = old(writer).indent_string@;
    let ghost base = old(writer).output@;
    let ghost full = render_case_values_items(parent.children@[i as int], src,
        old(writer).indent as nat, istr, 0);
    let mut j: usize = 0;
    while j < node.children.len()
        invariant
            j <= node.children@.len(),
            i < parent.children@.len(),
            *node == parent.children@[i as int],
            node_wf(*node, writer.source@.len()),
            writer.source@ == src,
            writer.indent_string@ == istr,
            writer.output@ + render_case_values_items(*node, src,
                writer.indent as nat, istr, j as int) == base + full,
            writer_core(*writer) == writer_core(*old(writer)),
            writer.indent == old(writer).indent,
        decreases node.children@.len() - j,
    {
        let kind = node.children[j].kind;
        match kind {
            Kind::Comment => write_comment(node, j, writer),
            Kind::Symbol => write_node(&node.children[j], writer),
            Kind::Comma => writer.push_str(", "),
            _ => {
                if writer.is_expression(kind) {
                    write_expression(&node.children[j], writer);
                } else {
                    write_node(&node.children[j], writer);
                }
            },
        }
        proof {
            assert(writer.output@ + render_case_values_items(*node, src,
                writer.indent as nat, istr, j + 1) =~= base + full);
        }
        j = j + 1;
    }
    proof {
        assert(final(writer).output@ =~= base + full);
    }
}

/// Writes `return EXPR;`; a bare return renders as `return;`.
pub fn write_return_statement(parent: &Node, i: usize, writer: &mut Writer, do_indent: bool)
    requires
        i < parent.children@.len(),
        node_wf(parent.children@[i as int], old(writer).source@.len()),
    ensures
        final(writer).output@ == old(writer).output@
            + render_return_items(parent.children@[i as int], old(writer).source@,
                old(writer).indent as nat, old(writer).indent_string@, do_indent, 0),
        writer_core(*final(writer)) == writer_core(*old(writer)),
        final(writer).indent == old(writer).indent,
    decreases parent.children@[i as int], 8int,
{
    let node = &parent.children[i];
    let ghost src = old(writer).source@;
    let ghost istr = old(writer).indent_string@;
    let ghost base = old(writer).output@;
    let ghost full = render_return_items(parent.children@[i as int], src,
        old(writer).indent as nat, istr, do_indent, 0);
    let mut j: usize = 0;
    while j < node.children.len()
        invariant
            j <= node.children@.len(),
            i < parent.children@.len(),
            *node == parent.children@[i as int],
            node_wf(*node, writer.source@.len()),
            writer.source@ == src,
            writer.indent_string@ == istr,
            writer.output@ + render_return_items(*node, src,
                writer.indent as nat, istr, do_indent, j as int) == base + full,
            writer_core(*writer) == writer_core(*old(writer)),
            writer.indent == old(writer).indent,
        decreases node.children@.len() - j,
    {
        let ghost pre = writer.output@;
        let kind = node.children[j].kind;
        match kind {
            Kind::Comment => write_comment(node, j, writer),
            Kind::KwReturn => {
                if do_indent {
                    writer.write_indent();
                }
                writer.push_str("return");
                proof {
                    assert(writer.output@ =~= pre
                        + ((if do_indent { repeat_seq(istr, writer.indent as nat) }
                            else { Seq::<char>::empty() })
                            + "return"@));
                }
            },
            Kind::Semicolon => writer.push(';'),
            _ => {
                if writer.is_expression(kind) {
                    writer.push(' ');
                    write_expression(&node.children[j], writer);
                    proof {
                        assert(writer.output@ =~= pre
                            + (sp() + render_expr(node.children@[j as int], src)));
                    }
                } else {
                    write_node(&node.children[j], writer);
                }
            },
        }
        proof {
            assert(writer.output@ + render_return_items(*node, src,
                writer.indent as nat, istr, do_indent, j + 1) =~= base + full);
        }
        j = j + 1;
    }
    proof {
        assert(final(writer).output@ =~= base + full);
    }
}

/// Writes `delete EXPR;`.
pub fn write_delete_statement(parent: &Node, i: usize, writer: &mut Writer, do_indent: bool)
    requires
        i < parent.children@.len(),
        node_wf(parent.children@[i as int], old(writer).source@.len()),
    ensures
        final(writer).output@ == old(writer).output@
            + render_delete_items(parent.children@[i as int], old(writer).source@,
                old(writer).indent as nat, old(writer).indent_string@, do_indent, 0),
        writer_core(*final(writer)) == writer_core(*old(writer)),
        final(writer).indent == old(writer).indent,
    decreases parent.children@[i as int], 8int,
{
    let node = &parent.children[i];
    let ghost src = old(writer).source@;
    let ghost istr = old(writer).indent_string@;
    let ghost base = old(writer).output@;
    let ghost full = render_delete_items(parent.children@[i as int], src,
        old(writer).indent as nat, istr, do_indent, 0);
    let mut j: usize = 0;
    while j < node.children.len()
        invariant
            j <= node.children@.len(),
            i < parent.children@.len(),
            *node == parent.children@[i as int],
            node_wf(*node, writer.source@.len()),
            writer.source@ == src,
            writer.indent_string@ == istr,
            writer.output@ + render_delete_items(*node, src,
                writer.indent as nat, istr, do_indent, j as int) == base + full,
            writer_core(*writer) == writer_core(*old(writer)),
            writer.indent == old(writer).indent,
        decreases node.children@.len() - j,
    {
        let ghost pre = writer.output@;
        let kind = node.children[j].kind;
        match kind {
            Kind::Comment => write_comment(node, j, writer),
            Kind::KwDelete => {
                if do_indent {
                    writer.write_indent();
                }
                writer.push_str("delete ");
                proof {
                    assert(writer.output@ =~= pre
                        + ((if do_indent { repeat_seq(istr, writer.indent as nat) }
                            else { Seq::<char>::empty() })
                            + "delete "@));
                }
            },
            Kind::Semicolon => writer.push(';'),
            _ => {
                if writer.is_expression(kind) {
                    write_expression(&node.children[j], writer);
                } else {
                    write_node(&node.children[j], writer);
                }
            },
        }
        proof {
            assert(writer.output@ + render_delete_items(*node, src,
                writer.indent as nat, istr, do_indent, j + 1) =~= base + full);
        }
        j = j + 1;
    }
    proof {
        assert(final(writer).output@ =~= base + full);
    }
}

/// Writes an expression statement: the expression, then its `;`.
pub fn write_expression_statement(parent: &Node, i: usize, writer: &mut Writer)
    requires
        i < parent.children@.len(),
        node_wf(parent.children@[i as int], old(writer).source@.len()),
    ensures
        final(writer).output@ == old(writer).output@
            + render_expr_stmt_items(parent.children@[i as int], old(writer).source@,
                old(writer).indent as nat, old(writer).indent_string@, 0),
        writer_core(*final(writer)) == writer_core(*old(writer)),
        final(writer).indent == old(writer).indent,
    decreases parent.children@[i as int], 8int,
{
    let node = &parent.children[i];
    let ghost src = old(writer).source@;
    let ghost istr = old(writer).indent_string@;
    let ghost base = old(writer).output@;
    let ghost full = render_expr_stmt_items(parent.children@[i as int], src,
        old(writer).indent as nat, istr, 0);
    let mut j: usize = 0;
    while j < node.children.len()
        invariant
            j <= node.children@.len(),
            i < parent.children@.len(),
            *node == parent.children@[i as int],
            node_wf(*node, writer.source@.len()),
            writer.source@ == src,
            writer.indent_string@ == istr,
            writer.output@ + render_expr_stmt_items(*node, src,
                writer.indent as nat, istr, j as int) == base + full,
            writer_core(*writer) == writer_core(*old(writer)),
            writer.indent == old(writer).indent,
        decreases node.children@.len() - j,
    {
        let kind = node.children[j].kind;
        match kind {
            Kind::Comment => write_comment(node, j, writer),
            _ => {
                if writer.is_expression(kind) {
                    write_expression(&node.children[j], writer);
                } else {
                    write_node(&node.children[j], writer);
                }
            },
        }
        proof {
            assert(writer.output@ + render_expr_stmt_items(*node, src,
                writer.indent as nat, istr, j + 1) =~= base + full);
        }
        j = j + 1;
    }
    proof {
        assert(final(writer).output@ =~= base + full);
    }
}

#[via_fn]
proof fn render_block_items_dec(
    n: Node, src: Seq<char>, st: Settings, entry: nat, istr: Seq<char>, do_indent: bool,
    j: int, ind: nat, buf: Seq<char>,
) {
    if 0 <= j < n.children@.len() {
        lemma_child_decreases(n, j);
    }
}

#[via_fn]
proof fn render_for_items_dec(
    n: Node, src: Seq<char>, st: Settings, indent: nat, istr: Seq<char>, do_indent: bool,
    j: int, end_cond: bool, buf: Seq<char>,
) {
    if 0 <= j < n.children@.len() {
        lemma_child_decreases(n, j);
    }
}

#[via_fn]
proof fn render_while_items_dec(
    n: Node, src: Seq<char>, st: Settings, indent: nat, istr: Seq<char>, do_indent: bool,
    j: int, end_cond: bool, buf: Seq<char>,
) {
    if 0 <= j < n.children@.len() {
        lemma_child_decreases(n, j);
    }
}

#[via_fn]
proof fn render_do_while_items_dec(
    n: Node, src: Seq<char>, st: Settings, indent: nat, istr: Seq<char>, do_indent: bool,
    j: int, in_cond: bool, buf: Seq<char>,
) {
    if 0 <= j < n.children@.len() {
        lemma_child_decreases(n, j);
    }
}

#[via_fn]
proof fn render_condition_items_dec(
    n: Node, src: Seq<char>, st: Settings, indent: nat, istr: Seq<char>, do_indent: bool,
    j: int, out: bool, els: bool, buf: Seq<char>,
) {
    if 0 <= j < n.children@.len() {
        lemma_child_decreases(n, j);
    }
}

#[via_fn]
proof fn render_switch_items_dec(
    n: Node, src: Seq<char>, st: Settings, entry: nat, istr: Seq<char>, do_indent: bool,
    j: int, ind: nat, buf: Seq<char>,
) {
    if 0 <= j < n.children@.len() {
        lemma_child_decreases(n, j);
    }
}

#[via_fn]
proof fn render_switch_case_items_dec(
    n: Node, src: Seq<char>, st: Settings, indent: nat, istr: Seq<char>, j: int,
    buf: Seq<char>,
) {
    if 0 <= j < n.children@.len() {
        lemma_child_decreases(n, j);
    }
}

#[via_fn]
proof fn render_switch_default_items_dec(
    n: Node, src: Seq<char>, st: Settings, indent: nat, istr: Seq<char>, j: int,
    buf: Seq<char>,
) {
    if 0 <= j < n.children@.len() {
        lemma_child_decreases(n, j);
    }
}

#[via_fn]
proof fn render_case_values_items_dec(
    n: Node, src: Seq<char>, indent: nat, istr: Seq<char>, j: int,
) {
    if 0 <= j < n.children@.len() {
        lemma_child_decreases(n, j);
    }
}

#[via_fn]
proof fn render_return_items_dec(
    n: Node, src: Seq<char>, indent: nat, istr: Seq<char>, do_indent: bool, j: int,
) {
    if 0 <= j < n.children@.len() {
        lemma_child_decreases(n, j);
    }
}

#[via_fn]
proof fn render_delete_items_dec(
    n: Node, src: Seq<char>, indent: nat, istr: Seq<char>, do_indent: bool, j: int,
) {
    if 0 <= j < n.children@.len() {
        lemma_child_decreases(n, j);
    }
}

#[via_fn]
proof fn render_expr_stmt_items_dec(
    n: Node, src: Seq<char>, indent: nat, istr: Seq<char>, j: int,
) {
    if 0 <= j < n.children@.len() {
        lemma_child_decreases(n, j);
    }
}

} // verus!
