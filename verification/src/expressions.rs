//! The expression writer.
//!
//! Expressions are rendered by direct recursion over the tree; the
//! parentheses the author wrote are preserved, binary operators get one
//! space on each side, and argument lists retract a trailing `, ` before
//! their closing parenthesis.  The `render_*` specifications below pin the
//! emitted text down exactly; every executable writer proves that it
//! appends precisely its specification's value.

use vstd::prelude::*;

use crate::node::{
    child_by_field, field_node, field_of, lemma_child_decreases, lemma_field_node_decreases,
    next_sibling_kind, node_text, node_wf, spec_next_sibling_kind, FieldId, Kind, Node,
};
use crate::writers::{
    seq_ends_with, sp, spec_is_expression, write_node, writer_core, Writer,
};

verus! {

/// The rendering of an expression node: dispatch on its kind; a kind with
/// no rule of its own (symbols, literals, unknown kinds) is its raw text.
pub open spec fn render_expr(n: Node, src: Seq<char>) -> Seq<char>
    decreases n, 3int, 0int,
{
    match n.kind {
        Kind::BinaryExpression => render_binary(n, src),
        Kind::UnaryExpression => render_unary(n, src),
        Kind::UpdateExpression => render_update(n, src),
        Kind::ParenthesizedExpression => render_paren(n, src),
        Kind::CommaExpression => render_comma(n, src),
        Kind::ScopeAccess => render_scope(n, src),
        Kind::ViewAs => render_view_as(n, src),
        Kind::OldTypeCast => render_old_cast(n, src),
        Kind::TernaryExpression => render_ternary(n, src),
        Kind::ConcatenatedString => render_concat(n, src),
        Kind::ArrayIndexedAccess => render_index(n, src),
        Kind::FieldAccess => render_field_access(n, src),
        Kind::NewInstance => render_new(n, src),
        Kind::FunctionCall => render_call(n, src),
        Kind::AssignmentExpression => render_assign(n, src),
        Kind::ArrayLiteral => render_array_lit(n, src),
        Kind::SizeofExpression => render_sizeof(n, src),
        _ => node_text(n, src),
    }
}

/// `left SP op SP right`; the node's raw text if a field is missing.
pub open spec fn render_binary(n: Node, src: Seq<char>) -> Seq<char>
    decreases n, 2int, 0int
        via render_binary_dec
{
    if field_of(n, FieldId::Left) is Some && field_of(n, FieldId::Operator) is Some
        && field_of(n, FieldId::Right) is Some {
        render_expr(field_node(n, FieldId::Left), src) + sp()
            + node_text(field_node(n, FieldId::Operator), src) + sp()
            + render_expr(field_node(n, FieldId::Right), src)
    } else {
        node_text(n, src)
    }
}

/// The operator's text directly followed by its argument.
pub open spec fn render_unary(n: Node, src: Seq<char>) -> Seq<char>
    decreases n, 2int, 0int
        via render_unary_dec
{
    if field_of(n, FieldId::Operator) is Some && field_of(n, FieldId::Argument) is Some {
        node_text(field_node(n, FieldId::Operator), src)
            + render_expr(field_node(n, FieldId::Argument), src)
    } else {
        node_text(n, src)
    }
}

/// Prefix form when the operator stands before its argument in the
/// source, postfix form otherwise.
pub open spec fn render_update(n: Node, src: Seq<char>) -> Seq<char>
    decreases n, 2int, 0int
        via render_update_dec
{
    if field_of(n, FieldId::Operator) is Some && field_of(n, FieldId::Argument) is Some {
        let op = field_node(n, FieldId::Operator);
        let arg = field_node(n, FieldId::Argument);
        if op.end <= arg.start {
            node_text(op, src) + render_expr(arg, src)
        } else {
            render_expr(arg, src) + node_text(op, src)
        }
    } else {
        node_text(n, src)
    }
}

/// `(` inner `)`, where the inner expression may be a comma expression.
pub open spec fn render_paren(n: Node, src: Seq<char>) -> Seq<char>
    decreases n, 2int, 0int
        via render_paren_dec
{
    if field_of(n, FieldId::Expression) is Some {
        let inner = field_node(n, FieldId::Expression);
        let body = if inner.kind == Kind::CommaExpression {
            render_comma(inner, src)
        } else {
            render_expr(inner, src)
        };
        seq!['('] + body + seq![')']
    } else {
        node_text(n, src)
    }
}

/// `left, right`.
pub open spec fn render_comma(n: Node, src: Seq<char>) -> Seq<char>
    decreases n, 2int, 0int
        via render_comma_dec
{
    if field_of(n, FieldId::Left) is Some && field_of(n, FieldId::Right) is Some {
        render_expr(field_node(n, FieldId::Left), src) + ", "@
            + render_expr(field_node(n, FieldId::Right), src)
    } else {
        node_text(n, src)
    }
}

/// `scope::field`.
pub open spec fn render_scope(n: Node, src: Seq<char>) -> Seq<char>
    decreases n, 2int, 0int
        via render_scope_dec
{
    if field_of(n, FieldId::Scope) is Some && field_of(n, FieldId::Field) is Some {
        render_expr(field_node(n, FieldId::Scope), src) + "::"@
            + render_expr(field_node(n, FieldId::Field), src)
    } else {
        node_text(n, src)
    }
}

/// `view_as<type>(value)`.
pub open spec fn render_view_as(n: Node, src: Seq<char>) -> Seq<char>
    decreases n, 2int, 0int
        via render_view_as_dec
{
    if field_of(n, FieldId::Type) is Some && field_of(n, FieldId::Value) is Some {
        "view_as<"@ + node_text(field_node(n, FieldId::Type), src) + ">("@
            + render_expr(field_node(n, FieldId::Value), src) + seq![')']
    } else {
        node_text(n, src)
    }
}

/// The legacy cast: the old type's text, one space, then the value.
pub open spec fn render_old_cast(n: Node, src: Seq<char>) -> Seq<char>
    decreases n, 2int, 0int
        via render_old_cast_dec
{
    if field_of(n, FieldId::Type) is Some && field_of(n, FieldId::Value) is Some {
        node_text(field_node(n, FieldId::Type), src) + sp()
            + render_expr(field_node(n, FieldId::Value), src)
    } else {
        node_text(n, src)
    }
}

/// `cond ? cons : alt` with single spaces around `?` and `:`.
pub open spec fn render_ternary(n: Node, src: Seq<char>) -> Seq<char>
    decreases n, 2int, 0int
        via render_ternary_dec
{
    if field_of(n, FieldId::Condition) is Some && field_of(n, FieldId::Consequence) is Some
        && field_of(n, FieldId::Alternative) is Some {
        render_expr(field_node(n, FieldId::Condition), src) + " ? "@
            + render_expr(field_node(n, FieldId::Consequence), src) + " : "@
            + render_expr(field_node(n, FieldId::Alternative), src)
    } else {
        node_text(n, src)
    }
}

/// `left ... right`, where the right part may chain further.
pub open spec fn render_concat(n: Node, src: Seq<char>) -> Seq<char>
    decreases n, 2int, 0int
        via render_concat_dec
{
    if field_of(n, FieldId::Left) is Some && field_of(n, FieldId::Right) is Some {
        let right = field_node(n, FieldId::Right);
        let tail = if right.kind == Kind::ConcatenatedString {
            render_concat(right, src)
        } else {
            node_text(right, src)
        };
        node_text(field_node(n, FieldId::Left), src) + " ... "@ + tail
    } else {
        node_text(n, src)
    }
}

/// `array[index]`; a nested indexed access recurses on the array side,
/// any other array expression is copied raw.
pub open spec fn render_index(n: Node, src: Seq<char>) -> Seq<char>
    decreases n, 2int, 0int
        via render_index_dec
{
    if field_of(n, FieldId::Array) is Some && field_of(n, FieldId::Index) is Some {
        let arr = field_node(n, FieldId::Array);
        let head = if arr.kind == Kind::ArrayIndexedAccess {
            render_index(arr, src)
        } else {
            node_text(arr, src)
        };
        head + seq!['['] + render_expr(field_node(n, FieldId::Index), src) + seq![']']
    } else {
        node_text(n, src)
    }
}

/// `target.field`.
pub open spec fn render_field_access(n: Node, src: Seq<char>) -> Seq<char>
    decreases n, 2int, 0int
        via render_field_access_dec
{
    if field_of(n, FieldId::Target) is Some && field_of(n, FieldId::Field) is Some {
        render_expr(field_node(n, FieldId::Target), src) + seq!['.']
            + node_text(field_node(n, FieldId::Field), src)
    } else {
        node_text(n, src)
    }
}

/// `new Class(arguments)`.
pub open spec fn render_new(n: Node, src: Seq<char>) -> Seq<char>
    decreases n, 2int, 0int
        via render_new_dec
{
    if field_of(n, FieldId::Class) is Some && field_of(n, FieldId::Arguments) is Some {
        "new "@ + node_text(field_node(n, FieldId::Class), src)
            + render_args(field_node(n, FieldId::Arguments), src)
    } else {
        node_text(n, src)
    }
}

/// The callee expression followed by its argument list.
pub open spec fn render_call(n: Node, src: Seq<char>) -> Seq<char>
    decreases n, 2int, 0int
        via render_call_dec
{
    if field_of(n, FieldId::Function) is Some && field_of(n, FieldId::Arguments) is Some {
        render_expr(field_node(n, FieldId::Function), src)
            + render_args(field_node(n, FieldId::Arguments), src)
    } else {
        node_text(n, src)
    }
}

/// `left SP op SP right`, rendering a dynamic-array right-hand side with
/// its `new` form.
pub open spec fn render_assign(n: Node, src: Seq<char>) -> Seq<char>
    decreases n, 2int, 0int
        via render_assign_dec
{
    if field_of(n, FieldId::Left) is Some && field_of(n, FieldId::Operator) is Some
        && field_of(n, FieldId::Right) is Some {
        let right = field_node(n, FieldId::Right);
        let tail = if right.kind == Kind::DynamicArray {
            render_dynamic_array(right, src)
        } else {
            render_expr(right, src)
        };
        render_expr(field_node(n, FieldId::Left), src) + sp()
            + node_text(field_node(n, FieldId::Operator), src) + sp() + tail
    } else {
        node_text(n, src)
    }
}

/// `new ` followed by the array's own tokens.
pub open spec fn render_dynamic_array(n: Node, src: Seq<char>) -> Seq<char>
    decreases n, 2int, 0int,
{
    "new "@ + render_dynamic_items(n, src, 0)
}

/// The raw text of every child of a dynamic array, in order.
pub open spec fn render_dynamic_items(n: Node, src: Seq<char>, j: int) -> Seq<char>
    decreases n, 1int, n.children@.len() - j,
{
    if j < 0 || j >= n.children@.len() {
        Seq::empty()
    } else {
        node_text(n.children@[j], src) + render_dynamic_items(n, src, j + 1)
    }
}

/// `{ e1, e2, … }` with single spaces inside the braces.
pub open spec fn render_array_lit(n: Node, src: Seq<char>) -> Seq<char>
    decreases n, 2int, 0int,
{
    "{ "@ + render_array_items(n, src, 0) + " }"@
}

/// The elements of an array literal: the brace tokens are dropped, each
/// comma becomes `, `, everything else renders as an expression.
pub open spec fn render_array_items(n: Node, src: Seq<char>, j: int) -> Seq<char>
    decreases n, 1int, n.children@.len() - j
        via render_array_items_dec
{
    if j < 0 || j >= n.children@.len() {
        Seq::empty()
    } else {
        let c = n.children@[j];
        let piece = match c.kind {
            Kind::LBrace | Kind::RBrace => Seq::<char>::empty(),
            Kind::Comma => ", "@,
            _ => render_expr(c, src),
        };
        piece + render_array_items(n, src, j + 1)
    }
}

/// `sizeof ` followed by the node's type children; a bare dimension
/// renders as `[]`.
pub open spec fn render_sizeof(n: Node, src: Seq<char>) -> Seq<char>
    decreases n, 2int, 0int,
{
    "sizeof "@ + render_sizeof_items(n, src, 0)
}

/// The children of a sizeof expression that carry the type field.
pub open spec fn render_sizeof_items(n: Node, src: Seq<char>, j: int) -> Seq<char>
    decreases n, 1int, n.children@.len() - j
        via render_sizeof_items_dec
{
    if j < 0 || j >= n.children@.len() {
        Seq::empty()
    } else {
        let c = n.children@[j];
        let piece = if c.field == Some(FieldId::Type) {
            if c.kind == Kind::Dimension {
                "[]"@
            } else {
                render_expr(c, src)
            }
        } else {
            Seq::empty()
        };
        piece + render_sizeof_items(n, src, j + 1)
    }
}

/// `.name = value`.
pub open spec fn render_named_arg(n: Node, src: Seq<char>) -> Seq<char>
    decreases n, 2int, 0int,
{
    if field_of(n, FieldId::Name) is Some && field_of(n, FieldId::Value) is Some {
        seq!['.'] + node_text(field_node(n, FieldId::Name), src) + " = "@
            + node_text(field_node(n, FieldId::Value), src)
    } else {
        node_text(n, src)
    }
}

/// An argument list: the rendering of the children of an arguments node,
/// starting from an empty buffer of its own.
pub open spec fn render_args(n: Node, src: Seq<char>) -> Seq<char>
    decreases n, 2int, 0int,
{
    render_args_from(n, src, 0, Seq::empty())
}

/// The argument-list fold.  `acc` is the text the list has produced so
/// far; on the closing parenthesis a trailing `, ` in `acc` is retracted,
/// which tolerates grammars that expose trailing commas.
pub open spec fn render_args_from(n: Node, src: Seq<char>, j: int, acc: Seq<char>)
    -> Seq<char>
    decreases n, 1int, n.children@.len() - j
        via render_args_from_dec
{
    if j < 0 || j >= n.children@.len() {
        acc
    } else {
        let c = n.children@[j];
        let acc2 = match c.kind {
            Kind::LParen => acc + seq!['('],
            Kind::RParen => {
                let base = if seq_ends_with(acc, ", "@) {
                    acc.subrange(0, acc.len() - 2)
                } else {
                    acc
                };
                base + seq![')']
            },
            Kind::Comma => acc + ", "@,
            Kind::Symbol | Kind::IgnoreArgument => acc + node_text(c, src),
            Kind::NamedArg => acc + render_named_arg(c, src),
            _ => {
                if spec_is_expression(c.kind) {
                    acc + render_expr(c, src)
                } else {
                    acc + node_text(c, src)
                }
            },
        };
        render_args_from(n, src, j + 1, acc2)
    }
}

/// The raw text of an old type followed by one space.
pub open spec fn render_old_type(n: Node, src: Seq<char>) -> Seq<char> {
    node_text(n, src) + sp()
}

/// Writes an old type (a legacy cast prefix such as `Float:`): its raw
/// text followed by a single space.
pub fn write_old_type(node: &Node, writer: &mut Writer)
    requires
        node_wf(*node, old(writer).source@.len()),
    ensures
        final(writer).output@ == old(writer).output@
            + render_old_type(*node, old(writer).source@),
        writer_core(*final(writer)) == writer_core(*old(writer)),
        final(writer).indent == old(writer).indent,
{
    write_node(node, writer);
    writer.push(' ');
    proof {
        assert(writer.output@ =~= old(writer).output@
            + render_old_type(*node, old(writer).source@));
    }
}

/// The space that follows a dimension when requested and the next sibling
/// is not a further dimension.
pub open spec fn dim_space(parent: Node, i: int, insert_space: bool) -> Seq<char> {
    let nk = spec_next_sibling_kind(parent, i);
    if insert_space && nk != Some(Kind::Dimension) && nk != Some(Kind::FixedDimension) {
        sp()
    } else {
        Seq::empty()
    }
}

/// The rendering of an unsized dimension: `[]`, plus the optional space.
pub open spec fn render_dimension(parent: Node, i: int, insert_space: bool) -> Seq<char> {
    "[]"@ + dim_space(parent, i, insert_space)
}

/// Writes an unsized dimension as `[]`; with `insert_space`, one space
/// follows unless the next sibling is a further dimension.
pub fn write_dimension(parent: &Node, i: usize, insert_space: bool, writer: &mut Writer)
    requires
        i < parent.children@.len(),
    ensures
        final(writer).output@ == old(writer).output@
            + render_dimension(*parent, i as int, insert_space),
        writer_core(*final(writer)) == writer_core(*old(writer)),
        final(writer).indent == old(writer).indent,
{
    let next_kind = next_sibling_kind(parent, i);
    writer.push_str("[]");
    if insert_space && next_kind != Some(Kind::Dimension)
        && next_kind != Some(Kind::FixedDimension) {
        writer.push(' ');
    }
    proof {
        assert(writer.output@ =~= old(writer).output@
            + render_dimension(*parent, i as int, insert_space));
    }
}

/// The inner expressions of a fixed dimension, bracket tokens dropped.
pub open spec fn render_fixed_dimension_items(n: Node, src: Seq<char>, j: int) -> Seq<char>
    decreases n, 1int, n.children@.len() - j
        via render_fixed_dimension_items_dec
{
    if j < 0 || j >= n.children@.len() {
        Seq::empty()
    } else {
        let c = n.children@[j];
        let piece = match c.kind {
            Kind::LBracket | Kind::RBracket => Seq::<char>::empty(),
            _ => render_expr(c, src),
        };
        piece + render_fixed_dimension_items(n, src, j + 1)
    }
}

/// The rendering of a fixed dimension: `[`, its inner expressions, `]`,
/// plus the optional space.
pub open spec fn render_fixed_dimension(
    parent: Node, i: int, src: Seq<char>, insert_space: bool,
) -> Seq<char> {
    seq!['['] + render_fixed_dimension_items(parent.children@[i], src, 0) + seq![']']
        + dim_space(parent, i, insert_space)
}

/// Writes a fixed dimension `[N]`; with `insert_space`, one space follows
/// unless the next sibling is a further dimension.
pub fn write_fixed_dimension(
    parent: &Node, i: usize, insert_space: bool, writer: &mut Writer,
)
    requires
        i < parent.children@.len(),
        node_wf(parent.children@[i as int], old(writer).source@.len()),
    ensures
        final(writer).output@ == old(writer).output@
            + render_fixed_dimension(*parent, i as int, old(writer).source@, insert_space),
        writer_core(*final(writer)) == writer_core(*old(writer)),
        final(writer).indent == old(writer).indent,
{
    let node = &parent.children[i];
    let ghost src = old(writer).source@;
    let next_kind = next_sibling_kind(parent, i);
    writer.push('[');
    let ghost base = writer.output@;
    let ghost full = render_fixed_dimension_items(parent.children@[i as int], src, 0);
    let mut j: usize = 0;
    while j < node.children.len()
        invariant
            j <= node.children@.len(),
            node_wf(*node, writer.source@.len()),
            writer.source@ == src,
            writer.output@ + render_fixed_dimension_items(*node, src, j as int)
                == base + full,
            writer_core(*writer) == writer_core(*old(writer)),
            writer.indent == old(writer).indent,
        decreases node.children@.len() - j,
    {
        let kind = node.children[j].kind;
        match kind {
            Kind::LBracket | Kind::RBracket => {},
            _ => {
                write_expression(&node.children[j], writer);
            },
        }
        proof {
            assert(writer.output@
                + render_fixed_dimension_items(*node, src, j + 1) =~= base + full);
        }
        j = j + 1;
    }
    writer.push(']');
    if insert_space && next_kind != Some(Kind::Dimension)
        && next_kind != Some(Kind::FixedDimension) {
        writer.push(' ');
    }
    proof {
        assert(writer.output@ =~= old(writer).output@
            + render_fixed_dimension(*parent, i as int, src, insert_space));
    }
}

/// Writes a dynamic array as `new ` followed by its raw tokens.
pub fn write_dynamic_array(node: &Node, writer: &mut Writer)
    requires
        node_wf(*node, old(writer).source@.len()),
    ensures
        final(writer).output@ == old(writer).output@
            + render_dynamic_array(*node, old(writer).source@),
        writer_core(*final(writer)) == writer_core(*old(writer)),
        final(writer).indent == old(writer).indent,
{
    let ghost src = old(writer).source@;
    writer.push_str("new ");
    let ghost base = writer.output@;
    let ghost full = render_dynamic_items(*node, src, 0);
    let mut j: usize = 0;
    while j < node.children.len()
        invariant
            j <= node.children@.len(),
            node_wf(*node, writer.source@.len()),
            writer.source@ == src,
            writer.output@ + render_dynamic_items(*node, src, j as int) == base + full,
            writer_core(*writer) == writer_core(*old(writer)),
            writer.indent == old(writer).indent,
        decreases node.children@.len() - j,
    {
        write_node(&node.children[j], writer);
        proof {
            assert(writer.output@ + render_dynamic_items(*node, src, j + 1) =~= base + full);
        }
        j = j + 1;
    }
    proof {
        assert(writer.output@ =~= old(writer).output@
            + render_dynamic_array(*node, src));
    }
}

/// Writes an expression, dispatching on its kind; a kind with no rule of
/// its own is copied verbatim.
pub fn write_expression(node: &Node, writer: &mut Writer)
    requires
        node_wf(*node, old(writer).source@.len()),
    ensures
        final(writer).output@ == old(writer).output@
            + render_expr(*node, old(writer).source@),
        writer_core(*final(writer)) == writer_core(*old(writer)),
        final(writer).indent == old(writer).indent,
    decreases *node, 3int, 0int,
{
    let kind = node.kind;
    match kind {
        Kind::BinaryExpression => write_binary_expression(node, writer),
        Kind::UnaryExpression => write_unary_expression(node, writer),
        Kind::UpdateExpression => write_update_expression(node, writer),
        Kind::ParenthesizedExpression => write_parenthesized_expression(node, writer),
        Kind::CommaExpression => write_comma_expression(node, writer),
        Kind::ScopeAccess => write_scope_access(node, writer),
        Kind::ViewAs => write_view_as(node, writer),
        Kind::OldTypeCast => write_old_type_cast(node, writer),
        Kind::TernaryExpression => write_ternary_expression(node, writer),
        Kind::ConcatenatedString => write_concatenated_string(node, writer),
        Kind::ArrayIndexedAccess => write_array_indexed_access(node, writer),
        Kind::FieldAccess => write_field_access(node, writer),
        Kind::NewInstance => write_new_instance(node, writer),
        Kind::FunctionCall => write_function_call(node, writer),
        Kind::AssignmentExpression => write_assignment_expression(node, writer),
        Kind::ArrayLiteral => write_array_literal(node, writer),
        Kind::SizeofExpression => write_sizeof_expression(node, writer),
        _ => write_node(node, writer),
    }
}

/// Writes `left SP op SP right`.
fn write_binary_expression(node: &Node, writer: &mut Writer)
    requires
        node_wf(*node, old(writer).source@.len()),
        node.kind == Kind::BinaryExpression,
    ensures
        final(writer).output@ == old(writer).output@
            + render_binary(*node, old(writer).source@),
        writer_core(*final(writer)) == writer_core(*old(writer)),
        final(writer).indent == old(writer).indent,
    decreases *node, 2int, 0int,
{
    let l = child_by_field(node, FieldId::Left);
    let o = child_by_field(node, FieldId::Operator);
    let r = child_by_field(node, FieldId::Right);
    match (l, o, r) {
        (Some(li), Some(oi), Some(ri)) => {
            proof {
                lemma_field_node_decreases(*node, FieldId::Left);
                lemma_field_node_decreases(*node, FieldId::Right);
            }
            write_expression(&node.children[li], writer);
            writer.push(' ');
            write_node(&node.children[oi], writer);
            writer.push(' ');
            write_expression(&node.children[ri], writer);
            proof {
                assert(writer.output@ =~= old(writer).output@
                    + render_binary(*node, old(writer).source@));
            }
        },
        _ => {
            write_node(node, writer);
        },
    }
}

/// Writes the operator directly followed by its argument.
fn write_unary_expression(node: &Node, writer: &mut Writer)
    requires
        node_wf(*node, old(writer).source@.len()),
        node.kind == Kind::UnaryExpression,
    ensures
        final(writer).output@ == old(writer).output@
            + render_unary(*node, old(writer).source@),
        writer_core(*final(writer)) == writer_core(*old(writer)),
        final(writer).indent == old(writer).indent,
    decreases *node, 2int, 0int,
{
    let o = child_by_field(node, FieldId::Operator);
    let a = child_by_field(node, FieldId::Argument);
    match (o, a) {
        (Some(oi), Some(ai)) => {
            proof {
                lemma_field_node_decreases(*node, FieldId::Argument);
            }
            write_node(&node.children[oi], writer);
            write_expression(&node.children[ai], writer);
            proof {
                assert(writer.output@ =~= old(writer).output@
                    + render_unary(*node, old(writer).source@));
            }
        },
        _ => {
            write_node(node, writer);
        },
    }
}

/// Writes the prefix form when the operator stands before its argument
/// in the source, the postfix form otherwise.
fn write_update_expression(node: &Node, writer: &mut Writer)
    requires
        node_wf(*node, old(writer).source@.len()),
        node.kind == Kind::UpdateExpression,
    ensures
        final(writer).output@ == old(writer).output@
            + render_update(*node, old(writer).source@),
        writer_core(*final(writer)) == writer_core(*old(writer)),
        final(writer).indent == old(writer).indent,
    decreases *node, 2int, 0int,
{
    let o = child_by_field(node, FieldId::Operator);
    let a = child_by_field(node, FieldId::Argument);
    match (o, a) {
        (Some(oi), Some(ai)) => {
            proof {
                lemma_field_node_decreases(*node, FieldId::Argument);
            }
            if node.children[oi].end <= node.children[ai].start {
                write_node(&node.children[oi], writer);
                write_expression(&node.children[ai], writer);
            } else {
                write_expression(&node.children[ai], writer);
                write_node(&node.children[oi], writer);
            }
            proof {
                assert(writer.output@ =~= old(writer).output@
                    + render_update(*node, old(writer).source@));
            }
        },
        _ => {
            write_node(node, writer);
        },
    }
}

/// Writes `(` inner `)`.
fn write_parenthesized_expression(node: &Node, writer: &mut Writer)
    requires
        node_wf(*node, old(writer).source@.len()),
        node.kind == Kind::ParenthesizedExpression,
    ensures
        final(writer).output@ == old(writer).output@
            + render_paren(*node, old(writer).source@),
        writer_core(*final(writer)) == writer_core(*old(writer)),
        final(writer).indent == old(writer).indent,
    decreases *node, 2int, 0int,
{
    let e = child_by_field(node, FieldId::Expression);
    match e {
        Some(ei) => {
            writer.push('(');
            proof {
                lemma_field_node_decreases(*node, FieldId::Expression);
            }
            if node.children[ei].kind == Kind::CommaExpression {
                write_comma_expression(&node.children[ei], writer);
            } else {
                write_expression(&node.children[ei], writer);
            }
            writer.push(')');
            proof {
                assert(writer.output@ =~= old(writer).output@
                    + render_paren(*node, old(writer).source@));
            }
        },
        None => {
            write_node(node, writer);
        },
    }
}

/// Writes `left, right`.
fn write_comma_expression(node: &Node, writer: &mut Writer)
    requires
        node_wf(*node, old(writer).source@.len()),
        node.kind == Kind::CommaExpression,
    ensures
        final(writer).output@ == old(writer).output@
            + render_comma(*node, old(writer).source@),
        writer_core(*final(writer)) == writer_core(*old(writer)),
        final(writer).indent == old(writer).indent,
    decreases *node, 2int, 0int,
{
    let l = child_by_field(node, FieldId::Left);
    let r = child_by_field(node, FieldId::Right);
    match (l, r) {
        (Some(li), Some(ri)) => {
            proof {
                lemma_field_node_decreases(*node, FieldId::Left);
                lemma_field_node_decreases(*node, FieldId::Right);
            }
            write_expression(&node.children[li], writer);
            writer.push_str(", ");
            write_expression(&node.children[ri], writer);
            proof {
                assert(writer.output@ =~= old(writer).output@
                    + render_comma(*node, old(writer).source@));
            }
        },
        _ => {
            write_node(node, writer);
        },
    }
}

/// Writes `scope::field`.
fn write_scope_access(node: &Node, writer: &mut Writer)
    requires
        node_wf(*node, old(writer).source@.len()),
        node.kind == Kind::ScopeAccess,
    ensures
        final(writer).output@ == old(writer).output@
            + render_scope(*node, old(writer).source@),
        writer_core(*final(writer)) == writer_core(*old(writer)),
        final(writer).indent == old(writer).indent,
    decreases *node, 2int, 0int,
{
    let sc = child_by_field(node, FieldId::Scope);
    let f = child_by_field(node, FieldId::Field);
    match (sc, f) {
        (Some(si), Some(fi)) => {
            proof {
                lemma_field_node_decreases(*node, FieldId::Scope);
                lemma_field_node_decreases(*node, FieldId::Field);
            }
            write_expression(&node.children[si], writer);
            writer.push_str("::");
            write_expression(&node.children[fi], writer);
            proof {
                assert(writer.output@ =~= old(writer).output@
                    + render_scope(*node, old(writer).source@));
            }
        },
        _ => {
            write_node(node, writer);
        },
    }
}

/// Writes `view_as<type>(value)`.
fn write_view_as(node: &Node, writer: &mut Writer)
    requires
        node_wf(*node, old(writer).source@.len()),
        node.kind == Kind::ViewAs,
    ensures
        final(writer).output@ == old(writer).output@
            + render_view_as(*node, old(writer).source@),
        writer_core(*final(writer)) == writer_core(*old(writer)),
        final(writer).indent == old(writer).indent,
    decreases *node, 2int, 0int,
{
    let t = child_by_field(node, FieldId::Type);
    let v = child_by_field(node, FieldId::Value);
    match (t, v) {
        (Some(ti), Some(vi)) => {
            proof {
                lemma_field_node_decreases(*node, FieldId::Value);
            }
            writer.push_str("view_as<");
            write_node(&node.children[ti], writer);
            writer.push_str(">(");
            write_expression(&node.children[vi], writer);
            writer.push(')');
            proof {
                assert(writer.output@ =~= old(writer).output@
                    + render_view_as(*node, old(writer).source@));
            }
        },
        _ => {
            write_node(node, writer);
        },
    }
}

/// Writes an old-style cast: the old type, a space, then the value.
fn write_old_type_cast(node: &Node, writer: &mut Writer)
    requires
        node_wf(*node, old(writer).source@.len()),
        node.kind == Kind::OldTypeCast,
    ensures
        final(writer).output@ == old(writer).output@
            + render_old_cast(*node, old(writer).source@),
        writer_core(*final(writer)) == writer_core(*old(writer)),
        final(writer).indent == old(writer).indent,
    decreases *node, 2int, 0int,
{
    let t = child_by_field(node, FieldId::Type);
    let v = child_by_field(node, FieldId::Value);
    match (t, v) {
        (Some(ti), Some(vi)) => {
            proof {
                lemma_field_node_decreases(*node, FieldId::Value);
            }
            write_old_type(&node.children[ti], writer);
            write_expression(&node.children[vi], writer);
            proof {
                assert(writer.output@ =~= old(writer).output@
                    + render_old_cast(*node, old(writer).source@));
            }
        },
        _ => {
            write_node(node, writer);
        },
    }
}

/// Writes `cond ? cons : alt`.
fn write_ternary_expression(node: &Node, writer: &mut Writer)
    requires
        node_wf(*node, old(writer).source@.len()),
        node.kind == Kind::TernaryExpression,
    ensures
        final(writer).output@ == old(writer).output@
            + render_ternary(*node, old(writer).source@),
        writer_core(*final(writer)) == writer_core(*old(writer)),
        final(writer).indent == old(writer).indent,
    decreases *node, 2int, 0int,
{
    let c = child_by_field(node, FieldId::Condition);
    let q = child_by_field(node, FieldId::Consequence);
    let a = child_by_field(node, FieldId::Alternative);
    match (c, q, a) {
        (Some(ci), Some(qi), Some(ai)) => {
            proof {
                lemma_field_node_decreases(*node, FieldId::Condition);
                lemma_field_node_decreases(*node, FieldId::Consequence);
                lemma_field_node_decreases(*node, FieldId::Alternative);
            }
            write_expression(&node.children[ci], writer);
            writer.push_str(" ? ");
            write_expression(&node.children[qi], writer);
            writer.push_str(" : ");
            write_expression(&node.children[ai], writer);
            proof {
                assert(writer.output@ =~= old(writer).output@
                    + render_ternary(*node, old(writer).source@));
            }
        },
        _ => {
            write_node(node, writer);
        },
    }
}

/// Writes `left ... right`, chaining on the right.
fn write_concatenated_string(node: &Node, writer: &mut Writer)
    requires
        node_wf(*node, old(writer).source@.len()),
        node.kind == Kind::ConcatenatedString,
    ensures
        final(writer).output@ == old(writer).output@
            + render_concat(*node, old(writer).source@),
        writer_core(*final(writer)) == writer_core(*old(writer)),
        final(writer).indent == old(writer).indent,
    decreases *node, 2int, 0int,
{
    let l = child_by_field(node, FieldId::Left);
    let r = child_by_field(node, FieldId::Right);
    match (l, r) {
        (Some(li), Some(ri)) => {
            proof {
                lemma_field_node_decreases(*node, FieldId::Right);
            }
            write_node(&node.children[li], writer);
            writer.push_str(" ... ");
            if node.children[ri].kind == Kind::ConcatenatedString {
                write_concatenated_string(&node.children[ri], writer);
            } else {
                write_node(&node.children[ri], writer);
            }
            proof {
                assert(writer.output@ =~= old(writer).output@
                    + render_concat(*node, old(writer).source@));
            }
        },
        _ => {
            write_node(node, writer);
        },
    }
}

/// Writes `array[index]`.
fn write_array_indexed_access(node: &Node, writer: &mut Writer)
    requires
        node_wf(*node, old(writer).source@.len()),
        node.kind == Kind::ArrayIndexedAccess,
    ensures
        final(writer).output@ == old(writer).output@
            + render_index(*node, old(writer).source@),
        writer_core(*final(writer)) == writer_core(*old(writer)),
        final(writer).indent == old(writer).indent,
    decreases *node, 2int, 0int,
{
    let a = child_by_field(node, FieldId::Array);
    let ix = child_by_field(node, FieldId::Index);
    match (a, ix) {
        (Some(ai), Some(ii)) => {
            proof {
                lemma_field_node_decreases(*node, FieldId::Array);
                lemma_field_node_decreases(*node, FieldId::Index);
            }
            if node.children[ai].kind == Kind::ArrayIndexedAccess {
                write_array_indexed_access(&node.children[ai], writer);
            } else {
                write_node(&node.children[ai], writer);
            }
            writer.push('[');
            write_expression(&node.children[ii], writer);
            writer.push(']');
            proof {
                assert(writer.output@ =~= old(writer).output@
                    + render_index(*node, old(writer).source@));
            }
        },
        _ => {
            write_node(node, writer);
        },
    }
}

/// Writes `target.field`.
fn write_field_access(node: &Node, writer: &mut Writer)
    requires
        node_wf(*node, old(writer).source@.len()),
        node.kind == Kind::FieldAccess,
    ensures
        final(writer).output@ == old(writer).output@
            + render_field_access(*node, old(writer).source@),
        writer_core(*final(writer)) == writer_core(*old(writer)),
        final(writer).indent == old(writer).indent,
    decreases *node, 2int, 0int,
{
    let t = child_by_field(node, FieldId::Target);
    let f = child_by_field(node, FieldId::Field);
    match (t, f) {
        (Some(ti), Some(fi)) => {
            proof {
                lemma_field_node_decreases(*node, FieldId::Target);
            }
            write_expression(&node.children[ti], writer);
            writer.push('.');
            write_node(&node.children[fi], writer);
            proof {
                assert(writer.output@ =~= old(writer).output@
                    + render_field_access(*node, old(writer).source@));
            }
        },
        _ => {
            write_node(node, writer);
        },
    }
}

/// Writes `new Class(arguments)`.
fn write_new_instance(node: &Node, writer: &mut Writer)
    requires
        node_wf(*node, old(writer).source@.len()),
        node.kind == Kind::NewInstance,
    ensures
        final(writer).output@ == old(writer).output@
            + render_new(*node, old(writer).source@),
        writer_core(*final(writer)) == writer_core(*old(writer)),
        final(writer).indent == old(writer).indent,
    decreases *node, 2int, 0int,
{
    let c = child_by_field(node, FieldId::Class);
    let a = child_by_field(node, FieldId::Arguments);
    match (c, a) {
        (Some(ci), Some(ai)) => {
            proof {
                lemma_field_node_decreases(*node, FieldId::Arguments);
            }
            writer.push_str("new ");
            write_node(&node.children[ci], writer);
            write_function_call_arguments(&node.children[ai], writer);
            proof {
                assert(writer.output@ =~= old(writer).output@
                    + render_new(*node, old(writer).source@));
            }
        },
        _ => {
            write_node(node, writer);
        },
    }
}

/// Writes the callee expression followed by its argument list.
fn write_function_call(node: &Node, writer: &mut Writer)
    requires
        node_wf(*node, old(writer).source@.len()),
        node.kind == Kind::FunctionCall,
    ensures
        final(writer).output@ == old(writer).output@
            + render_call(*node, old(writer).source@),
        writer_core(*final(writer)) == writer_core(*old(writer)),
        final(writer).indent == old(writer).indent,
    decreases *node, 2int, 0int,
{
    let f = child_by_field(node, FieldId::Function);
    let a = child_by_field(node, FieldId::Arguments);
    match (f, a) {
        (Some(fi), Some(ai)) => {
            proof {
                lemma_field_node_decreases(*node, FieldId::Function);
                lemma_field_node_decreases(*node, FieldId::Arguments);
            }
            write_expression(&node.children[fi], writer);
            write_function_call_arguments(&node.children[ai], writer);
            proof {
                assert(writer.output@ =~= old(writer).output@
                    + render_call(*node, old(writer).source@));
            }
        },
        _ => {
            write_node(node, writer);
        },
    }
}

/// Writes `left SP op SP right`, rendering a dynamic-array right-hand
/// side with its `new` form.
fn write_assignment_expression(node: &Node, writer: &mut Writer)
    requires
        node_wf(*node, old(writer).source@.len()),
        node.kind == Kind::AssignmentExpression,
    ensures
        final(writer).output@ == old(writer).output@
            + render_assign(*node, old(writer).source@),
        writer_core(*final(writer)) == writer_core(*old(writer)),
        final(writer).indent == old(writer).indent,
    decreases *node, 2int, 0int,
{
    let l = child_by_field(node, FieldId::Left);
    let o = child_by_field(node, FieldId::Operator);
    let r = child_by_field(node, FieldId::Right);
    match (l, o, r) {
        (Some(li), Some(oi), Some(ri)) => {
            proof {
                lemma_field_node_decreases(*node, FieldId::Left);
                lemma_field_node_decreases(*node, FieldId::Right);
            }
            write_expression(&node.children[li], writer);
            writer.push(' ');
            write_node(&node.children[oi], writer);
            writer.push(' ');
            if node.children[ri].kind == Kind::DynamicArray {
                write_dynamic_array(&node.children[ri], writer);
            } else {
                write_expression(&node.children[ri], writer);
            }
            proof {
                assert(writer.output@ =~= old(writer).output@
                    + render_assign(*node, old(writer).source@));
            }
        },
        _ => {
            write_node(node, writer);
        },
    }
}

/// Writes `{ e1, e2, ... }`.
fn write_array_literal(node: &Node, writer: &mut Writer)
    requires
        node_wf(*node, old(writer).source@.len()),
        node.kind == Kind::ArrayLiteral,
    ensures
        final(writer).output@ == old(writer).output@
            + render_array_lit(*node, old(writer).source@),
        writer_core(*final(writer)) == writer_core(*old(writer)),
        final(writer).indent == old(writer).indent,
    decreases *node, 2int, 0int,
{
    let ghost src = old(writer).source@;
    writer.push_str("{ ");
    let ghost base = writer.output@;
    let ghost full = render_array_items(*node, src, 0);
    let mut j: usize = 0;
    while j < node.children.len()
        invariant
            j <= node.children@.len(),
            node_wf(*node, writer.source@.len()),
            writer.source@ == src,
            writer.output@ + render_array_items(*node, src, j as int) == base + full,
            writer_core(*writer) == writer_core(*old(writer)),
            writer.indent == old(writer).indent,
        decreases node.children@.len() - j,
    {
        let kind = node.children[j].kind;
        match kind {
            Kind::LBrace | Kind::RBrace => {},
            Kind::Comma => {
                writer.push_str(", ");
            },
            _ => {
                proof {
                    lemma_child_decreases(*node, j as int);
                }
                write_expression(&node.children[j], writer);
            },
        }
        proof {
            assert(writer.output@ + render_array_items(*node, src, j + 1) =~= base + full);
        }
        j = j + 1;
    }
    writer.push_str(" }");
    proof {
        assert(writer.output@ =~= old(writer).output@ + render_array_lit(*node, src));
    }
}

/// Writes `sizeof ` followed by the node's type children.
fn write_sizeof_expression(node: &Node, writer: &mut Writer)
    requires
        node_wf(*node, old(writer).source@.len()),
        node.kind == Kind::SizeofExpression,
    ensures
        final(writer).output@ == old(writer).output@
            + render_sizeof(*node, old(writer).source@),
        writer_core(*final(writer)) == writer_core(*old(writer)),
        final(writer).indent == old(writer).indent,
    decreases *node, 2int, 0int,
{
    let ghost src = old(writer).source@;
    writer.push_str("sizeof ");
    let ghost base = writer.output@;
    let ghost full = render_sizeof_items(*node, src, 0);
    let mut j: usize = 0;
    while j < node.children.len()
        invariant
            j <= node.children@.len(),
            node_wf(*node, writer.source@.len()),
            writer.source@ == src,
            writer.output@ + render_sizeof_items(*node, src, j as int) == base + full,
            writer_core(*writer) == writer_core(*old(writer)),
            writer.indent == old(writer).indent,
        decreases node.children@.len() - j,
    {
        let is_type = match node.children[j].field {
            Some(f) => f == FieldId::Type,
            None => false,
        };
        if is_type {
            if node.children[j].kind == Kind::Dimension {
                writer.push_str("[]");
            } else {
                proof {
                    lemma_child_decreases(*node, j as int);
                }
                write_expression(&node.children[j], writer);
            }
        }
        proof {
            assert(writer.output@ + render_sizeof_items(*node, src, j + 1) =~= base + full);
        }
        j = j + 1;
    }
    proof {
        assert(writer.output@ =~= old(writer).output@ + render_sizeof(*node, src));
    }
}

/// Writes `.name = value`.
fn write_named_arg(node: &Node, writer: &mut Writer)
    requires
        node_wf(*node, old(writer).source@.len()),
        node.kind == Kind::NamedArg,
    ensures
        final(writer).output@ == old(writer).output@
            + render_named_arg(*node, old(writer).source@),
        writer_core(*final(writer)) == writer_core(*old(writer)),
        final(writer).indent == old(writer).indent,
    decreases *node, 2int, 0int,
{
    let n = child_by_field(node, FieldId::Name);
    let v = child_by_field(node, FieldId::Value);
    match (n, v) {
        (Some(ni), Some(vi)) => {
            writer.push('.');
            write_node(&node.children[ni], writer);
            writer.push_str(" = ");
            write_node(&node.children[vi], writer);
            proof {
                assert(writer.output@ =~= old(writer).output@
                    + render_named_arg(*node, old(writer).source@));
            }
        },
        _ => {
            write_node(node, writer);
        },
    }
}

/// Writes an argument list.  Comma children become `, `; on the closing
/// parenthesis a trailing `, ` written by this list is retracted, which
/// tolerates grammars that expose trailing commas.
pub fn write_function_call_arguments(node: &Node, writer: &mut Writer)
    requires
        node_wf(*node, old(writer).source@.len()),
    ensures
        final(writer).output@ == old(writer).output@
            + render_args(*node, old(writer).source@),
        writer_core(*final(writer)) == writer_core(*old(writer)),
        final(writer).indent == old(writer).indent,
    decreases *node, 1int, 0int,
{
    let ghost src = old(writer).source@;
    let ghost base = old(writer).output@;
    let entry_len: usize = writer.output.len();
    let ghost mut acc: Seq<char> = Seq::empty();
    proof {
        assert(writer.output@ =~= base + acc);
    }
    let mut j: usize = 0;
    while j < node.children.len()
        invariant
            j <= node.children@.len(),
            node_wf(*node, writer.source@.len()),
            writer.source@ == src,
            entry_len == base.len(),
            writer.output@ == base + acc,
            render_args_from(*node, src, j as int, acc)
                == render_args_from(*node, src, 0, Seq::empty()),
            writer_core(*writer) == writer_core(*old(writer)),
            writer.indent == old(writer).indent,
        decreases node.children@.len() - j,
    {
        let ghost acc0 = acc;
        let kind = node.children[j].kind;
        match kind {
            Kind::LParen => {
                writer.push('(');
                proof {
                    acc = acc + seq!['('];
                }
            },
            Kind::RParen => {
                proof {
                    reveal_strlit(", ");
                }
                if writer.output.len() - entry_len >= 2 && writer.ends_with(", ") {
                    proof {
                        assert((", "@).len() == 2);
                        assert(acc.len() >= 2);
                        assert(writer.output@.subrange(
                            writer.output@.len() - 2, writer.output@.len() as int)
                            =~= acc.subrange(acc.len() - 2, acc.len() as int));
                        assert(seq_ends_with(acc, ", "@));
                    }
                    let _ = writer.output.pop();
                    let _ = writer.output.pop();
                    proof {
                        acc = acc.subrange(0, acc.len() - 2);
                        assert(writer.output@ =~= base + acc);
                    }
                } else {
                    proof {
                        assert((", "@).len() == 2);
                        if acc.len() >= 2 {
                            assert(writer.output@.subrange(
                                writer.output@.len() - 2, writer.output@.len() as int)
                                =~= acc.subrange(acc.len() - 2, acc.len() as int));
                        }
                        assert(!seq_ends_with(acc, ", "@));
                    }
                }
                writer.push(')');
                proof {
                    acc = acc + seq![')'];
                }
            },
            Kind::Comma => {
                writer.push_str(", ");
                proof {
                    acc = acc + ", "@;
                }
            },
            Kind::Symbol | Kind::IgnoreArgument => {
                write_node(&node.children[j], writer);
                proof {
                    acc = acc + node_text(node.children@[j as int], src);
                }
            },
            Kind::NamedArg => {
                proof {
                    lemma_child_decreases(*node, j as int);
                }
                write_named_arg(&node.children[j], writer);
                proof {
                    acc = acc + render_named_arg(node.children@[j as int], src);
                }
            },
            _ => {
                let is_expr = writer.is_expression(kind);
                if is_expr {
                    proof {
                        lemma_child_decreases(*node, j as int);
                    }
                    write_expression(&node.children[j], writer);
                    proof {
                        acc = acc + render_expr(node.children@[j as int], src);
                    }
                } else {
                    write_node(&node.children[j], writer);
                    proof {
                        acc = acc + node_text(node.children@[j as int], src);
                    }
                }
            },
        }
        proof {
            assert(writer.output@ =~= base + acc);
            assert(render_args_from(*node, src, j + 1, acc)
                == render_args_from(*node, src, 0, Seq::empty()));
        }
        j = j + 1;
    }
    proof {
        assert(writer.output@ =~= old(writer).output@ + render_args(*node, src));
    }
}

#[via_fn]
proof fn render_binary_dec(n: Node, src: Seq<char>) {
    lemma_field_node_decreases(n, FieldId::Left);
    lemma_field_node_decreases(n, FieldId::Right);
}

#[via_fn]
proof fn render_unary_dec(n: Node, src: Seq<char>) {
    lemma_field_node_decreases(n, FieldId::Argument);
}

#[via_fn]
proof fn render_update_dec(n: Node, src: Seq<char>) {
    lemma_field_node_decreases(n, FieldId::Argument);
}

#[via_fn]
proof fn render_paren_dec(n: Node, src: Seq<char>) {
    lemma_field_node_decreases(n, FieldId::Expression);
}

#[via_fn]
proof fn render_comma_dec(n: Node, src: Seq<char>) {
    lemma_field_node_decreases(n, FieldId::Left);
    lemma_field_node_decreases(n, FieldId::Right);
}

#[via_fn]
proof fn render_scope_dec(n: Node, src: Seq<char>) {
    lemma_field_node_decreases(n, FieldId::Scope);
    lemma_field_node_decreases(n, FieldId::Field);
}

#[via_fn]
proof fn render_view_as_dec(n: Node, src: Seq<char>) {
    lemma_field_node_decreases(n, FieldId::Value);
}

#[via_fn]
proof fn render_old_cast_dec(n: Node, src: Seq<char>) {
    lemma_field_node_decreases(n, FieldId::Value);
}

#[via_fn]
proof fn render_ternary_dec(n: Node, src: Seq<char>) {
    lemma_field_node_decreases(n, FieldId::Condition);
    lemma_field_node_decreases(n, FieldId::Consequence);
    lemma_field_node_decreases(n, FieldId::Alternative);
}

#[via_fn]
proof fn render_concat_dec(n: Node, src: Seq<char>) {
    lemma_field_node_decreases(n, FieldId::Right);
}

#[via_fn]
proof fn render_index_dec(n: Node, src: Seq<char>) {
    lemma_field_node_decreases(n, FieldId::Array);
    lemma_field_node_decreases(n, FieldId::Index);
}

#[via_fn]
proof fn render_field_access_dec(n: Node, src: Seq<char>) {
    lemma_field_node_decreases(n, FieldId::Target);
}

#[via_fn]
proof fn render_new_dec(n: Node, src: Seq<char>) {
    lemma_field_node_decreases(n, FieldId::Arguments);
}

#[via_fn]
proof fn render_call_dec(n: Node, src: Seq<char>) {
    lemma_field_node_decreases(n, FieldId::Function);
    lemma_field_node_decreases(n, FieldId::Arguments);
}

#[via_fn]
proof fn render_assign_dec(n: Node, src: Seq<char>) {
    lemma_field_node_decreases(n, FieldId::Left);
    lemma_field_node_decreases(n, FieldId::Right);
}

#[via_fn]
proof fn render_array_items_dec(n: Node, src: Seq<char>, j: int) {
    if 0 <= j < n.children@.len() {
        lemma_child_decreases(n, j);
    }
}

#[via_fn]
proof fn render_sizeof_items_dec(n: Node, src: Seq<char>, j: int) {
    if 0 <= j < n.children@.len() {
        lemma_child_decreases(n, j);
    }
}

#[via_fn]
proof fn render_args_from_dec(n: Node, src: Seq<char>, j: int, acc: Seq<char>) {
    if 0 <= j < n.children@.len() {
        lemma_child_decreases(n, j);
    }
}

#[via_fn]
proof fn render_fixed_dimension_items_dec(n: Node, src: Seq<char>, j: int) {
    if 0 <= j < n.children@.len() {
        lemma_child_decreases(n, j);
    }
}

} // verus!
