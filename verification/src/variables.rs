//! Modern variable declarations, global and local.
//!
//! A declaration list is rendered on one line with `, ` separators when
//! its estimated width stays within the threshold and no comment is
//! nested among the declarations.  Otherwise it enters break mode: each
//! `,` is followed by a newline and a run of spaces as wide as the
//! declarator, and the `=` signs are aligned at the widest name.

use vstd::prelude::*;

use crate::expressions::{
    render_dimension, render_dynamic_array, render_expr, render_fixed_dimension,
    write_dimension, write_dynamic_array, write_expression, write_fixed_dimension,
};
use crate::node::{
    next_sibling_kind, node_len, node_text, node_wf, spec_next_sibling_kind, Kind, Node,
};
use crate::preproc::insert_break;
use crate::settings::Settings;
use crate::writers::{sp, write_comment, write_node, writer_core, Writer};

verus! {

/// The width threshold: a declaration list estimated to render wider than
/// this many characters enters break mode.
pub open spec fn width_threshold() -> int {
    80
}

/// What one child contributes to a declaration's name width: the symbol's
/// own span, two characters for an unsized `[]`, the raw span for a fixed
/// `[N]`.
pub open spec fn name_piece(c: Node) -> int {
    match c.kind {
        Kind::Symbol => c.end - c.start,
        Kind::Dimension => 2,
        Kind::FixedDimension => c.end - c.start,
        _ => 0,
    }
}

/// The name width of a declaration: its symbol plus its dimensions.
pub open spec fn name_len_from(n: Node, j: int) -> int
    decreases n.children@.len() - j,
{
    if j < 0 || j >= n.children@.len() {
        0
    } else {
        name_piece(n.children@[j]) + name_len_from(n, j + 1)
    }
}

/// The name width of one declaration.
pub open spec fn spec_name_length(n: Node) -> int {
    name_len_from(n, 0)
}

/// The single-line width of a declaration list: the rendered width of
/// each declaration, plus two characters for each `, ` between them.
/// `any` says whether a declaration came earlier.
pub open spec fn rendered_total_from(n: Node, src: Seq<char>, j: int, any: bool) -> int
    decreases n, 7int, n.children@.len() - j
        via rendered_total_from_dec
{
    if j < 0 || j >= n.children@.len() {
        0
    } else {
        let c = n.children@[j];
        if c.kind == Kind::VariableDeclaration {
            render_var_decl_items(c, src, 0, 0, 0).len() + (if any { 2int } else { 0int })
                + rendered_total_from(n, src, j + 1, true)
        } else {
            rendered_total_from(n, src, j + 1, any)
        }
    }
}

/// The widest name among the declarations of kind `k` from child `j` on.
pub open spec fn decl_max_name_from(n: Node, k: Kind, j: int) -> int
    decreases n.children@.len() - j,
{
    if j < 0 || j >= n.children@.len() {
        0
    } else {
        let c = n.children@[j];
        let rest = decl_max_name_from(n, k, j + 1);
        if c.kind == k && spec_name_length(c) > rest {
            spec_name_length(c)
        } else {
            rest
        }
    }
}

/// Whether a comment is nested among the children from `j` on.
pub open spec fn has_comment_from(n: Node, j: int) -> bool
    decreases n.children@.len() - j,
{
    if j < 0 || j >= n.children@.len() {
        false
    } else {
        n.children@[j].kind == Kind::Comment || has_comment_from(n, j + 1)
    }
}

/// Whether a declaration list enters break mode: its single-line
/// rendered width exceeds the threshold, or a comment is nested in it.
pub open spec fn spec_should_break(n: Node, src: Seq<char>) -> bool {
    rendered_total_from(n, src, 0, false) > width_threshold() || has_comment_from(n, 0)
}

/// The alignment width of a declaration list: zero when the list stays
/// on one line, the widest declaration name when it breaks.
pub open spec fn spec_max_name_length(n: Node, src: Seq<char>) -> int {
    if spec_should_break(n, src) {
        decl_max_name_from(n, Kind::VariableDeclaration, 0)
    } else {
        0
    }
}

/// `x` capped at the largest `usize` value.
pub open spec fn cap_usize(x: int) -> int {
    if x <= usize::MAX {
        x
    } else {
        usize::MAX as int
    }
}

/// The larger of two widths.
pub open spec fn imax(a: int, b: int) -> int {
    if a >= b {
        a
    } else {
        b
    }
}

pub proof fn lemma_cap_add(x: int, y: int)
    requires
        x >= 0,
        y >= 0,
    ensures
        cap_usize(cap_usize(x) + y) == cap_usize(x + y),
{
}

proof fn lemma_name_len_nonneg(n: Node, j: int)
    requires
        forall|u: int| 0 <= u < n.children@.len()
            ==> (#[trigger] n.children@[u]).start <= n.children@[u].end,
    ensures
        name_len_from(n, j) >= 0,
    decreases n.children@.len() - j,
{
    if 0 <= j < n.children@.len() {
        lemma_name_len_nonneg(n, j + 1);
    }
}

pub proof fn lemma_rendered_total_nonneg(n: Node, src: Seq<char>, j: int, any: bool)
    ensures
        rendered_total_from(n, src, j, any) >= 0,
    decreases n.children@.len() - j,
{
    if 0 <= j < n.children@.len() {
        lemma_rendered_total_nonneg(n, src, j + 1, true);
        lemma_rendered_total_nonneg(n, src, j + 1, any);
    }
}

/// Copies a character vector.
pub fn clone_chars(v: &Vec<char>) -> (r: Vec<char>)
    ensures
        r@ == v@,
{
    let mut r: Vec<char> = Vec::new();
    let mut k: usize = 0;
    while k < v.len()
        invariant
            k <= v@.len(),
            r@ == v@.subrange(0, k as int),
        decreases v@.len() - k,
    {
        let c: char = v[k];
        r.push(c);
        proof {
            assert(v@.subrange(0, k + 1) =~= v@.subrange(0, k as int).push(v@[k as int]));
        }
        k = k + 1;
    }
    proof {
        assert(v@.subrange(0, v@.len() as int) =~= v@);
    }
    r
}

proof fn lemma_decl_max_nonneg(n: Node, k: Kind, j: int)
    ensures
        decl_max_name_from(n, k, j) >= 0,
    decreases n.children@.len() - j,
{
    if 0 <= j < n.children@.len() {
        lemma_decl_max_nonneg(n, k, j + 1);
    }
}

/// Adds two widths, capping at the largest representable value; the cap
/// sits far above the width threshold, so the break decision is exact.
pub fn sat_add(a: usize, b: usize) -> (r: usize)
    ensures
        r == cap_usize(a + b),
{
    if a <= usize::MAX - b {
        a + b
    } else {
        usize::MAX
    }
}

/// The name width of the declaration `n`: its symbol plus its
/// dimensions, capped at the largest representable value.
fn measure_name_length(n: &Node) -> (r: usize)
    requires
        forall|u: int| 0 <= u < n.children@.len()
            ==> (#[trigger] n.children@[u]).start <= n.children@[u].end,
    ensures
        r == cap_usize(spec_name_length(*n)),
{
    let mut r: usize = 0;
    let ghost mut pre: int = 0;
    let mut j: usize = 0;
    while j < n.children.len()
        invariant
            j <= n.children@.len(),
            forall|u: int| 0 <= u < n.children@.len()
                ==> (#[trigger] n.children@[u]).start <= n.children@[u].end,
            pre >= 0,
            r == cap_usize(pre),
            pre + name_len_from(*n, j as int) == spec_name_length(*n),
        decreases n.children@.len() - j,
    {
        let ghost piece = name_piece(n.children@[j as int]);
        let kind = n.children[j].kind;
        match kind {
            Kind::Symbol => {
                r = sat_add(r, node_len(&n.children[j]));
            },
            Kind::Dimension => {
                r = sat_add(r, 2);
            },
            Kind::FixedDimension => {
                r = sat_add(r, node_len(&n.children[j]));
            },
            _ => {},
        }
        proof {
            lemma_cap_add(pre, piece);
            pre = pre + piece;
        }
        j = j + 1;
    }
    r
}

/// Computes the alignment width for a declaration list: zero when the
/// single-line rendering stays within the threshold and no comment is
/// nested among the declarations, the widest declaration name otherwise.
/// The width is capped at the largest representable value.  Widths are
/// measured on the rendered declarations, so the decision is a fixed
/// point of formatting.
pub fn get_max_name_length(node: &Node, source: &Vec<char>, settings: &Settings) -> (r: usize)
    requires
        node_wf(*node, source@.len()),
    ensures
        r == cap_usize(spec_max_name_length(*node, source@)),
{
    proof {
        crate::node::lemma_children_spans(*node, source@.len());
        crate::node::lemma_grandchildren_spans(*node, source@.len());
    }
    let mut scratch = Writer {
        output: Vec::new(),
        source: clone_chars(source),
        indent: 0,
        indent_string: Vec::new(),
        skip: 0,
        settings: *settings,
    };
    let mut length: usize = 0;
    let mut max_name_length: usize = 0;
    let mut any: bool = false;
    let mut nested_comment: bool = false;
    let ghost mut pre_len: int = 0;
    let ghost mut pre_max: int = 0;
    proof {
        lemma_rendered_total_nonneg(*node, source@, 0, false);
        lemma_decl_max_nonneg(*node, Kind::VariableDeclaration, 0);
    }
    let mut j: usize = 0;
    while j < node.children.len()
        invariant
            j <= node.children@.len(),
            node_wf(*node, source@.len()),
            scratch.source@ == source@,
            forall|t: int| 0 <= t < node.children@.len()
                ==> (#[trigger] node.children@[t]).start <= node.children@[t].end,
            forall|t: int, u: int|
                0 <= t < node.children@.len()
                    && 0 <= u < node.children@[t].children@.len()
                    ==> (#[trigger] node.children@[t].children@[u]).start
                        <= node.children@[t].children@[u].end,
            pre_len >= 0,
            length == cap_usize(pre_len),
            pre_len + rendered_total_from(*node, source@, j as int, any)
                == rendered_total_from(*node, source@, 0, false),
            pre_max >= 0,
            max_name_length == cap_usize(pre_max),
            imax(pre_max, decl_max_name_from(*node, Kind::VariableDeclaration, j as int))
                == decl_max_name_from(*node, Kind::VariableDeclaration, 0),
            nested_comment ==> has_comment_from(*node, 0),
            !nested_comment ==> has_comment_from(*node, 0) == has_comment_from(*node, j as int),
        decreases node.children@.len() - j,
    {
        let ghost c = node.children@[j as int];
        let kind = node.children[j].kind;
        match kind {
            Kind::VariableDeclaration => {
                proof {
                    crate::node::lemma_child_wf(*node, source@.len(), j as int);
                }
                scratch.output = Vec::new();
                write_variable_declaration(node, j, &mut scratch, 0);
                proof {
                    assert(scratch.output@
                        =~= render_var_decl_items(c, source@, 0, 0, 0));
                }
                let width: usize = scratch.output.len();
                let extra: usize = if any { 2 } else { 0 };
                let ghost piece = render_var_decl_items(c, source@, 0, 0, 0).len()
                    + (if any { 2int } else { 0int });
                length = sat_add(length, sat_add(width, extra));
                proof {
                    lemma_cap_add(pre_len, piece);
                    pre_len = pre_len + piece;
                }
                any = true;
                let name_length = measure_name_length(&node.children[j]);
                if name_length > max_name_length {
                    max_name_length = name_length;
                }
                proof {
                    lemma_name_len_nonneg(c, 0);
                    if spec_name_length(c) > pre_max {
                        pre_max = spec_name_length(c);
                    }
                }
            },
            Kind::Comment => {
                nested_comment = true;
            },
            _ => {},
        }
        j = j + 1;
    }
    if length <= 80 && !nested_comment {
        max_name_length = 0;
    }
    max_name_length
}

/// The rendering of a type child: its raw text, followed by one space
/// unless the next sibling is a dimension.
pub open spec fn render_type(parent: Node, i: int, src: Seq<char>) -> Seq<char> {
    let nk = spec_next_sibling_kind(parent, i);
    let tail = if nk != Some(Kind::Dimension) && nk != Some(Kind::FixedDimension) {
        sp()
    } else {
        Seq::empty()
    };
    node_text(parent.children@[i], src) + tail
}

/// Writes a type: its raw text, with one space after it unless a
/// dimension follows.
pub fn write_type(parent: &Node, i: usize, writer: &mut Writer)
    requires
        i < parent.children@.len(),
        node_wf(parent.children@[i as int], old(writer).source@.len()),
    ensures
        final(writer).output@ == old(writer).output@
            + render_type(*parent, i as int, old(writer).source@),
        writer_core(*final(writer)) == writer_core(*old(writer)),
        final(writer).indent == old(writer).indent,
{
    let next_kind = next_sibling_kind(parent, i);
    write_node(&parent.children[i], writer);
    if next_kind != Some(Kind::Dimension) && next_kind != Some(Kind::FixedDimension) {
        writer.push(' ');
    }
    proof {
        assert(writer.output@ =~= old(writer).output@
            + render_type(*parent, i as int, old(writer).source@));
    }
}

/// The rendering of one declaration's pieces: the symbol, its
/// dimensions, and the initializer; `name_len` carries the width written
/// so far, and in break mode (`max > 0`) the `=` is padded so it lands
/// at the common column.
pub open spec fn render_var_decl_items(
    n: Node, src: Seq<char>, max: int, j: int, name_len: int,
) -> Seq<char>
    decreases n, 5int, n.children@.len() - j
        via render_var_decl_items_dec
{
    if j < 0 || j >= n.children@.len() {
        Seq::empty()
    } else {
        let c = n.children@[j];
        match c.kind {
            Kind::Symbol => node_text(c, src)
                + render_var_decl_items(n, src, max, j + 1,
                    cap_usize(name_len + (c.end - c.start))),
            Kind::FixedDimension => render_fixed_dimension(n, j, src, false)
                + render_var_decl_items(n, src, max, j + 1,
                    cap_usize(name_len + (c.end - c.start))),
            Kind::Dimension => render_dimension(n, j, false)
                + render_var_decl_items(n, src, max, j + 1, cap_usize(name_len + 2)),
            Kind::Equals => {
                let pad = if max > 0 && name_len < max {
                    crate::writers::spaces((max - name_len) as nat)
                } else {
                    Seq::empty()
                };
                pad + " = "@ + render_var_decl_items(n, src, max, j + 1, name_len)
            },
            Kind::DynamicArray => render_dynamic_array(c, src)
                + render_var_decl_items(n, src, max, j + 1, name_len),
            _ => {
                let piece = if crate::writers::spec_is_expression(c.kind) {
                    render_expr(c, src)
                } else {
                    Seq::empty()
                };
                piece + render_var_decl_items(n, src, max, j + 1, name_len)
            },
        }
    }
}

/// Writes one declaration of a list: the symbol, its dimensions, and the
/// initializer.  In break mode (`max_name_length > 0`) spaces pad the gap
/// before ` = ` so the `=` signs of the list line up.
pub fn write_variable_declaration(
    parent: &Node, i: usize, writer: &mut Writer, max_name_length: usize,
)
    requires
        i < parent.children@.len(),
        node_wf(parent.children@[i as int], old(writer).source@.len()),
    ensures
        final(writer).output@ == old(writer).output@
            + render_var_decl_items(parent.children@[i as int], old(writer).source@,
                max_name_length as int, 0, 0),
        writer_core(*final(writer)) == writer_core(*old(writer)),
        final(writer).indent == old(writer).indent,
{
    let node = &parent.children[i];
    let ghost src = old(writer).source@;
    let ghost base = old(writer).output@;
    let ghost full = render_var_decl_items(parent.children@[i as int], src,
        max_name_length as int, 0, 0);
    let mut name_length: usize = 0;
    let mut j: usize = 0;
    while j < node.children.len()
        invariant
            j <= node.children@.len(),
            i < parent.children@.len(),
            *node == parent.children@[i as int],
            node_wf(*node, writer.source@.len()),
            writer.source@ == src,
            writer.output@ + render_var_decl_items(*node, src,
                max_name_length as int, j as int, name_length as int) == base + full,
            writer_core(*writer) == writer_core(*old(writer)),
            writer.indent == old(writer).indent,
        decreases node.children@.len() - j,
    {
        let kind = node.children[j].kind;
        match kind {
            Kind::Symbol => {
                proof {
                    crate::node::lemma_child_wf(*node, writer.source@.len(), j as int);
                }
                write_node(&node.children[j], writer);
                name_length = sat_add(name_length, node_len(&node.children[j]));
            },
            Kind::FixedDimension => {
                proof {
                    crate::node::lemma_child_wf(*node, writer.source@.len(), j as int);
                }
                name_length = sat_add(name_length, node_len(&node.children[j]));
                write_fixed_dimension(node, j, false, writer);
            },
            Kind::Dimension => {
                write_dimension(node, j, false, writer);
                name_length = sat_add(name_length, 2);
            },
            Kind::Equals => {
                let ghost pre = writer.output@;
                if max_name_length > 0 && name_length < max_name_length {
                    writer.push_spaces(max_name_length - name_length);
                }
                writer.push_str(" = ");
                proof {
                    if max_name_length > 0 && name_length < max_name_length {
                        assert(writer.output@ =~= pre
                            + (crate::writers::spaces(
                                (max_name_length - name_length) as nat) + " = "@));
                    }
                }
            },
            Kind::DynamicArray => {
                write_dynamic_array(&node.children[j], writer);
            },
            _ => {
                if writer.is_expression(kind) {
                    write_expression(&node.children[j], writer);
                }
            },
        }
        proof {
            assert(writer.output@ + render_var_decl_items(*node, src,
                max_name_length as int, j + 1, name_length as int) =~= base + full);
        }
        j = j + 1;
    }
}

/// The rendering of a global declaration list's pieces.  `max` is the
/// alignment width (zero on a single line); `tlen` carries the width of
/// the declarator written so far, which break mode uses to indent each
/// continuation line.
pub open spec fn render_global_var_items(
    n: Node, src: Seq<char>, indent: nat, istr: Seq<char>, max: int, j: int, tlen: int,
) -> Seq<char>
    decreases n, 6int, n.children@.len() - j
        via render_global_var_items_dec
{
    if j < 0 || j >= n.children@.len() {
        Seq::empty()
    } else {
        let c = n.children@[j];
        match c.kind {
            Kind::Type => render_type(n, j, src)
                + render_global_var_items(n, src, indent, istr, max, j + 1,
                    cap_usize(tlen + (c.end - c.start))),
            Kind::VariableStorageClass | Kind::VariableVisibility =>
                node_text(c, src) + crate::writers::sp()
                    + render_global_var_items(n, src, indent, istr, max, j + 1,
                        cap_usize(tlen + cap_usize((c.end - c.start) + 1))),
            Kind::Comment => {
                let pad = if max > 0 {
                    crate::writers::spaces(tlen as nat)
                } else {
                    Seq::empty()
                };
                crate::writers::spec_render_comment(n, j, src, indent, istr) + pad
                    + render_global_var_items(n, src, indent, istr, max, j + 1, tlen)
            },
            Kind::VariableDeclaration => render_var_decl_items(c, src, max, 0, 0)
                + render_global_var_items(n, src, indent, istr, max, j + 1, tlen),
            Kind::Comma => {
                let piece = if max > 0 {
                    if spec_next_sibling_kind(n, j) == Some(Kind::Comment) {
                        seq![',']
                    } else {
                        ",\n"@ + crate::writers::spaces(tlen as nat)
                    }
                } else {
                    ", "@
                };
                piece + render_global_var_items(n, src, indent, istr, max, j + 1, tlen)
            },
            _ => render_global_var_items(n, src, indent, istr, max, j + 1, tlen),
        }
    }
}

/// Writes a global variable declaration list, with the width-triggered
/// alignment of its declarations, the final `;`, and the break decision.
pub fn write_global_variable_declaration(parent: &Node, i: usize, writer: &mut Writer)
    requires
        i < parent.children@.len(),
        node_wf(parent.children@[i as int], old(writer).source@.len()),
    ensures
        final(writer).output@ == old(writer).output@
            + render_global_var_items(parent.children@[i as int], old(writer).source@,
                old(writer).indent as nat, old(writer).indent_string@,
                cap_usize(spec_max_name_length(
                    parent.children@[i as int], old(writer).source@)), 0, 1)
            + seq![';'] + crate::preproc::spec_break_of(*parent, i as int),
        writer_core(*final(writer)) == writer_core(*old(writer)),
        final(writer).indent == old(writer).indent,
{
    let node = &parent.children[i];
    proof {
        crate::node::lemma_children_spans(*node, old(writer).source@.len());
        crate::node::lemma_grandchildren_spans(*node, old(writer).source@.len());
    }
    let st = writer.settings;
    let max_name_length = get_max_name_length(node, &writer.source, &st);
    let ghost src = old(writer).source@;
    let ghost base = old(writer).output@;
    let ghost full = render_global_var_items(parent.children@[i as int], src,
        old(writer).indent as nat, old(writer).indent_string@,
        max_name_length as int, 0, 1);
    let mut type_length: usize = 1;
    let mut j: usize = 0;
    while j < node.children.len()
        invariant
            j <= node.children@.len(),
            i < parent.children@.len(),
            *node == parent.children@[i as int],
            node_wf(*node, writer.source@.len()),
            writer.source@ == src,
            writer.indent_string@ == old(writer).indent_string@,
            writer.output@ + render_global_var_items(*node, src,
                writer.indent as nat, writer.indent_string@,
                max_name_length as int, j as int, type_length as int) == base + full,
            writer_core(*writer) == writer_core(*old(writer)),
            writer.indent == old(writer).indent,
        decreases node.children@.len() - j,
    {
        let ghost pre = writer.output@;
        let kind = node.children[j].kind;
        match kind {
            Kind::Type => {
                proof {
                    crate::node::lemma_child_wf(*node, writer.source@.len(), j as int);
                }
                write_type(node, j, writer);
                type_length = sat_add(type_length, node_len(&node.children[j]));
            },
            Kind::VariableStorageClass | Kind::VariableVisibility => {
                proof {
                    crate::node::lemma_child_wf(*node, writer.source@.len(), j as int);
                }
                write_node(&node.children[j], writer);
                writer.push(' ');
                type_length = sat_add(type_length, sat_add(node_len(&node.children[j]), 1));
                proof {
                    assert(writer.output@ =~= pre
                        + (node_text(node.children@[j as int], src)
                            + crate::writers::sp()));
                }
            },
            Kind::Comment => {
                write_comment(node, j, writer);
                if max_name_length > 0 {
                    writer.push_spaces(type_length);
                    proof {
                        assert(writer.output@ =~= pre
                            + (crate::writers::spec_render_comment(
                                *node, j as int, src,
                                writer.indent as nat, writer.indent_string@)
                                + crate::writers::spaces(type_length as nat)));
                    }
                }
            },
            Kind::VariableDeclaration => {
                write_variable_declaration(node, j, writer, max_name_length);
            },
            Kind::Comma => {
                if max_name_length > 0 {
                    let next_kind = next_sibling_kind(node, j);
                    if next_kind == Some(Kind::Comment) {
                        writer.push(',');
                    } else {
                        writer.push_str(",\n");
                        writer.push_spaces(type_length);
                        proof {
                            assert(writer.output@ =~= pre
                                + (",\n"@ + crate::writers::spaces(type_length as nat)));
                        }
                    }
                } else {
                    writer.push_str(", ");
                }
            },
            Kind::Semicolon => {},
            _ => {},
        }
        proof {
            assert(writer.output@ + render_global_var_items(*node, src,
                writer.indent as nat, writer.indent_string@,
                max_name_length as int, j + 1, type_length as int) =~= base + full);
        }
        j = j + 1;
    }
    writer.push(';');
    insert_break(parent, i, writer);
    proof {
        assert(final(writer).output@ =~= base + full + seq![';']
            + crate::preproc::spec_break_of(*parent, i as int));
    }
}

/// The rendering of a declaration statement's pieces; `do_indent` adds
/// the current indent on each continuation line of break mode.
pub open spec fn render_var_stmt_items(
    n: Node, src: Seq<char>, indent: nat, istr: Seq<char>, do_indent: bool,
    max: int, j: int, tlen: int,
) -> Seq<char>
    decreases n, 6int, n.children@.len() - j
        via render_var_stmt_items_dec
{
    if j < 0 || j >= n.children@.len() {
        Seq::empty()
    } else {
        let c = n.children@[j];
        let cont_indent = if do_indent {
            crate::writers::repeat_seq(istr, indent)
        } else {
            Seq::empty()
        };
        match c.kind {
            Kind::Type => render_type(n, j, src)
                + render_var_stmt_items(n, src, indent, istr, do_indent, max, j + 1,
                    cap_usize(tlen + (c.end - c.start))),
            Kind::VariableStorageClass | Kind::VariableVisibility =>
                node_text(c, src) + crate::writers::sp()
                    + render_var_stmt_items(n, src, indent, istr, do_indent, max, j + 1,
                        cap_usize(tlen + cap_usize((c.end - c.start) + 1))),
            Kind::Comment => {
                let pad = if max > 0 {
                    cont_indent + crate::writers::spaces(tlen as nat)
                } else {
                    Seq::empty()
                };
                crate::writers::spec_render_comment(n, j, src, indent, istr) + pad
                    + render_var_stmt_items(n, src, indent, istr, do_indent, max, j + 1, tlen)
            },
            Kind::Dimension => render_dimension(n, j, true)
                + render_var_stmt_items(n, src, indent, istr, do_indent, max, j + 1, tlen),
            Kind::VariableDeclaration => render_var_decl_items(c, src, max, 0, 0)
                + render_var_stmt_items(n, src, indent, istr, do_indent, max, j + 1, tlen),
            Kind::Comma => {
                let piece = if max > 0 {
                    if spec_next_sibling_kind(n, j) == Some(Kind::Comment) {
                        seq![',']
                    } else {
                        ",\n"@ + cont_indent + crate::writers::spaces(tlen as nat)
                    }
                } else {
                    ", "@
                };
                piece + render_var_stmt_items(n, src, indent, istr, do_indent, max, j + 1, tlen)
            },
            _ => render_var_stmt_items(n, src, indent, istr, do_indent, max, j + 1, tlen),
        }
    }
}

/// Writes a variable declaration statement, with the same alignment rules
/// as a global list; inside a `for` initializer (`do_indent` false) it
/// leaves out the indent and the trailing `;`.
pub fn write_variable_declaration_statement(
    parent: &Node, i: usize, writer: &mut Writer, do_indent: bool,
)
    requires
        i < parent.children@.len(),
        node_wf(parent.children@[i as int], old(writer).source@.len()),
    ensures
        final(writer).output@ == old(writer).output@
            + (if do_indent {
                crate::writers::repeat_seq(
                    old(writer).indent_string@, old(writer).indent as nat)
            } else {
                Seq::empty()
            })
            + render_var_stmt_items(parent.children@[i as int], old(writer).source@,
                old(writer).indent as nat, old(writer).indent_string@, do_indent,
                cap_usize(spec_max_name_length(
                    parent.children@[i as int], old(writer).source@)), 0, 1)
            + (if do_indent { seq![';'] } else { Seq::empty() }),
        writer_core(*final(writer)) == writer_core(*old(writer)),
        final(writer).indent == old(writer).indent,
        do_indent ==> crate::writers::seq_ends_with(final(writer).output@, seq![';']),
{
    let node = &parent.children[i];
    proof {
        crate::node::lemma_children_spans(*node, old(writer).source@.len());
        crate::node::lemma_grandchildren_spans(*node, old(writer).source@.len());
    }
    let st = writer.settings;
    let max_name_length = get_max_name_length(node, &writer.source, &st);
    let mut type_length: usize = 1;
    if do_indent {
        writer.write_indent();
    }
    let ghost src = old(writer).source@;
    let ghost base = writer.output@;
    let ghost full = render_var_stmt_items(parent.children@[i as int], src,
        old(writer).indent as nat, old(writer).indent_string@, do_indent,
        max_name_length as int, 0, 1);
    let mut j: usize = 0;
    while j < node.children.len()
        invariant
            j <= node.children@.len(),
            i < parent.children@.len(),
            *node == parent.children@[i as int],
            node_wf(*node, writer.source@.len()),
            writer.source@ == src,
            writer.indent_string@ == old(writer).indent_string@,
            writer.output@ + render_var_stmt_items(*node, src,
                writer.indent as nat, writer.indent_string@, do_indent,
                max_name_length as int, j as int, type_length as int) == base + full,
            writer_core(*writer) == writer_core(*old(writer)),
            writer.indent == old(writer).indent,
        decreases node.children@.len() - j,
    {
        let ghost pre = writer.output@;
        let kind = node.children[j].kind;
        match kind {
            Kind::Type => {
                proof {
                    crate::node::lemma_child_wf(*node, writer.source@.len(), j as int);
                }
                write_type(node, j, writer);
                type_length = sat_add(type_length, node_len(&node.children[j]));
            },
            Kind::VariableStorageClass | Kind::VariableVisibility => {
                proof {
                    crate::node::lemma_child_wf(*node, writer.source@.len(), j as int);
                }
                write_node(&node.children[j], writer);
                writer.push(' ');
                type_length = sat_add(type_length, sat_add(node_len(&node.children[j]), 1));
                proof {
                    assert(writer.output@ =~= pre
                        + (node_text(node.children@[j as int], src)
                            + crate::writers::sp()));
                }
            },
            Kind::Comment => {
                write_comment(node, j, writer);
                if max_name_length > 0 {
                    let ghost after_comment = writer.output@;
                    if do_indent {
                        writer.write_indent();
                    }
                    writer.push_spaces(type_length);
                    proof {
                        let cont_indent = if do_indent {
                            crate::writers::repeat_seq(
                                writer.indent_string@, writer.indent as nat)
                        } else {
                            Seq::<char>::empty()
                        };
                        assert(writer.output@ =~= pre
                            + (crate::writers::spec_render_comment(
                                *node, j as int, src,
                                writer.indent as nat, writer.indent_string@)
                                + (cont_indent
                                    + crate::writers::spaces(type_length as nat))));
                    }
                }
            },
            Kind::Dimension => {
                write_dimension(node, j, true, writer);
            },
            Kind::VariableDeclaration => {
                write_variable_declaration(node, j, writer, max_name_length);
            },
            Kind::Comma => {
                if max_name_length > 0 {
                    let next_kind = next_sibling_kind(node, j);
                    if next_kind == Some(Kind::Comment) {
                        writer.push(',');
                    } else {
                        writer.push_str(",\n");
                        let ghost after_comma = writer.output@;
                        if do_indent {
                            writer.write_indent();
                        }
                        writer.push_spaces(type_length);
                        proof {
                            let cont_indent = if do_indent {
                                crate::writers::repeat_seq(
                                    writer.indent_string@, writer.indent as nat)
                            } else {
                                Seq::<char>::empty()
                            };
                            assert(writer.output@ =~= pre
                                + (",\n"@ + cont_indent
                                    + crate::writers::spaces(type_length as nat)));
                        }
                    }
                } else {
                    writer.push_str(", ");
                }
            },
            Kind::Semicolon => {},
            _ => {},
        }
        proof {
            assert(writer.output@ + render_var_stmt_items(*node, src,
                writer.indent as nat, writer.indent_string@, do_indent,
                max_name_length as int, j + 1, type_length as int) =~= base + full);
        }
        j = j + 1;
    }
    if do_indent {
        writer.push(';');
        proof {
            assert(crate::writers::seq_ends_with(writer.output@, seq![';'])) by {
                assert(writer.output@.subrange(
                    writer.output@.len() - 1, writer.output@.len() as int)
                    =~= seq![';']);
            }
        }
    }
    proof {
        assert(final(writer).output@ =~= old(writer).output@
            + (if do_indent {
                crate::writers::repeat_seq(
                    old(writer).indent_string@, old(writer).indent as nat)
            } else {
                Seq::<char>::empty()
            })
            + render_var_stmt_items(parent.children@[i as int], old(writer).source@,
                old(writer).indent as nat, old(writer).indent_string@, do_indent,
                cap_usize(spec_max_name_length(
                    parent.children@[i as int], old(writer).source@)), 0, 1)
            + (if do_indent { seq![';'] } else { Seq::<char>::empty() }));
    }
}

#[via_fn]
proof fn render_var_decl_items_dec(
    n: Node, src: Seq<char>, max: int, j: int, name_len: int,
) {
    if 0 <= j < n.children@.len() {
        crate::node::lemma_child_decreases(n, j);
    }
}

#[via_fn]
proof fn render_global_var_items_dec(
    n: Node, src: Seq<char>, indent: nat, istr: Seq<char>, max: int, j: int, tlen: int,
) {
    if 0 <= j < n.children@.len() {
        crate::node::lemma_child_decreases(n, j);
    }
}

#[via_fn]
proof fn render_var_stmt_items_dec(
    n: Node, src: Seq<char>, indent: nat, istr: Seq<char>, do_indent: bool,
    max: int, j: int, tlen: int,
) {
    if 0 <= j < n.children@.len() {
        crate::node::lemma_child_decreases(n, j);
    }
}

#[via_fn]
proof fn rendered_total_from_dec(n: Node, src: Seq<char>, j: int, any: bool) {
    if 0 <= j < n.children@.len() {
        crate::node::lemma_child_decreases(n, j);
    }
}

} // verus!