//! Preprocessor directives and the blank-line decision.
//!
//! `insert_break` is the single source of truth for the whitespace that
//! follows a statement or declaration: one newline always, a second one
//! when the author left a gap, and none when an inline comment follows on
//! the same row.

use vstd::prelude::*;

use crate::node::{
    next_sibling_kind, next_sibling_start, node_text, node_wf, spec_next_sibling_kind, Kind, Node,
};
use crate::writers::{
    nl, sp, spec_render_comment, spec_trim, write_comment, write_node, write_node_stripped,
    writer_core, Writer,
};

verus! {

/// The text `insert_break` appends after child `i` of `parent`: nothing
/// when a comment follows on the same row, two newlines when the next
/// sibling sits more than one row further down, one newline otherwise.
pub open spec fn spec_break_of(parent: Node, i: int) -> Seq<char> {
    match spec_next_sibling_kind(parent, i) {
        Option::None => nl(),
        Option::Some(k) => {
            let node = parent.children@[i];
            let next_row = parent.children@[i + 1].start_row;
            if k == Kind::Comment && next_row == node.end_row {
                Seq::empty()
            } else if next_row - node.end_row > 1 {
                nl() + nl()
            } else {
                nl()
            }
        },
    }
}

/// Decides the break after child `i` of `parent` was written: no break
/// before an inline comment on the same row; otherwise one newline, and a
/// second one when the gap the author left was larger than a single row.
pub fn insert_break(parent: &Node, i: usize, writer: &mut Writer)
    requires
        i < parent.children@.len(),
    ensures
        final(writer).output@ == old(writer).output@ + spec_break_of(*parent, i as int),
        writer_core(*final(writer)) == writer_core(*old(writer)),
        final(writer).indent == old(writer).indent,
{
    let next_kind = next_sibling_kind(parent, i);
    match next_kind {
        Option::None => {
            writer.breakl();
        },
        Option::Some(k) => {
            let end_row = parent.children[i].end_row;
            let next_row = match next_sibling_start(parent, i) {
                Option::Some(r) => r,
                Option::None => 0,
            };
            if k == Kind::Comment && next_row == end_row {
                return;
            }
            writer.breakl();
            if next_row > end_row && next_row - end_row > 1 {
                writer.breakl();
                proof {
                    assert(old(writer).output@ + nl() + nl()
                        =~= old(writer).output@ + (nl() + nl()));
                }
            }
        },
    }
}

/// Blank-line collapsing: whatever gap the author left between two
/// siblings, the break decision emits at most two newlines, and nothing
/// but newlines.  Larger gaps collapse to a single blank line.
pub proof fn lemma_break_collapses(parent: Node, i: int)
    ensures
        spec_break_of(parent, i).len() <= 2,
        forall|k: int| 0 <= k < spec_break_of(parent, i).len()
            ==> spec_break_of(parent, i)[k] == '\n',
{
    let b = spec_break_of(parent, i);
    assert(b == Seq::<char>::empty() || b == nl() || b == nl() + nl());
    assert(nl().len() == 1 && nl()[0] == '\n');
    if b == nl() + nl() {
        assert(b.len() == 2);
        assert(b[0] == '\n' && b[1] == '\n');
    }
}

/// The rendering of a `#include`/`#tryinclude` line from child `j` on:
/// the directive keyword followed by one space, then the path token.
pub open spec fn render_include_items(n: Node, src: Seq<char>, j: int) -> Seq<char>
    decreases n.children@.len() - j,
{
    if j < 0 || j >= n.children@.len() {
        Seq::empty()
    } else {
        let c = n.children@[j];
        let piece = match c.kind {
            Kind::HashInclude | Kind::HashTryinclude => node_text(c, src) + sp(),
            Kind::StringLiteral | Kind::SystemLibString => node_text(c, src),
            _ => Seq::empty(),
        };
        piece + render_include_items(n, src, j + 1)
    }
}

/// Writes a `#include` or `#tryinclude` directive: the keyword, one
/// space, the path as it stands, then the break decision.
pub fn write_preproc_include(parent: &Node, i: usize, writer: &mut Writer)
    requires
        i < parent.children@.len(),
        node_wf(parent.children@[i as int], old(writer).source@.len()),
    ensures
        final(writer).output@ == old(writer).output@
            + render_include_items(parent.children@[i as int], old(writer).source@, 0)
            + spec_break_of(*parent, i as int),
        writer_core(*final(writer)) == writer_core(*old(writer)),
        final(writer).indent == old(writer).indent,
{
    let node = &parent.children[i];
    let ghost src = old(writer).source@;
    let ghost full = render_include_items(parent.children@[i as int], src, 0);
    let mut j: usize = 0;
    let ghost base = old(writer).output@;
    while j < node.children.len()
        invariant
            j <= node.children@.len(),
            node_wf(*node, writer.source@.len()),
            writer.source@ == src,
            writer.output@ + render_include_items(*node, src, j as int) == base + full,
            writer_core(*writer) == writer_core(*old(writer)),
            writer.indent == old(writer).indent,
        decreases node.children@.len() - j,
    {
        let ghost pre = writer.output@;
        let kind = node.children[j].kind;
        match kind {
            Kind::HashInclude | Kind::HashTryinclude => {
                write_node(&node.children[j], writer);
                writer.push(' ');
                proof {
                    assert(writer.output@
                        =~= pre + (node_text(node.children@[j as int], src) + sp()));
                }
            },
            Kind::StringLiteral | Kind::SystemLibString => {
                write_node(&node.children[j], writer);
            },
            _ => {},
        }
        proof {
            assert(writer.output@ + render_include_items(*node, src, j + 1) =~= base + full);
        }
        j = j + 1;
    }
    insert_break(parent, i, writer);
    proof {
        assert(final(writer).output@ =~= base + full + spec_break_of(*parent, i as int));
    }
}

/// The rendering of a `#define` or macro definition from child `j` on.
pub open spec fn render_define_items(n: Node, src: Seq<char>, j: int) -> Seq<char>
    decreases n.children@.len() - j,
{
    if j < 0 || j >= n.children@.len() {
        Seq::empty()
    } else {
        let c = n.children@[j];
        let piece = match c.kind {
            Kind::HashDefine => "#define "@,
            Kind::Symbol => node_text(c, src),
            Kind::PreprocArg => sp() + spec_trim(node_text(c, src)),
            Kind::Comma => ", "@,
            Kind::LParen | Kind::RParen => node_text(c, src),
            Kind::MacroParam => node_text(c, src),
            _ => Seq::empty(),
        };
        piece + render_define_items(n, src, j + 1)
    }
}

/// Writes a `#define` or macro definition: one space between the keyword
/// and the name, no spaces around the parameter-list parentheses, the
/// replacement text trimmed, then the break decision.
pub fn write_preproc_define(parent: &Node, i: usize, writer: &mut Writer)
    requires
        i < parent.children@.len(),
        node_wf(parent.children@[i as int], old(writer).source@.len()),
    ensures
        final(writer).output@ == old(writer).output@
            + render_define_items(parent.children@[i as int], old(writer).source@, 0)
            + spec_break_of(*parent, i as int),
        writer_core(*final(writer)) == writer_core(*old(writer)),
        final(writer).indent == old(writer).indent,
{
    let node = &parent.children[i];
    let ghost src = old(writer).source@;
    let ghost full = render_define_items(parent.children@[i as int], src, 0);
    let mut j: usize = 0;
    let ghost base = old(writer).output@;
    while j < node.children.len()
        invariant
            j <= node.children@.len(),
            node_wf(*node, writer.source@.len()),
            writer.source@ == src,
            writer.output@ + render_define_items(*node, src, j as int) == base + full,
            writer_core(*writer) == writer_core(*old(writer)),
            writer.indent == old(writer).indent,
        decreases node.children@.len() - j,
    {
        let ghost pre = writer.output@;
        let kind = node.children[j].kind;
        match kind {
            Kind::HashDefine => {
                writer.push_str("#define ");
            },
            Kind::Symbol => {
                write_node(&node.children[j], writer);
            },
            Kind::PreprocArg => {
                writer.push(' ');
                write_node_stripped(&node.children[j], writer);
                proof {
                    assert(writer.output@
                        =~= pre + (sp() + spec_trim(
                            node_text(node.children@[j as int], src))));
                }
            },
            Kind::Comma => {
                writer.push_str(", ");
            },
            Kind::LParen | Kind::RParen => {
                write_node(&node.children[j], writer);
            },
            Kind::MacroParam => {
                write_node(&node.children[j], writer);
            },
            _ => {},
        }
        proof {
            assert(writer.output@ + render_define_items(*node, src, j + 1) =~= base + full);
        }
        j = j + 1;
    }
    insert_break(parent, i, writer);
    proof {
        assert(final(writer).output@ =~= base + full + spec_break_of(*parent, i as int));
    }
}

/// The rendering of a `#undef` directive from child `j` on.
pub open spec fn render_undefine_items(n: Node, src: Seq<char>, j: int) -> Seq<char>
    decreases n.children@.len() - j,
{
    if j < 0 || j >= n.children@.len() {
        Seq::empty()
    } else {
        let c = n.children@[j];
        let piece = match c.kind {
            Kind::HashUndef => "#undef "@,
            Kind::Symbol => node_text(c, src),
            _ => Seq::empty(),
        };
        piece + render_undefine_items(n, src, j + 1)
    }
}

/// Writes a `#undef` directive: the keyword, one space, the symbol, then
/// the break decision.
pub fn write_preproc_undefine(parent: &Node, i: usize, writer: &mut Writer)
    requires
        i < parent.children@.len(),
        node_wf(parent.children@[i as int], old(writer).source@.len()),
    ensures
        final(writer).output@ == old(writer).output@
            + render_undefine_items(parent.children@[i as int], old(writer).source@, 0)
            + spec_break_of(*parent, i as int),
        writer_core(*final(writer)) == writer_core(*old(writer)),
        final(writer).indent == old(writer).indent,
{
    let node = &parent.children[i];
    let ghost src = old(writer).source@;
    let ghost full = render_undefine_items(parent.children@[i as int], src, 0);
    let mut j: usize = 0;
    let ghost base = old(writer).output@;
    while j < node.children.len()
        invariant
            j <= node.children@.len(),
            node_wf(*node, writer.source@.len()),
            writer.source@ == src,
            writer.output@ + render_undefine_items(*node, src, j as int) == base + full,
            writer_core(*writer) == writer_core(*old(writer)),
            writer.indent == old(writer).indent,
        decreases node.children@.len() - j,
    {
        let kind = node.children[j].kind;
        match kind {
            Kind::HashUndef => {
                writer.push_str("#undef ");
            },
            Kind::Symbol => {
                write_node(&node.children[j], writer);
            },
            _ => {},
        }
        proof {
            assert(writer.output@ + render_undefine_items(*node, src, j + 1) =~= base + full);
        }
        j = j + 1;
    }
    insert_break(parent, i, writer);
    proof {
        assert(final(writer).output@ =~= base + full + spec_break_of(*parent, i as int));
    }
}

/// The rendering of a generic directive (`#if`, `#elseif`, `#error`,
/// `#warning`, `#pragma`, `#assert`) from child `j` on.
pub open spec fn render_generic_items(
    n: Node, src: Seq<char>, indent: nat, istr: Seq<char>, j: int,
) -> Seq<char>
    decreases n.children@.len() - j,
{
    if j < 0 || j >= n.children@.len() {
        Seq::empty()
    } else {
        let c = n.children@[j];
        let piece = match c.kind {
            Kind::HashIf | Kind::HashElseif | Kind::HashError | Kind::HashWarning
            | Kind::HashPragma | Kind::HashAssert => node_text(c, src) + sp(),
            Kind::PreprocArg => spec_trim(node_text(c, src)),
            Kind::Comment => spec_render_comment(n, j, src, indent, istr),
            _ => Seq::empty(),
        };
        piece + render_generic_items(n, src, indent, istr, j + 1)
    }
}

/// Writes a generic directive: the keyword as it stands, one space, the
/// argument text trimmed, then the break decision.
pub fn write_preproc_generic(parent: &Node, i: usize, writer: &mut Writer)
    requires
        i < parent.children@.len(),
        node_wf(parent.children@[i as int], old(writer).source@.len()),
    ensures
        final(writer).output@ == old(writer).output@
            + render_generic_items(
                parent.children@[i as int], old(writer).source@,
                old(writer).indent as nat, old(writer).indent_string@, 0)
            + spec_break_of(*parent, i as int),
        writer_core(*final(writer)) == writer_core(*old(writer)),
        final(writer).indent == old(writer).indent,
{
    let node = &parent.children[i];
    let ghost src = old(writer).source@;
    let ghost full = render_generic_items(
        parent.children@[i as int], src, old(writer).indent as nat,
        old(writer).indent_string@, 0);
    let mut j: usize = 0;
    let ghost base = old(writer).output@;
    while j < node.children.len()
        invariant
            j <= node.children@.len(),
            node_wf(*node, writer.source@.len()),
            writer.source@ == src,
            writer.output@ + render_generic_items(
                *node, src, writer.indent as nat, writer.indent_string@, j as int)
                == base + full,
            writer_core(*writer) == writer_core(*old(writer)),
            writer.indent == old(writer).indent,
        decreases node.children@.len() - j,
    {
        let ghost pre = writer.output@;
        let kind = node.children[j].kind;
        match kind {
            Kind::HashIf | Kind::HashElseif | Kind::HashError | Kind::HashWarning
            | Kind::HashPragma | Kind::HashAssert => {
                write_node(&node.children[j], writer);
                writer.push(' ');
                proof {
                    assert(writer.output@
                        =~= pre + (node_text(node.children@[j as int], src) + sp()));
                }
            },
            Kind::PreprocArg => {
                write_node_stripped(&node.children[j], writer);
            },
            Kind::Comment => {
                write_comment(node, j, writer);
            },
            _ => {},
        }
        proof {
            assert(writer.output@ + render_generic_items(
                *node, src, writer.indent as nat, writer.indent_string@, j + 1)
                =~= base + full);
        }
        j = j + 1;
    }
    insert_break(parent, i, writer);
    proof {
        assert(final(writer).output@ =~= base + full + spec_break_of(*parent, i as int));
    }
}

/// The rendering of a bare directive: its own text for `#endif`, `#else`,
/// `#endinput` and symbols, nothing otherwise.
pub open spec fn render_preproc_symbol(n: Node, src: Seq<char>) -> Seq<char> {
    match n.kind {
        Kind::PreprocEndif | Kind::PreprocElse | Kind::PreprocEndinput | Kind::Symbol =>
            node_text(n, src),
        _ => Seq::empty(),
    }
}

/// Writes a bare directive (`#endif`, `#else`, `#endinput`) or a plain
/// symbol: its exact text, then the break decision.
pub fn write_preproc_symbol(parent: &Node, i: usize, writer: &mut Writer)
    requires
        i < parent.children@.len(),
        node_wf(parent.children@[i as int], old(writer).source@.len()),
    ensures
        final(writer).output@ == old(writer).output@
            + render_preproc_symbol(parent.children@[i as int], old(writer).source@)
            + spec_break_of(*parent, i as int),
        writer_core(*final(writer)) == writer_core(*old(writer)),
        final(writer).indent == old(writer).indent,
{
    let node = &parent.children[i];
    let kind = node.kind;
    match kind {
        Kind::PreprocEndif | Kind::PreprocElse | Kind::PreprocEndinput | Kind::Symbol => {
            write_node(node, writer);
        },
        _ => {},
    }
    insert_break(parent, i, writer);
    proof {
        assert(final(writer).output@ =~= old(writer).output@
            + render_preproc_symbol(parent.children@[i as int], old(writer).source@)
            + spec_break_of(*parent, i as int));
    }
}

} // verus!
