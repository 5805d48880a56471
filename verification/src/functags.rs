//! Functag and funcenum declarations (legacy function types).
//!
//! `functag public old-type Name(args);` and
//! `funcenum Name { public old-type(args), … };`, the funcenum brace
//! governed by its own brace-wrapping setting.

use vstd::prelude::*;

use crate::expressions::{render_old_type, write_old_type};
use crate::functions::{
    render_arg_decls_items, spec_decl_breaks, write_argument_declarations, write_decl_breaks,
};
use crate::node::{lemma_child_decreases, node_text, node_wf, next_sibling_kind, Kind, Node};
use crate::settings::Settings;
use crate::writers::{nl, repeat_seq, sp, write_comment, write_node, writer_core, Writer};

verus! {

/// The rendering of a functag's pieces.
pub open spec fn render_functag_items(n: Node, src: Seq<char>, j: int) -> Seq<char>
    decreases n, 5int, n.children@.len() - j
        via render_functag_items_dec
{
    if j < 0 || j >= n.children@.len() {
        Seq::empty()
    } else {
        let c = n.children@[j];
        let piece = match c.kind {
            Kind::KwFunctag => "functag "@,
            Kind::KwPublic => "public"@,
            Kind::OldType => render_old_type(c, src),
            Kind::Symbol => node_text(c, src) + sp(),
            Kind::ArgumentDeclarations => render_arg_decls_items(c, src, 0),
            _ => Seq::empty(),
        };
        piece + render_functag_items(n, src, j + 1)
    }
}

/// The rendering of one funcenum member at a given indent:
/// `public old-type(args)`.
pub open spec fn render_funcenum_member_items(n: Node, src: Seq<char>, j: int) -> Seq<char>
    decreases n, 5int, n.children@.len() - j
        via render_funcenum_member_items_dec
{
    if j < 0 || j >= n.children@.len() {
        Seq::empty()
    } else {
        let c = n.children@[j];
        let piece = match c.kind {
            Kind::KwPublic => "public "@,
            Kind::OldType => render_old_type(c, src),
            Kind::ArgumentDeclarations => render_arg_decls_items(c, src, 0),
            _ => Seq::empty(),
        };
        piece + render_funcenum_member_items(n, src, j + 1)
    }
}

/// Writes a functag declaration, terminated by `;`.
pub fn write_functag(parent: &Node, i: usize, writer: &mut Writer)
    requires
        i < parent.children@.len(),
        node_wf(parent.children@[i as int], old(writer).source@.len()),
    ensures
        final(writer).output@ == old(writer).output@
            + spec_decl_breaks(*parent, i as int,
                old(writer).settings.breaks_before_function_decl as nat)
            + render_functag_items(parent.children@[i as int], old(writer).source@, 0)
            + seq![';'] + nl(),
        writer_core(*final(writer)) == writer_core(*old(writer)),
        final(writer).indent == old(writer).indent,
{
    let nb_lines: usize = writer.settings.breaks_before_function_decl as usize;
    write_decl_breaks(parent, i, writer, nb_lines);
    let node = &parent.children[i];
    let ghost src = old(writer).source@;
    let ghost base = writer.output@;
    let ghost full = render_functag_items(parent.children@[i as int], src, 0);
    let mut j: usize = 0;
    while j < node.children.len()
        invariant
            j <= node.children@.len(),
            i < parent.children@.len(),
            *node == parent.children@[i as int],
            node_wf(*node, writer.source@.len()),
            writer.source@ == src,
            writer.output@ + render_functag_items(*node, src, j as int) == base + full,
            writer_core(*writer) == writer_core(*old(writer)),
            writer.indent == old(writer).indent,
        decreases node.children@.len() - j,
    {
        let ghost pre = writer.output@;
        let kind = node.children[j].kind;
        match kind {
            Kind::KwFunctag => writer.push_str("functag "),
            Kind::KwPublic => writer.push_str("public"),
            Kind::OldType => write_old_type(&node.children[j], writer),
            Kind::Symbol => {
                write_node(&node.children[j], writer);
                writer.push(' ');
                proof {
                    assert(writer.output@
                        =~= pre + (node_text(node.children@[j as int], src) + sp()));
                }
            },
            Kind::ArgumentDeclarations => write_argument_declarations(node, j, writer),
            Kind::Semicolon => {},
            _ => {},
        }
        proof {
            assert(writer.output@ + render_functag_items(*node, src, j + 1)
                =~= base + full);
        }
        j = j + 1;
    }
    writer.push(';');
    writer.breakl();
    proof {
        assert(final(writer).output@ =~= old(writer).output@
            + spec_decl_breaks(*parent, i as int,
                old(writer).settings.breaks_before_function_decl as nat)
            + render_functag_items(parent.children@[i as int], old(writer).source@, 0)
            + seq![';'] + nl());
    }
}

/// The buffer after a funcenum's children from `j` on: each member ends
/// with a `,` on its own line.
pub open spec fn render_funcenum_items(
    n: Node, src: Seq<char>, st: Settings, entry: nat, istr: Seq<char>, j: int, ind: nat,
    buf: Seq<char>,
) -> Seq<char>
    decreases n, 8int, n.children@.len() - j
        via render_funcenum_items_dec
{
    if j < 0 || j >= n.children@.len() {
        buf
    } else {
        let c = n.children@[j];
        match c.kind {
            Kind::KwFuncenum => render_funcenum_items(n, src, st, entry, istr, j + 1, ind,
                buf + "funcenum "@),
            Kind::Symbol => render_funcenum_items(n, src, st, entry, istr, j + 1, ind,
                buf + node_text(c, src)),
            Kind::LBrace => {
                let b2 = if st.brace_wrapping_before_funcenum { buf + nl() } else { buf + sp() };
                render_funcenum_items(n, src, st, entry, istr, j + 1,
                    crate::writers::inc_indent(ind), b2 + "{\n"@)
            },
            Kind::RBrace => render_funcenum_items(n, src, st, entry, istr, j + 1, entry,
                buf + seq!['}']),
            Kind::FuncenumMember => {
                let piece = repeat_seq(istr, ind) + render_funcenum_member_items(c, src, 0)
                    + seq![','] + (if crate::node::spec_next_sibling_kind(n, j) is Some {
                        nl()
                    } else {
                        Seq::empty()
                    });
                render_funcenum_items(n, src, st, entry, istr, j + 1, ind, buf + piece)
            },
            Kind::Comment => render_funcenum_items(n, src, st, entry, istr, j + 1, ind,
                buf + crate::writers::spec_render_comment(n, j, src, ind, istr)),
            _ => render_funcenum_items(n, src, st, entry, istr, j + 1, ind, buf),
        }
    }
}

/// Writes a funcenum declaration: its members each followed by a `,`,
/// then `};`.
pub fn write_funcenum(parent: &Node, i: usize, writer: &mut Writer)
    requires
        i < parent.children@.len(),
        node_wf(parent.children@[i as int], old(writer).source@.len()),
    ensures
        final(writer).output@ == render_funcenum_items(parent.children@[i as int],
            old(writer).source@, old(writer).settings, old(writer).indent as nat,
            old(writer).indent_string@, 0, old(writer).indent as nat,
            old(writer).output@ + spec_decl_breaks(*parent, i as int,
                old(writer).settings.breaks_before_function_decl as nat))
            + seq![';'] + nl(),
        writer_core(*final(writer)) == writer_core(*old(writer)),
        final(writer).indent == old(writer).indent,
{
    let nb_lines: usize = writer.settings.breaks_before_function_decl as usize;
    write_decl_breaks(parent, i, writer, nb_lines);
    let node = &parent.children[i];
    let entry_indent: usize = writer.indent;
    let ghost src = old(writer).source@;
    let ghost st = old(writer).settings;
    let ghost istr = old(writer).indent_string@;
    let ghost full = render_funcenum_items(parent.children@[i as int], src, st,
        entry_indent as nat, istr, 0, entry_indent as nat, writer.output@);
    let mut j: usize = 0;
    while j < node.children.len()
        invariant
            j <= node.children@.len(),
            i < parent.children@.len(),
            *node == parent.children@[i as int],
            node_wf(*node, writer.source@.len()),
            writer.source@ == src,
            writer.settings == st,
            writer.indent_string@ == istr,
            render_funcenum_items(*node, src, st, entry_indent as nat, istr, j as int,
                writer.indent as nat, writer.output@) == full,
            writer_core(*writer) == writer_core(*old(writer)),
        decreases node.children@.len() - j,
    {
        let ghost pre = writer.output@;
        let kind = node.children[j].kind;
        match kind {
            Kind::KwFuncenum => writer.push_str("funcenum "),
            Kind::Symbol => write_node(&node.children[j], writer),
            Kind::LBrace => {
                if writer.settings.brace_wrapping_before_funcenum {
                    writer.breakl();
                } else {
                    writer.push(' ');
                }
                writer.push_str("{\n");
                writer.indent_inc();
            },
            Kind::RBrace => {
                writer.push('}');
                writer.indent = entry_indent;
            },
            Kind::FuncenumMember => {
                let next_kind = next_sibling_kind(node, j);
                write_funcenum_member(node, j, writer);
                writer.push(',');
                if next_kind.is_some() {
                    writer.breakl();
                }
                proof {
                    assert(writer.output@ =~= pre
                        + (repeat_seq(istr, writer.indent as nat)
                            + render_funcenum_member_items(node.children@[j as int], src, 0)
                            + seq![','] + (if crate::node::spec_next_sibling_kind(
                                *node, j as int) is Some { nl() }
                                else { Seq::<char>::empty() })));
                }
            },
            Kind::Comment => write_comment(node, j, writer),
            Kind::Comma => {},
            _ => {},
        }
        proof {
            assert(render_funcenum_items(*node, src, st, entry_indent as nat, istr, j + 1,
                writer.indent as nat, writer.output@) == full);
        }
        j = j + 1;
    }
    writer.push(';');
    writer.breakl();
    writer.indent = entry_indent;
    proof {
        assert(final(writer).output@ =~= full + seq![';'] + nl());
    }
}

/// Writes one funcenum member: `public old-type(args)` at the current
/// indent.
pub fn write_funcenum_member(parent: &Node, i: usize, writer: &mut Writer)
    requires
        i < parent.children@.len(),
        node_wf(parent.children@[i as int], old(writer).source@.len()),
    ensures
        final(writer).output@ == old(writer).output@
            + repeat_seq(old(writer).indent_string@, old(writer).indent as nat)
            + render_funcenum_member_items(
                parent.children@[i as int], old(writer).source@, 0),
        writer_core(*final(writer)) == writer_core(*old(writer)),
        final(writer).indent == old(writer).indent,
{
    let node = &parent.children[i];
    writer.write_indent();
    let ghost src = old(writer).source@;
    let ghost base = writer.output@;
    let ghost full = render_funcenum_member_items(parent.children@[i as int], src, 0);
    let mut j: usize = 0;
    while j < node.children.len()
        invariant
            j <= node.children@.len(),
            i < parent.children@.len(),
            *node == parent.children@[i as int],
            node_wf(*node, writer.source@.len()),
            writer.source@ == src,
            writer.output@ + render_funcenum_member_items(*node, src, j as int)
                == base + full,
            writer_core(*writer) == writer_core(*old(writer)),
            writer.indent == old(writer).indent,
        decreases node.children@.len() - j,
    {
        let kind = node.children[j].kind;
        match kind {
            Kind::KwPublic => writer.push_str("public "),
            Kind::OldType => write_old_type(&node.children[j], writer),
            Kind::ArgumentDeclarations => write_argument_declarations(node, j, writer),
            _ => {},
        }
        proof {
            assert(writer.output@ + render_funcenum_member_items(*node, src, j + 1)
                =~= base + full);
        }
        j = j + 1;
    }
    proof {
        assert(final(writer).output@ =~= old(writer).output@
            + repeat_seq(old(writer).indent_string@, old(writer).indent as nat)
            + render_funcenum_member_items(
                parent.children@[i as int], old(writer).source@, 0));
    }
}

#[via_fn]
proof fn render_functag_items_dec(n: Node, src: Seq<char>, j: int) {
    if 0 <= j < n.children@.len() {
        lemma_child_decreases(n, j);
    }
}

#[via_fn]
proof fn render_funcenum_member_items_dec(n: Node, src: Seq<char>, j: int) {
    if 0 <= j < n.children@.len() {
        lemma_child_decreases(n, j);
    }
}

#[via_fn]
proof fn render_funcenum_items_dec(
    n: Node, src: Seq<char>, st: Settings, entry: nat, istr: Seq<char>, j: int, ind: nat,
    buf: Seq<char>,
) {
    if 0 <= j < n.children@.len() {
        lemma_child_decreases(n, j);
    }
}

} // verus!