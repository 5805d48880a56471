//! Methodmap declarations.
//!
//! `methodmap Name [< Parent] [__nullable__] { … };` with alias, native,
//! method and property members; the braces follow the methodmap and
//! methodmap-property brace-wrapping settings.

use vstd::prelude::*;

use crate::functions::{render_arg_decls_items, write_argument_declarations};
use crate::node::{
    lemma_child_decreases, node_text, node_wf, prev_sibling_kind, spec_prev_sibling_kind,
    Kind, Node,
};
use crate::settings::Settings;
use crate::statements::{render_block_items, write_block};
use crate::variables::{render_type, write_type};
use crate::writers::{
    inc_indent, is_preproc_kind, nl, repeat_seq, sp, spec_is_preproc, write_comment,
    write_node, writer_core, Writer,
};

verus! {

/// The blank lines before a methodmap member: none when it follows the
/// opening brace, a comment, a preprocessor directive or nothing; the
/// configured count of newlines otherwise.
pub open spec fn spec_member_breaks(parent: Node, i: int, nb_lines: nat) -> Seq<char> {
    let suppress = match spec_prev_sibling_kind(parent, i) {
        Option::None => true,
        Option::Some(k) => spec_is_preproc(k) || k == Kind::Comment || k == Kind::LBrace,
    };
    if suppress {
        Seq::empty()
    } else {
        repeat_seq(nl(), nb_lines)
    }
}

/// The rendering of an alias member's pieces.
pub open spec fn render_mm_alias_items(n: Node, src: Seq<char>, j: int) -> Seq<char>
    decreases n.children@.len() - j,
{
    if j < 0 || j >= n.children@.len() {
        Seq::empty()
    } else {
        let c = n.children@[j];
        let piece = match c.kind {
            Kind::KwPublic => "public "@,
            Kind::Tilde | Kind::LParen | Kind::RParen | Kind::Symbol => node_text(c, src),
            Kind::Equals => " = "@,
            _ => Seq::empty(),
        };
        piece + render_mm_alias_items(n, src, j + 1)
    }
}

/// The rendering of a native member's pieces.
pub open spec fn render_mm_native_items(n: Node, src: Seq<char>, j: int) -> Seq<char>
    decreases n, 5int, n.children@.len() - j
        via render_mm_native_items_dec
{
    if j < 0 || j >= n.children@.len() {
        Seq::empty()
    } else {
        let c = n.children@[j];
        let piece = match c.kind {
            Kind::KwPublic => "public "@,
            Kind::KwStatic | Kind::KwNative => node_text(c, src) + sp(),
            Kind::Type => render_type(n, j, src),
            Kind::LParen | Kind::RParen | Kind::Symbol | Kind::Tilde => node_text(c, src),
            Kind::Equals => " = "@,
            Kind::ArgumentDeclarations => render_arg_decls_items(c, src, 0),
            _ => Seq::empty(),
        };
        piece + render_mm_native_items(n, src, j + 1)
    }
}

/// The blank lines before a methodmap: none when it opens the file or
/// follows a comment, a preprocessor directive or an alias declaration.
pub open spec fn spec_methodmap_breaks(parent: Node, i: int, nb_lines: nat) -> Seq<char> {
    let suppress = match crate::node::spec_prev_sibling_kind(parent, i) {
        Option::None => true,
        Option::Some(k) => crate::writers::spec_is_preproc(k) || k == Kind::Comment
            || k == Kind::AliasDeclaration,
    };
    if suppress {
        Seq::empty()
    } else {
        repeat_seq(nl(), nb_lines)
    }
}

/// The buffer after a methodmap's children from `j` on.
pub open spec fn render_methodmap_items(
    n: Node, src: Seq<char>, st: Settings, entry: nat, istr: Seq<char>, j: int, ind: nat,
    buf: Seq<char>,
) -> Seq<char>
    decreases n, 8int, n.children@.len() - j
        via render_methodmap_items_dec
{
    if j < 0 || j >= n.children@.len() {
        buf
    } else {
        let c = n.children@[j];
        match c.kind {
            Kind::KwMethodmap => render_methodmap_items(n, src, st, entry, istr, j + 1, ind,
                buf + "methodmap "@),
            Kind::Symbol => render_methodmap_items(n, src, st, entry, istr, j + 1, ind,
                buf + node_text(c, src)),
            Kind::LAngle => render_methodmap_items(n, src, st, entry, istr, j + 1, ind,
                buf + " < "@),
            Kind::KwNullable => render_methodmap_items(n, src, st, entry, istr, j + 1, ind,
                buf + " __nullable__ "@),
            Kind::LBrace => {
                let b2 = if st.brace_wrapping_before_methodmap {
                    buf + nl()
                } else {
                    buf + sp()
                };
                render_methodmap_items(n, src, st, entry, istr, j + 1, inc_indent(ind),
                    b2 + "{\n"@)
            },
            Kind::RBrace => render_methodmap_items(n, src, st, entry, istr, j + 1, entry,
                buf + seq!['}']),
            Kind::MethodmapAlias => render_methodmap_items(n, src, st, entry, istr, j + 1,
                ind,
                buf + spec_member_breaks(n, j, st.breaks_before_function_def as nat)
                    + repeat_seq(istr, ind) + render_mm_alias_items(c, src, 0)
                    + seq![';'] + nl()),
            Kind::MethodmapNative | Kind::MethodmapNativeDestructor
            | Kind::MethodmapNativeConstructor => render_methodmap_items(n, src, st, entry,
                istr, j + 1, ind,
                buf + spec_member_breaks(n, j, st.breaks_before_function_def as nat)
                    + repeat_seq(istr, ind) + render_mm_native_items(c, src, 0)
                    + seq![';'] + nl()),
            Kind::MethodmapMethod | Kind::MethodmapMethodDestructor
            | Kind::MethodmapMethodConstructor => render_methodmap_items(n, src, st, entry,
                istr, j + 1, ind,
                render_methodmap_method(n, j, src, st, ind, istr, buf)),
            Kind::MethodmapProperty => render_methodmap_items(n, src, st, entry, istr, j + 1,
                ind, render_methodmap_property(n, j, src, st, ind, istr, buf)),
            Kind::Comment => render_methodmap_items(n, src, st, entry, istr, j + 1, ind,
                buf + crate::writers::spec_render_comment(n, j, src, ind, istr)),
            _ => render_methodmap_items(n, src, st, entry, istr, j + 1, ind, buf),
        }
    }
}

/// The buffer after a property member's children from `j` on.
pub open spec fn render_mm_property_items(
    n: Node, src: Seq<char>, st: Settings, entry: nat, istr: Seq<char>, j: int, ind: nat,
    buf: Seq<char>,
) -> Seq<char>
    decreases n, 7int, n.children@.len() - j
        via render_mm_property_items_dec
{
    if j < 0 || j >= n.children@.len() {
        buf
    } else {
        let c = n.children@[j];
        match c.kind {
            Kind::KwProperty => render_mm_property_items(n, src, st, entry, istr, j + 1, ind,
                buf + node_text(c, src) + sp()),
            Kind::Type => render_mm_property_items(n, src, st, entry, istr, j + 1, ind,
                buf + render_type(n, j, src)),
            Kind::LParen | Kind::RParen | Kind::Symbol | Kind::Tilde =>
                render_mm_property_items(n, src, st, entry, istr, j + 1, ind,
                    buf + node_text(c, src)),
            Kind::LBrace => {
                let b2 = if st.brace_wrapping_before_methodmap_property {
                    buf + nl()
                } else {
                    buf + sp()
                };
                render_mm_property_items(n, src, st, entry, istr, j + 1, inc_indent(ind),
                    b2 + "{\n"@)
            },
            Kind::RBrace => render_mm_property_items(n, src, st, entry, istr, j + 1, entry,
                buf + seq!['}']),
            Kind::Equals => render_mm_property_items(n, src, st, entry, istr, j + 1, ind,
                buf + " = "@),
            Kind::ArgumentDeclarations => render_mm_property_items(n, src, st, entry, istr,
                j + 1, ind, buf + render_arg_decls_items(c, src, 0)),
            Kind::MethodmapPropertyAlias => render_mm_property_items(n, src, st, entry, istr,
                j + 1, ind,
                buf + spec_member_breaks(n, j, st.breaks_before_function_def as nat)
                    + repeat_seq(istr, ind) + render_mm_prop_alias_items(c, src, 0)
                    + seq![';'] + nl()),
            Kind::MethodmapPropertyMethod | Kind::MethodmapPropertyNative =>
                render_mm_property_items(n, src, st, entry, istr, j + 1, ind,
                    render_methodmap_property_method(n, j, src, st, ind, istr, buf)),
            _ => render_mm_property_items(n, src, st, entry, istr, j + 1, ind, buf),
        }
    }
}

/// The buffer after one property member: its blank lines, the current
/// indent, its pieces and a line break.
pub open spec fn render_methodmap_property(
    parent: Node, i: int, src: Seq<char>, st: Settings, indent: nat, istr: Seq<char>,
    buf: Seq<char>,
) -> Seq<char> {
    render_mm_property_items(parent.children@[i], src, st, indent, istr, 0, indent,
        buf + spec_member_breaks(parent, i, st.breaks_before_function_def as nat)
            + repeat_seq(istr, indent)) + nl()
}

/// Writes a methodmap: leading blank lines, the header, its members
/// inside the brace governed by the methodmap setting, then `;`.
pub fn write_methodmap(parent: &Node, i: usize, writer: &mut Writer)
    requires
        i < parent.children@.len(),
        node_wf(parent.children@[i as int], old(writer).source@.len()),
    ensures
        final(writer).output@ == render_methodmap_items(parent.children@[i as int],
            old(writer).source@, old(writer).settings, old(writer).indent as nat,
            old(writer).indent_string@, 0, old(writer).indent as nat,
            old(writer).output@ + spec_methodmap_breaks(*parent, i as int,
                old(writer).settings.breaks_before_methodmap as nat))
            + seq![';'] + nl(),
        writer_core(*final(writer)) == writer_core(*old(writer)),
        final(writer).indent == old(writer).indent,
{
    let nb_lines: usize = writer.settings.breaks_before_methodmap as usize;
    let prev_kind = prev_sibling_kind(parent, i);
    let suppress: bool = match prev_kind {
        Option::None => true,
        Option::Some(k) => is_preproc_kind(k) || k == Kind::Comment
            || k == Kind::AliasDeclaration,
    };
    if !suppress {
        writer.push_breaks(nb_lines);
    }
    let node = &parent.children[i];
    let entry_indent: usize = writer.indent;
    let ghost src = old(writer).source@;
    let ghost st = old(writer).settings;
    let ghost istr = old(writer).indent_string@;
    let ghost full = render_methodmap_items(parent.children@[i as int], src, st,
        entry_indent as nat, istr, 0, entry_indent as nat, writer.output@);
    let mut j: usize = 0;
    while j < node.children.len()
        invariant
            j <= node.children@.len(),
            i < parent.children@.len(),
            *node == parent.children@[i as int],
            node_wf(*node, writer.source@.len()),
            writer.source@ == src,
            writer.settings == st,
            writer.indent_string@ == istr,
            render_methodmap_items(*node, src, st, entry_indent as nat, istr, j as int,
                writer.indent as nat, writer.output@) == full,
            writer_core(*writer) == writer_core(*old(writer)),
        decreases node.children@.len() - j,
    {
        let ghost pre = writer.output@;
        let kind = node.children[j].kind;
        match kind {
            Kind::KwMethodmap => writer.push_str("methodmap "),
            Kind::Symbol => write_node(&node.children[j], writer),
            Kind::LAngle => writer.push_str(" < "),
            Kind::KwNullable => writer.push_str(" __nullable__ "),
            Kind::LBrace => {
                if writer.settings.brace_wrapping_before_methodmap {
                    writer.breakl();
                } else {
                    writer.push(' ');
                }
                writer.push_str("{\n");
                writer.indent_inc();
            },
            Kind::RBrace => {
                writer.push('}');
                writer.indent = entry_indent;
            },
            Kind::MethodmapAlias => write_methodmap_alias(node, j, writer),
            Kind::MethodmapNative | Kind::MethodmapNativeDestructor
            | Kind::MethodmapNativeConstructor => {
                write_methodmap_native(node, j, writer);
            },
            Kind::MethodmapMethod | Kind::MethodmapMethodDestructor
            | Kind::MethodmapMethodConstructor => {
                write_methodmap_method(node, j, writer);
            },
            Kind::MethodmapProperty => write_methodmap_property(node, j, writer),
            Kind::Comment => write_comment(node, j, writer),
            Kind::Semicolon => {},
            _ => {},
        }
        proof {
            assert(render_methodmap_items(*node, src, st, entry_indent as nat, istr, j + 1,
                writer.indent as nat, writer.output@) == full);
        }
        j = j + 1;
    }
    writer.push(';');
    writer.breakl();
    writer.indent = entry_indent;
    proof {
        assert(final(writer).output@ =~= full + seq![';'] + nl());
    }
}

/// Decides the blank lines before a methodmap member./// Decides the blank lines before a methodmap member.
fn member_breaks(parent: &Node, i: usize, writer: &mut Writer)
    requires
        i < parent.children@.len(),
    ensures
        final(writer).output@ == old(writer).output@
            + spec_member_breaks(*parent, i as int,
                old(writer).settings.breaks_before_function_def as nat),
        writer_core(*final(writer)) == writer_core(*old(writer)),
        final(writer).indent == old(writer).indent,
{
    let nb_lines: usize = writer.settings.breaks_before_function_def as usize;
    let prev_kind = prev_sibling_kind(parent, i);
    let suppress: bool = match prev_kind {
        Option::None => true,
        Option::Some(k) => is_preproc_kind(k) || k == Kind::Comment || k == Kind::LBrace,
    };
    if !suppress {
        writer.push_breaks(nb_lines);
    }
}

/// Writes a methodmap alias member: `public [~]name(…) = …;`.
pub fn write_methodmap_alias(parent: &Node, i: usize, writer: &mut Writer)
    requires
        i < parent.children@.len(),
        node_wf(parent.children@[i as int], old(writer).source@.len()),
    ensures
        final(writer).output@ == old(writer).output@
            + spec_member_breaks(*parent, i as int,
                old(writer).settings.breaks_before_function_def as nat)
            + repeat_seq(old(writer).indent_string@, old(writer).indent as nat)
            + render_mm_alias_items(parent.children@[i as int], old(writer).source@, 0)
            + seq![';'] + nl(),
        writer_core(*final(writer)) == writer_core(*old(writer)),
        final(writer).indent == old(writer).indent,
{
    member_breaks(parent, i, writer);
    writer.write_indent();
    let node = &parent.children[i];
    let ghost src = old(writer).source@;
    let ghost base = writer.output@;
    let ghost full = render_mm_alias_items(parent.children@[i as int], src, 0);
    let mut j: usize = 0;
    while j < node.children.len()
        invariant
            j <= node.children@.len(),
            i < parent.children@.len(),
            *node == parent.children@[i as int],
            node_wf(*node, writer.source@.len()),
            writer.source@ == src,
            writer.output@ + render_mm_alias_items(*node, src, j as int) == base + full,
            writer_core(*writer) == writer_core(*old(writer)),
            writer.indent == old(writer).indent,
        decreases node.children@.len() - j,
    {
        let kind = node.children[j].kind;
        match kind {
            Kind::KwPublic => writer.push_str("public "),
            Kind::Tilde | Kind::LParen | Kind::RParen | Kind::Symbol => {
                write_node(&node.children[j], writer);
            },
            Kind::Equals => writer.push_str(" = "),
            Kind::Semicolon => {},
            _ => {},
        }
        proof {
            assert(writer.output@ + render_mm_alias_items(*node, src, j + 1)
                =~= base + full);
        }
        j = j + 1;
    }
    writer.push(';');
    writer.breakl();
    proof {
        assert(final(writer).output@ =~= old(writer).output@
            + spec_member_breaks(*parent, i as int,
                old(writer).settings.breaks_before_function_def as nat)
            + repeat_seq(old(writer).indent_string@, old(writer).indent as nat)
            + render_mm_alias_items(parent.children@[i as int], old(writer).source@, 0)
            + seq![';'] + nl());
    }
}

/// Writes a native member: `public [static] native type name(args);`.
pub fn write_methodmap_native(parent: &Node, i: usize, writer: &mut Writer)
    requires
        i < parent.children@.len(),
        node_wf(parent.children@[i as int], old(writer).source@.len()),
    ensures
        final(writer).output@ == old(writer).output@
            + spec_member_breaks(*parent, i as int,
                old(writer).settings.breaks_before_function_def as nat)
            + repeat_seq(old(writer).indent_string@, old(writer).indent as nat)
            + render_mm_native_items(parent.children@[i as int], old(writer).source@, 0)
            + seq![';'] + nl(),
        writer_core(*final(writer)) == writer_core(*old(writer)),
        final(writer).indent == old(writer).indent,
{
    member_breaks(parent, i, writer);
    writer.write_indent();
    let node = &parent.children[i];
    let ghost src = old(writer).source@;
    let ghost base = writer.output@;
    let ghost full = render_mm_native_items(parent.children@[i as int], src, 0);
    let mut j: usize = 0;
    while j < node.children.len()
        invariant
            j <= node.children@.len(),
            i < parent.children@.len(),
            *node == parent.children@[i as int],
            node_wf(*node, writer.source@.len()),
            writer.source@ == src,
            writer.output@ + render_mm_native_items(*node, src, j as int) == base + full,
            writer_core(*writer) == writer_core(*old(writer)),
            writer.indent == old(writer).indent,
        decreases node.children@.len() - j,
    {
        let ghost pre = writer.output@;
        let kind = node.children[j].kind;
        match kind {
            Kind::KwPublic => writer.push_str("public "),
            Kind::KwStatic | Kind::KwNative => {
                write_node(&node.children[j], writer);
                writer.push(' ');
                proof {
                    assert(writer.output@
                        =~= pre + (node_text(node.children@[j as int], src) + sp()));
                }
            },
            Kind::Type => write_type(node, j, writer),
            Kind::LParen | Kind::RParen | Kind::Symbol | Kind::Tilde => {
                write_node(&node.children[j], writer);
            },
            Kind::Equals => writer.push_str(" = "),
            Kind::ArgumentDeclarations => write_argument_declarations(node, j, writer),
            Kind::Semicolon => {},
            _ => {},
        }
        proof {
            assert(writer.output@ + render_mm_native_items(*node, src, j + 1)
                =~= base + full);
        }
        j = j + 1;
    }
    writer.push(';');
    writer.breakl();
    proof {
        assert(final(writer).output@ =~= old(writer).output@
            + spec_member_breaks(*parent, i as int,
                old(writer).settings.breaks_before_function_def as nat)
            + repeat_seq(old(writer).indent_string@, old(writer).indent as nat)
            + render_mm_native_items(parent.children@[i as int], old(writer).source@, 0)
            + seq![';'] + nl());
    }
}

/// The buffer after a method member's children from `j` on.
pub open spec fn render_mm_method_items(
    n: Node, src: Seq<char>, st: Settings, indent: nat, istr: Seq<char>, j: int,
    buf: Seq<char>,
) -> Seq<char>
    decreases n.children@.len() - j,
{
    if j < 0 || j >= n.children@.len() {
        buf
    } else {
        let c = n.children@[j];
        match c.kind {
            Kind::KwPublic => render_mm_method_items(n, src, st, indent, istr, j + 1,
                buf + "public "@),
            Kind::KwStatic => render_mm_method_items(n, src, st, indent, istr, j + 1,
                buf + node_text(c, src) + sp()),
            Kind::Type => render_mm_method_items(n, src, st, indent, istr, j + 1,
                buf + render_type(n, j, src)),
            Kind::LParen | Kind::RParen | Kind::Symbol | Kind::Tilde =>
                render_mm_method_items(n, src, st, indent, istr, j + 1,
                    buf + node_text(c, src)),
            Kind::Equals => render_mm_method_items(n, src, st, indent, istr, j + 1,
                buf + " = "@),
            Kind::ArgumentDeclarations => render_mm_method_items(n, src, st, indent, istr,
                j + 1, buf + render_arg_decls_items(c, src, 0)),
            Kind::Block => {
                let b2 = if st.brace_wrapping_before_function {
                    render_block_items(c, src, st, indent, istr, true, 0, indent, buf + nl())
                } else {
                    render_block_items(c, src, st, indent, istr, false, 0, indent, buf + sp())
                };
                render_mm_method_items(n, src, st, indent, istr, j + 1, b2)
            },
            _ => render_mm_method_items(n, src, st, indent, istr, j + 1, buf),
        }
    }
}

/// The buffer after one method member: its blank lines, the current
/// indent, its pieces and a line break.
pub open spec fn render_methodmap_method(
    parent: Node, i: int, src: Seq<char>, st: Settings, indent: nat, istr: Seq<char>,
    buf: Seq<char>,
) -> Seq<char> {
    render_mm_method_items(parent.children@[i], src, st, indent, istr, 0,
        buf + spec_member_breaks(parent, i, st.breaks_before_function_def as nat)
            + repeat_seq(istr, indent)) + nl()
}

/// Writes a method member: like a native but with a body block governed
/// by the function brace-wrapping setting.
pub fn write_methodmap_method(parent: &Node, i: usize, writer: &mut Writer)
    requires
        i < parent.children@.len(),
        node_wf(parent.children@[i as int], old(writer).source@.len()),
    ensures
        final(writer).output@ == render_methodmap_method(*parent, i as int,
            old(writer).source@, old(writer).settings, old(writer).indent as nat,
            old(writer).indent_string@, old(writer).output@),
        writer_core(*final(writer)) == writer_core(*old(writer)),
        final(writer).indent == old(writer).indent,
{
    member_breaks(parent, i, writer);
    writer.write_indent();
    let node = &parent.children[i];
    let ghost src = old(writer).source@;
    let ghost st = old(writer).settings;
    let ghost istr = old(writer).indent_string@;
    let ghost indent0 = old(writer).indent as nat;
    let ghost full = render_mm_method_items(parent.children@[i as int], src, st, indent0,
        istr, 0, writer.output@);
    let mut j: usize = 0;
    while j < node.children.len()
        invariant
            j <= node.children@.len(),
            i < parent.children@.len(),
            *node == parent.children@[i as int],
            node_wf(*node, writer.source@.len()),
            writer.source@ == src,
            writer.settings == st,
            writer.indent_string@ == istr,
            writer.indent as nat == indent0,
            render_mm_method_items(*node, src, st, indent0, istr, j as int, writer.output@)
                == full,
            writer_core(*writer) == writer_core(*old(writer)),
        decreases node.children@.len() - j,
    {
        let ghost pre = writer.output@;
        let kind = node.children[j].kind;
        match kind {
            Kind::KwPublic => writer.push_str("public "),
            Kind::KwStatic => {
                write_node(&node.children[j], writer);
                writer.push(' ');
                proof {
                    assert(writer.output@ =~= pre
                        + node_text(node.children@[j as int], src) + sp());
                }
            },
            Kind::Type => write_type(node, j, writer),
            Kind::LParen | Kind::RParen | Kind::Symbol | Kind::Tilde => {
                write_node(&node.children[j], writer);
            },
            Kind::Equals => writer.push_str(" = "),
            Kind::ArgumentDeclarations => write_argument_declarations(node, j, writer),
            Kind::Block => {
                if writer.settings.brace_wrapping_before_function {
                    writer.breakl();
                    write_block(node, j, writer, true);
                } else {
                    writer.push(' ');
                    write_block(node, j, writer, false);
                }
            },
            _ => {},
        }
        proof {
            assert(render_mm_method_items(*node, src, st, indent0, istr, j + 1,
                writer.output@) == full);
        }
        j = j + 1;
    }
    writer.breakl();
    proof {
        assert(final(writer).output@ =~= render_methodmap_method(*parent, i as int,
            old(writer).source@, old(writer).settings, old(writer).indent as nat,
            old(writer).indent_string@, old(writer).output@));
    }
}

/// Writes a property member: `property type name { … }` with the
/// property brace-wrapping setting.
pub fn write_methodmap_property(parent: &Node, i: usize, writer: &mut Writer)
    requires
        i < parent.children@.len(),
        node_wf(parent.children@[i as int], old(writer).source@.len()),
    ensures
        final(writer).output@ == render_methodmap_property(*parent, i as int,
            old(writer).source@, old(writer).settings, old(writer).indent as nat,
            old(writer).indent_string@, old(writer).output@),
        writer_core(*final(writer)) == writer_core(*old(writer)),
        final(writer).indent == old(writer).indent,
{
    member_breaks(parent, i, writer);
    writer.write_indent();
    let node = &parent.children[i];
    let entry_indent: usize = writer.indent;
    let ghost src = old(writer).source@;
    let ghost st = old(writer).settings;
    let ghost istr = old(writer).indent_string@;
    let ghost full = render_mm_property_items(parent.children@[i as int], src, st,
        entry_indent as nat, istr, 0, entry_indent as nat, writer.output@);
    let mut j: usize = 0;
    while j < node.children.len()
        invariant
            j <= node.children@.len(),
            i < parent.children@.len(),
            *node == parent.children@[i as int],
            node_wf(*node, writer.source@.len()),
            writer.source@ == src,
            writer.settings == st,
            writer.indent_string@ == istr,
            render_mm_property_items(*node, src, st, entry_indent as nat, istr, j as int,
                writer.indent as nat, writer.output@) == full,
            writer_core(*writer) == writer_core(*old(writer)),
        decreases node.children@.len() - j,
    {
        let ghost pre = writer.output@;
        let kind = node.children[j].kind;
        match kind {
            Kind::KwProperty => {
                write_node(&node.children[j], writer);
                writer.push(' ');
                proof {
                    assert(writer.output@ =~= pre
                        + node_text(node.children@[j as int], src) + sp());
                }
            },
            Kind::Type => write_type(node, j, writer),
            Kind::LParen | Kind::RParen | Kind::Symbol | Kind::Tilde => {
                write_node(&node.children[j], writer);
            },
            Kind::LBrace => {
                if writer.settings.brace_wrapping_before_methodmap_property {
                    writer.breakl();
                } else {
                    writer.push(' ');
                }
                writer.push_str("{\n");
                writer.indent_inc();
            },
            Kind::RBrace => {
                writer.push('}');
                writer.indent = entry_indent;
            },
            Kind::Equals => writer.push_str(" = "),
            Kind::ArgumentDeclarations => write_argument_declarations(node, j, writer),
            Kind::MethodmapPropertyAlias => write_methodmap_property_alias(node, j, writer),
            Kind::MethodmapPropertyMethod | Kind::MethodmapPropertyNative => {
                write_methodmap_property_method(node, j, writer);
            },
            Kind::Semicolon => {},
            _ => {},
        }
        proof {
            assert(render_mm_property_items(*node, src, st, entry_indent as nat, istr,
                j + 1, writer.indent as nat, writer.output@) == full);
        }
        j = j + 1;
    }
    writer.breakl();
    writer.indent = entry_indent;
    proof {
        assert(final(writer).output@ =~= render_methodmap_property(*parent, i as int,
            old(writer).source@, old(writer).settings, old(writer).indent as nat,
            old(writer).indent_string@, old(writer).output@));
    }
}

/// The rendering of a property alias's pieces./// The rendering of a property alias's pieces.
pub open spec fn render_mm_prop_alias_items(n: Node, src: Seq<char>, j: int) -> Seq<char>
    decreases n.children@.len() - j,
{
    if j < 0 || j >= n.children@.len() {
        Seq::empty()
    } else {
        let c = n.children@[j];
        let piece = match c.kind {
            Kind::KwPublic => "public "@,
            Kind::MethodmapPropertyGetter => "get()"@,
            Kind::Symbol => node_text(c, src),
            Kind::Equals => " = "@,
            _ => Seq::empty(),
        };
        piece + render_mm_prop_alias_items(n, src, j + 1)
    }
}

/// Writes a property alias: `public get() = …;`.
pub fn write_methodmap_property_alias(parent: &Node, i: usize, writer: &mut Writer)
    requires
        i < parent.children@.len(),
        node_wf(parent.children@[i as int], old(writer).source@.len()),
    ensures
        final(writer).output@ == old(writer).output@
            + spec_member_breaks(*parent, i as int,
                old(writer).settings.breaks_before_function_def as nat)
            + repeat_seq(old(writer).indent_string@, old(writer).indent as nat)
            + render_mm_prop_alias_items(
                parent.children@[i as int], old(writer).source@, 0)
            + seq![';'] + nl(),
        writer_core(*final(writer)) == writer_core(*old(writer)),
        final(writer).indent == old(writer).indent,
{
    member_breaks(parent, i, writer);
    writer.write_indent();
    let node = &parent.children[i];
    let ghost src = old(writer).source@;
    let ghost base = writer.output@;
    let ghost full = render_mm_prop_alias_items(parent.children@[i as int], src, 0);
    let mut j: usize = 0;
    while j < node.children.len()
        invariant
            j <= node.children@.len(),
            i < parent.children@.len(),
            *node == parent.children@[i as int],
            node_wf(*node, writer.source@.len()),
            writer.source@ == src,
            writer.output@ + render_mm_prop_alias_items(*node, src, j as int)
                == base + full,
            writer_core(*writer) == writer_core(*old(writer)),
            writer.indent == old(writer).indent,
        decreases node.children@.len() - j,
    {
        let kind = node.children[j].kind;
        match kind {
            Kind::KwPublic => writer.push_str("public "),
            Kind::MethodmapPropertyGetter => writer.push_str("get()"),
            Kind::Symbol => write_node(&node.children[j], writer),
            Kind::Equals => writer.push_str(" = "),
            Kind::Semicolon => {},
            _ => {},
        }
        proof {
            assert(writer.output@ + render_mm_prop_alias_items(*node, src, j + 1)
                =~= base + full);
        }
        j = j + 1;
    }
    writer.push(';');
    writer.breakl();
    proof {
        assert(final(writer).output@ =~= old(writer).output@
            + spec_member_breaks(*parent, i as int,
                old(writer).settings.breaks_before_function_def as nat)
            + repeat_seq(old(writer).indent_string@, old(writer).indent as nat)
            + render_mm_prop_alias_items(
                parent.children@[i as int], old(writer).source@, 0)
            + seq![';'] + nl());
    }
}

/// The buffer after a property getter or setter's children from `j` on.
pub open spec fn render_mm_prop_method_items(
    n: Node, src: Seq<char>, st: Settings, indent: nat, istr: Seq<char>, j: int,
    buf: Seq<char>,
) -> Seq<char>
    decreases n.children@.len() - j,
{
    if j < 0 || j >= n.children@.len() {
        buf
    } else {
        let c = n.children@[j];
        match c.kind {
            Kind::KwPublic => render_mm_prop_method_items(n, src, st, indent, istr, j + 1,
                buf + "public "@),
            Kind::KwNative => render_mm_prop_method_items(n, src, st, indent, istr, j + 1,
                buf + node_text(c, src) + sp()),
            Kind::MethodmapPropertyGetter => render_mm_prop_method_items(n, src, st, indent,
                istr, j + 1, buf + "get()"@),
            Kind::MethodmapPropertySetter => render_mm_prop_method_items(n, src, st, indent,
                istr, j + 1, buf + render_mm_setter_items(c, src, 0)),
            Kind::Symbol => render_mm_prop_method_items(n, src, st, indent, istr, j + 1,
                buf + node_text(c, src)),
            Kind::Equals => render_mm_prop_method_items(n, src, st, indent, istr, j + 1,
                buf + " = "@),
            Kind::Block => {
                let b2 = if st.brace_wrapping_before_function {
                    render_block_items(c, src, st, indent, istr, true, 0, indent, buf + nl())
                } else {
                    render_block_items(c, src, st, indent, istr, false, 0, indent, buf + sp())
                };
                render_mm_prop_method_items(n, src, st, indent, istr, j + 1, b2)
            },
            Kind::Semicolon => render_mm_prop_method_items(n, src, st, indent, istr, j + 1,
                buf + seq![';']),
            _ => render_mm_prop_method_items(n, src, st, indent, istr, j + 1, buf),
        }
    }
}

/// The buffer after one property getter or setter: its blank lines, the
/// current indent, its pieces and a line break.
pub open spec fn render_methodmap_property_method(
    parent: Node, i: int, src: Seq<char>, st: Settings, indent: nat, istr: Seq<char>,
    buf: Seq<char>,
) -> Seq<char> {
    render_mm_prop_method_items(parent.children@[i], src, st, indent, istr, 0,
        buf + spec_member_breaks(parent, i, st.breaks_before_function_def as nat)
            + repeat_seq(istr, indent)) + nl()
}

/// Writes a property getter or setter, optionally `native` or with a
/// body block governed by the function brace-wrapping setting.
pub fn write_methodmap_property_method(parent: &Node, i: usize, writer: &mut Writer)
    requires
        i < parent.children@.len(),
        node_wf(parent.children@[i as int], old(writer).source@.len()),
    ensures
        final(writer).output@ == render_methodmap_property_method(*parent, i as int,
            old(writer).source@, old(writer).settings, old(writer).indent as nat,
            old(writer).indent_string@, old(writer).output@),
        writer_core(*final(writer)) == writer_core(*old(writer)),
        final(writer).indent == old(writer).indent,
{
    member_breaks(parent, i, writer);
    writer.write_indent();
    let node = &parent.children[i];
    let ghost src = old(writer).source@;
    let ghost st = old(writer).settings;
    let ghost istr = old(writer).indent_string@;
    let ghost indent0 = old(writer).indent as nat;
    let ghost full = render_mm_prop_method_items(parent.children@[i as int], src, st,
        indent0, istr, 0, writer.output@);
    let mut j: usize = 0;
    while j < node.children.len()
        invariant
            j <= node.children@.len(),
            i < parent.children@.len(),
            *node == parent.children@[i as int],
            node_wf(*node, writer.source@.len()),
            writer.source@ == src,
            writer.settings == st,
            writer.indent_string@ == istr,
            writer.indent as nat == indent0,
            render_mm_prop_method_items(*node, src, st, indent0, istr, j as int,
                writer.output@) == full,
            writer_core(*writer) == writer_core(*old(writer)),
        decreases node.children@.len() - j,
    {
        let ghost pre = writer.output@;
        let kind = node.children[j].kind;
        match kind {
            Kind::KwPublic => writer.push_str("public "),
            Kind::KwNative => {
                write_node(&node.children[j], writer);
                writer.push(' ');
                proof {
                    assert(writer.output@ =~= pre
                        + node_text(node.children@[j as int], src) + sp());
                }
            },
            Kind::MethodmapPropertyGetter => writer.push_str("get()"),
            Kind::MethodmapPropertySetter => write_methodmap_property_setter(node, j, writer),
            Kind::Symbol => write_node(&node.children[j], writer),
            Kind::Equals => writer.push_str(" = "),
            Kind::Block => {
                if writer.settings.brace_wrapping_before_function {
                    writer.breakl();
                    write_block(node, j, writer, true);
                } else {
                    writer.push(' ');
                    write_block(node, j, writer, false);
                }
            },
            Kind::Semicolon => writer.push(';'),
            _ => {},
        }
        proof {
            assert(render_mm_prop_method_items(*node, src, st, indent0, istr, j + 1,
                writer.output@) == full);
        }
        j = j + 1;
    }
    writer.breakl();
    proof {
        assert(final(writer).output@ =~= render_methodmap_property_method(*parent, i as int,
            old(writer).source@, old(writer).settings, old(writer).indent as nat,
            old(writer).indent_string@, old(writer).output@));
    }
}

/// The rendering of a property setter's head: `set(type value)`.
pub open spec fn render_mm_setter_items(n: Node, src: Seq<char>, j: int) -> Seq<char>
    decreases n, 5int, n.children@.len() - j
        via render_mm_setter_items_dec
{
    if j < 0 || j >= n.children@.len() {
        Seq::empty()
    } else {
        let c = n.children@[j];
        let piece = match c.kind {
            Kind::KwSet => "set"@,
            Kind::Symbol | Kind::LParen | Kind::RParen => node_text(c, src),
            Kind::Type => render_type(n, j, src),
            Kind::ArgumentDeclarations => render_arg_decls_items(c, src, 0),
            Kind::ArgumentDeclaration =>
                crate::functions::render_arg_decl_items(c, src, 0),
            _ => Seq::empty(),
        };
        piece + render_mm_setter_items(n, src, j + 1)
    }
}

/// Writes a property setter's head: `set(type value)`.
pub fn write_methodmap_property_setter(parent: &Node, i: usize, writer: &mut Writer)
    requires
        i < parent.children@.len(),
        node_wf(parent.children@[i as int], old(writer).source@.len()),
    ensures
        final(writer).output@ == old(writer).output@
            + render_mm_setter_items(parent.children@[i as int], old(writer).source@, 0),
        writer_core(*final(writer)) == writer_core(*old(writer)),
        final(writer).indent == old(writer).indent,
{
    let node = &parent.children[i];
    let ghost src = old(writer).source@;
    let ghost base = old(writer).output@;
    let ghost full = render_mm_setter_items(parent.children@[i as int], src, 0);
    let mut j: usize = 0;
    while j < node.children.len()
        invariant
            j <= node.children@.len(),
            i < parent.children@.len(),
            *node == parent.children@[i as int],
            node_wf(*node, writer.source@.len()),
            writer.source@ == src,
            writer.output@ + render_mm_setter_items(*node, src, j as int) == base + full,
            writer_core(*writer) == writer_core(*old(writer)),
            writer.indent == old(writer).indent,
        decreases node.children@.len() - j,
    {
        let kind = node.children[j].kind;
        match kind {
            Kind::KwSet => writer.push_str("set"),
            Kind::Symbol | Kind::LParen | Kind::RParen => {
                write_node(&node.children[j], writer);
            },
            Kind::Type => write_type(node, j, writer),
            Kind::ArgumentDeclarations => {
                crate::functions::write_argument_declarations(node, j, writer);
            },
            Kind::ArgumentDeclaration => {
                crate::functions::write_argument_declaration(node, j, writer);
            },
            Kind::Semicolon => {},
            _ => {},
        }
        proof {
            assert(writer.output@ + render_mm_setter_items(*node, src, j + 1)
                =~= base + full);
        }
        j = j + 1;
    }
}

#[via_fn]
proof fn render_mm_native_items_dec(n: Node, src: Seq<char>, j: int) {
    if 0 <= j < n.children@.len() {
        lemma_child_decreases(n, j);
    }
}

#[via_fn]
proof fn render_mm_setter_items_dec(n: Node, src: Seq<char>, j: int) {
    if 0 <= j < n.children@.len() {
        lemma_child_decreases(n, j);
    }
}

#[via_fn]
proof fn render_methodmap_items_dec(
    n: Node, src: Seq<char>, st: Settings, entry: nat, istr: Seq<char>, j: int, ind: nat,
    buf: Seq<char>,
) {
    if 0 <= j < n.children@.len() {
        lemma_child_decreases(n, j);
    }
}

#[via_fn]
proof fn render_mm_property_items_dec(
    n: Node, src: Seq<char>, st: Settings, entry: nat, istr: Seq<char>, j: int, ind: nat,
    buf: Seq<char>,
) {
    if 0 <= j < n.children@.len() {
        lemma_child_decreases(n, j);
    }
}

} // verus!