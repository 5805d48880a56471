//! The top-level dispatcher over the children of the root node.

use vstd::prelude::*;

use crate::alias::{
    render_alias_assign_items, render_alias_decl_items, spec_alias_breaks,
    write_alias_assignment, write_alias_declaration,
};
use crate::assertions::{render_assertion_items, write_assertion};
use crate::enum_structs::{render_enum_struct_items, write_enum_struct};
use crate::enums::{render_enum_items, write_enum};
use crate::functags::{
    render_functag_items, render_funcenum_items, write_funcenum, write_functag,
};
use crate::functions::{
    render_fn_def_items, render_function_declaration, spec_decl_breaks,
    write_function_declaration, write_function_definition,
};
use crate::hardcoded_symbols::{render_hardcoded_items, write_hardcoded_symbol};
use crate::methodmaps::{render_methodmap_items, spec_methodmap_breaks, write_methodmap};
use crate::node::{node_text, node_wf, Kind, Node};
use crate::old_variables::{
    render_old_global_items, spec_should_break_old, write_old_global_variable_declaration,
};
use crate::preproc::{
    render_define_items, render_generic_items, render_include_items, render_preproc_symbol,
    render_undefine_items, spec_break_of, write_preproc_define, write_preproc_generic,
    write_preproc_include, write_preproc_symbol, write_preproc_undefine,
};
use crate::settings::Settings;
use crate::structs::{
    render_struct_decl_items, render_struct_items, write_struct, write_struct_declaration,
};
use crate::typedefs::{
    render_typedef_items, render_typeset_items, write_typedef, write_typeset,
};
use crate::variables::{
    cap_usize, render_global_var_items, spec_max_name_length,
    write_global_variable_declaration,
};
use crate::writers::{nl, spec_render_comment, write_comment, write_node, Writer};

verus! {

/// The buffer after the root's children from `j` on, each dispatched to
/// its writer; a kind without a writer of its own is copied verbatim.
pub open spec fn render_source_items(
    root: Node, src: Seq<char>, st: Settings, indent: nat, istr: Seq<char>, j: int,
    buf: Seq<char>,
) -> Seq<char>
    decreases root, 10int, root.children@.len() - j
        via render_source_items_dec
{
    if j < 0 || j >= root.children@.len() {
        buf
    } else {
        let c = root.children@[j];
        let b2 = match c.kind {
            Kind::Assertion => buf + render_assertion_items(c, src, indent, istr, 0)
                + seq![';'] + spec_break_of(root, j),
            Kind::FunctionDeclaration =>
                render_function_declaration(root, j, src, st, indent, istr, buf),
            Kind::FunctionDefinition => buf
                + spec_decl_breaks(root, j, st.breaks_before_function_def as nat)
                + render_fn_def_items(c, src, 0) + nl(),
            Kind::Enum => render_enum_items(c, src, st, indent, istr, 0,
                buf + spec_decl_breaks(root, j, st.breaks_before_enum as nat)) + nl(),
            Kind::EnumStruct => render_enum_struct_items(c, src, st, indent, istr, 0, indent,
                buf + spec_decl_breaks(root, j, st.breaks_before_enum_struct as nat)) + nl(),
            Kind::Typedef => buf
                + spec_decl_breaks(root, j, st.breaks_before_function_decl as nat)
                + render_typedef_items(c, src, indent, istr, 0) + seq![';'] + nl(),
            Kind::Typeset => render_typeset_items(c, src, st, indent, istr, 0, indent,
                buf + spec_decl_breaks(root, j, st.breaks_before_function_decl as nat))
                + seq![';'] + nl(),
            Kind::Functag => buf
                + spec_decl_breaks(root, j, st.breaks_before_function_decl as nat)
                + render_functag_items(c, src, 0) + seq![';'] + nl(),
            Kind::Funcenum => render_funcenum_items(c, src, st, indent, istr, 0, indent,
                buf + spec_decl_breaks(root, j, st.breaks_before_function_decl as nat))
                + seq![';'] + nl(),
            Kind::Methodmap => render_methodmap_items(c, src, st, indent, istr, 0, indent,
                buf + spec_methodmap_breaks(root, j, st.breaks_before_methodmap as nat))
                + seq![';'] + nl(),
            Kind::Struct => render_struct_items(c, src, indent, istr, 0, indent, buf),
            Kind::StructDeclaration =>
                render_struct_decl_items(c, src, indent, istr, 0, buf),
            Kind::GlobalVariableDeclaration => buf
                + render_global_var_items(c, src, indent, istr,
                    cap_usize(spec_max_name_length(c, src)), 0, 1)
                + seq![';'] + spec_break_of(root, j),
            Kind::OldGlobalVariableDeclaration => buf
                + render_old_global_items(c, src, indent, istr,
                    spec_should_break_old(c, src), 0, 0)
                + seq![';'] + spec_break_of(root, j),
            Kind::PreprocInclude | Kind::PreprocTryinclude => buf
                + render_include_items(c, src, 0) + spec_break_of(root, j),
            Kind::PreprocMacro | Kind::PreprocDefine => buf
                + render_define_items(c, src, 0) + spec_break_of(root, j),
            Kind::PreprocUndefine => buf + render_undefine_items(c, src, 0)
                + spec_break_of(root, j),
            Kind::HardcodedSymbol => buf + render_hardcoded_items(c, src, 0)
                + seq![';'] + spec_break_of(root, j),
            Kind::AliasDeclaration => render_alias_decl_items(c, src, st, indent, istr, 0,
                buf + spec_alias_breaks(root, j, Kind::AliasDeclaration,
                    st.breaks_before_function_decl as nat)) + nl(),
            Kind::AliasAssignment => render_alias_assign_items(c, src, st, indent, istr, 0,
                buf + spec_alias_breaks(root, j, Kind::AliasAssignment,
                    st.breaks_before_function_def as nat)) + nl(),
            Kind::Comment => buf + spec_render_comment(root, j, src, indent, istr),
            Kind::PreprocEndif | Kind::PreprocElse | Kind::PreprocEndinput => buf
                + render_preproc_symbol(c, src) + spec_break_of(root, j),
            Kind::PreprocIf | Kind::PreprocElseif | Kind::PreprocPragma
            | Kind::PreprocError | Kind::PreprocWarning | Kind::PreprocAssert => buf
                + render_generic_items(c, src, indent, istr, 0) + spec_break_of(root, j),
            _ => buf + node_text(c, src),
        };
        render_source_items(root, src, st, indent, istr, j + 1, b2)
    }
}

/// Walks the root node's children in order and dispatches each to its
/// writer.  While the skip counter is positive, the next sibling is
/// skipped instead (a previous handler consumed it); the counter starts
/// at zero and no handler raises it, so a fresh writer renders every
/// child.
pub fn write_source_file(root_node: &Node, writer: &mut Writer)
    requires
        node_wf(*root_node, old(writer).source@.len()),
    ensures
        old(writer).skip == 0 ==> final(writer).output@
            == render_source_items(*root_node, old(writer).source@, old(writer).settings,
                old(writer).indent as nat, old(writer).indent_string@, 0,
                old(writer).output@),
        old(writer).skip == 0 ==> final(writer).skip == 0,
        final(writer).source@ == old(writer).source@,
        final(writer).settings == old(writer).settings,
        final(writer).indent_string@ == old(writer).indent_string@,
        final(writer).indent == old(writer).indent,
        final(writer).skip <= old(writer).skip,
{
    let ghost src = old(writer).source@;
    let ghost st = old(writer).settings;
    let ghost istr = old(writer).indent_string@;
    let ghost indent0 = old(writer).indent as nat;
    let ghost full = render_source_items(*root_node, src, st, indent0, istr, 0,
        old(writer).output@);
    let mut i: usize = 0;
    while i < root_node.children.len()
        invariant
            i <= root_node.children@.len(),
            node_wf(*root_node, writer.source@.len()),
            writer.source@ == src,
            writer.settings == st,
            writer.indent_string@ == istr,
            writer.indent as nat == indent0,
            writer.skip <= old(writer).skip,
            old(writer).skip == 0 ==> writer.skip == 0,
            old(writer).skip == 0 ==> render_source_items(*root_node, src, st, indent0,
                istr, i as int, writer.output@) == full,
        decreases root_node.children@.len() - i,
    {
        if writer.skip > 0 {
            writer.skip = writer.skip - 1;
            i = i + 1;
            continue;
        }
        let kind = root_node.children[i].kind;
        match kind {
            Kind::Assertion => write_assertion(root_node, i, writer),
            Kind::FunctionDeclaration => write_function_declaration(root_node, i, writer),
            Kind::FunctionDefinition => write_function_definition(root_node, i, writer),
            Kind::Enum => write_enum(root_node, i, writer),
            Kind::EnumStruct => write_enum_struct(root_node, i, writer),
            Kind::Typedef => write_typedef(root_node, i, writer),
            Kind::Typeset => write_typeset(root_node, i, writer),
            Kind::Functag => write_functag(root_node, i, writer),
            Kind::Funcenum => write_funcenum(root_node, i, writer),
            Kind::Methodmap => write_methodmap(root_node, i, writer),
            Kind::Struct => write_struct(root_node, i, writer),
            Kind::StructDeclaration => write_struct_declaration(root_node, i, writer),
            Kind::GlobalVariableDeclaration => {
                write_global_variable_declaration(root_node, i, writer);
            },
            Kind::OldGlobalVariableDeclaration => {
                write_old_global_variable_declaration(root_node, i, writer);
            },
            Kind::PreprocInclude | Kind::PreprocTryinclude => {
                write_preproc_include(root_node, i, writer);
            },
            Kind::PreprocMacro | Kind::PreprocDefine => {
                write_preproc_define(root_node, i, writer);
            },
            Kind::PreprocUndefine => write_preproc_undefine(root_node, i, writer),
            Kind::HardcodedSymbol => write_hardcoded_symbol(root_node, i, writer),
            Kind::AliasDeclaration => write_alias_declaration(root_node, i, writer),
            Kind::AliasAssignment => write_alias_assignment(root_node, i, writer),
            Kind::Comment => write_comment(root_node, i, writer),
            Kind::PreprocEndif | Kind::PreprocElse | Kind::PreprocEndinput => {
                write_preproc_symbol(root_node, i, writer);
            },
            Kind::PreprocIf | Kind::PreprocElseif | Kind::PreprocPragma
            | Kind::PreprocError | Kind::PreprocWarning | Kind::PreprocAssert => {
                write_preproc_generic(root_node, i, writer);
            },
            _ => {
                proof {
                    crate::node::lemma_child_wf(
                        *root_node, writer.source@.len(), i as int);
                }
                write_node(&root_node.children[i], writer);
            },
        }
        proof {
            if old(writer).skip == 0 {
                assert(render_source_items(*root_node, src, st, indent0, istr, i + 1,
                    writer.output@) == full);
            }
        }
        i = i + 1;
    }
}

#[via_fn]
proof fn render_source_items_dec(
    root: Node, src: Seq<char>, st: Settings, indent: nat, istr: Seq<char>, j: int,
    buf: Seq<char>,
) {
    if 0 <= j < root.children@.len() {
        crate::node::lemma_child_decreases(root, j);
    }
}

} // verus!
