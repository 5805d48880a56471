//! The formatter driver.
//!
//! One call builds a writer over the source, dispatches on the root's
//! children and returns the buffer.  A tree whose root carries the
//! parser's error flag is not formatted: the result is empty, and the
//! caller is expected to leave the file unmodified.

use vstd::prelude::*;

use crate::node::{node_wf, Node};
use crate::settings::Settings;
use crate::source_file::{render_source_items, write_source_file};
use crate::writers::Writer;

verus! {

/// The whole rendering of an error-free source file: every child of the
/// root dispatched to its writer, starting from an empty buffer at
/// indent depth zero with a single tab as the indent unit.
pub open spec fn spec_render_source_file(root: Node, src: Seq<char>, st: Settings)
    -> Seq<char> {
    render_source_items(root, src, st, 0, seq!['\t'], 0, Seq::empty())
}

/// Builds the writer for one format call: an empty output buffer, the
/// source, indent depth zero with a single tab as the indent unit, and
/// the settings.
pub fn build_writer(source: Vec<char>, settings: &Settings) -> (w: Writer)
    ensures
        w.output@ == Seq::<char>::empty(),
        w.source@ == source@,
        w.indent == 0,
        w.indent_string@ == seq!['\t'],
        w.skip == 0,
        w.settings == *settings,
{
    let mut indent_string: Vec<char> = Vec::new();
    indent_string.push('\t');
    proof {
        assert(indent_string@ =~= seq!['\t']);
    }
    Writer {
        output: Vec::new(),
        source,
        indent: 0,
        indent_string,
        skip: 0,
        settings: *settings,
    }
}

/// Formats a parsed source file.  If the root carries the parser's error
/// flag the result is the empty string; otherwise it is exactly the
/// canonical rendering of the tree, built by one walk over the root's
/// children.
pub fn format_tree(root: &Node, source: Vec<char>, settings: &Settings) -> (r: Vec<char>)
    requires
        node_wf(*root, source@.len()),
    ensures
        root.has_error ==> r@ == Seq::<char>::empty(),
        !root.has_error ==> r@ == spec_render_source_file(*root, source@, *settings),
{
    if root.has_error {
        return Vec::new();
    }
    let mut writer = build_writer(source, settings);
    write_source_file(root, &mut writer);
    writer.output
}

} // verus!
