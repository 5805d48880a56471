//! Unit tests over hand-built trees: the writer primitives, the break
//! decision, expression rendering and the width rule, exercised without a
//! parser.

use sp_format::expressions::write_expression;
use sp_format::formatter::{build_writer, format_tree};
use sp_format::node::{next_sibling_kind, node_len, FieldId, Kind, Node};
use sp_format::preproc::insert_break;
use sp_format::settings::{build_settings_from_args, Args, Settings};
use sp_format::variables::get_max_name_length;
use sp_format::writers::write_node_trimmed;

fn leaf(kind: Kind, field: Option<FieldId>, start: usize, end: usize, row: usize) -> Node {
    Node {
        kind,
        field,
        start,
        end,
        start_row: row,
        end_row: row,
        has_error: false,
        children: Vec::new(),
    }
}

fn chars_of(s: &str) -> Vec<char> {
    s.chars().collect()
}

fn text_of(v: &[char]) -> String {
    v.iter().collect()
}

#[test]
fn default_settings_match_the_canonical_style() {
    let s = Settings::default();
    assert_eq!(s.breaks_before_function_decl, 2);
    assert_eq!(s.breaks_before_function_def, 2);
    assert_eq!(s.breaks_before_enum, 2);
    assert_eq!(s.breaks_before_enum_struct, 2);
    assert_eq!(s.breaks_before_methodmap, 2);
    assert!(s.brace_wrapping_before_function);
    assert!(s.brace_wrapping_before_loop);
    assert!(s.brace_wrapping_before_condition);
    assert!(s.brace_wrapping_before_enum_struct);
    assert!(s.brace_wrapping_before_enum);
    assert!(s.brace_wrapping_before_typeset);
    assert!(s.brace_wrapping_before_funcenum);
    assert!(s.brace_wrapping_before_methodmap);
    assert!(s.brace_wrapping_before_methodmap_property);
}

#[test]
fn settings_are_copied_from_arguments() {
    let args = Args {
        file: String::from("plugin.sp"),
        breaks_before_function_decl: 1,
        breaks_before_function_def: 3,
        breaks_before_enum: 0,
        breaks_before_enum_struct: 4,
        breaks_before_methodmap: 5,
        brace_wrapping_before_function: false,
        brace_wrapping_before_loop: true,
        brace_wrapping_before_condition: false,
        brace_wrapping_before_enum_struct: true,
        brace_wrapping_before_enum: false,
        brace_wrapping_before_typeset: true,
        brace_wrapping_before_funcenum: false,
        brace_wrapping_before_methodmap: true,
        brace_wrapping_before_methodmap_property: false,
    };
    let s = build_settings_from_args(&args);
    assert_eq!(s.breaks_before_function_decl, 1);
    assert_eq!(s.breaks_before_function_def, 3);
    assert_eq!(s.breaks_before_enum, 0);
    assert_eq!(s.breaks_before_enum_struct, 4);
    assert_eq!(s.breaks_before_methodmap, 5);
    assert!(!s.brace_wrapping_before_function);
    assert!(s.brace_wrapping_before_loop);
    assert!(!s.brace_wrapping_before_condition);
}

#[test]
fn node_len_is_the_span_width() {
    let n = leaf(Kind::Symbol, None, 3, 10, 0);
    assert_eq!(node_len(&n), 7);
}

#[test]
fn sibling_lookup_sees_the_next_kind() {
    let parent = Node {
        kind: Kind::Other,
        field: None,
        start: 0,
        end: 2,
        start_row: 0,
        end_row: 0,
        has_error: false,
        children: vec![
            leaf(Kind::Symbol, None, 0, 1, 0),
            leaf(Kind::Comment, None, 1, 2, 0),
        ],
    };
    assert_eq!(next_sibling_kind(&parent, 0), Some(Kind::Comment));
    assert_eq!(next_sibling_kind(&parent, 1), None);
}

#[test]
fn binary_expression_gets_single_spaces() {
    let source = chars_of("a+b");
    let expr = Node {
        kind: Kind::BinaryExpression,
        field: None,
        start: 0,
        end: 3,
        start_row: 0,
        end_row: 0,
        has_error: false,
        children: vec![
            leaf(Kind::Symbol, Some(FieldId::Left), 0, 1, 0),
            leaf(Kind::Other, Some(FieldId::Operator), 1, 2, 0),
            leaf(Kind::Symbol, Some(FieldId::Right), 2, 3, 0),
        ],
    };
    let mut w = build_writer(source, &Settings::default());
    write_expression(&expr, &mut w);
    assert_eq!(text_of(&w.output), "a + b");
}

#[test]
fn ternary_expression_spacing() {
    let source = chars_of("c?x:y");
    let expr = Node {
        kind: Kind::TernaryExpression,
        field: None,
        start: 0,
        end: 5,
        start_row: 0,
        end_row: 0,
        has_error: false,
        children: vec![
            leaf(Kind::Symbol, Some(FieldId::Condition), 0, 1, 0),
            leaf(Kind::Other, None, 1, 2, 0),
            leaf(Kind::Symbol, Some(FieldId::Consequence), 2, 3, 0),
            leaf(Kind::Other, None, 3, 4, 0),
            leaf(Kind::Symbol, Some(FieldId::Alternative), 4, 5, 0),
        ],
    };
    let mut w = build_writer(source, &Settings::default());
    write_expression(&expr, &mut w);
    assert_eq!(text_of(&w.output), "c ? x : y");
}

#[test]
fn unknown_expression_kind_is_copied_verbatim() {
    let source = chars_of("??mystery??");
    let expr = leaf(Kind::Other, None, 0, 11, 0);
    let mut w = build_writer(source, &Settings::default());
    write_expression(&expr, &mut w);
    assert_eq!(text_of(&w.output), "??mystery??");
}

#[test]
fn trimmed_node_text_loses_trailing_whitespace_only() {
    let source = chars_of("// note \t");
    let n = leaf(Kind::Comment, None, 0, 9, 0);
    let mut w = build_writer(source, &Settings::default());
    write_node_trimmed(&n, &mut w);
    assert_eq!(text_of(&w.output), "// note");
}

#[test]
fn break_decision_collapses_large_gaps() {
    let parent = Node {
        kind: Kind::Other,
        field: None,
        start: 0,
        end: 2,
        start_row: 0,
        end_row: 4,
        has_error: false,
        children: vec![
            leaf(Kind::Symbol, None, 0, 1, 0),
            leaf(Kind::Symbol, None, 1, 2, 4),
        ],
    };
    let mut w = build_writer(Vec::new(), &Settings::default());
    insert_break(&parent, 0, &mut w);
    assert_eq!(text_of(&w.output), "\n\n");
}

#[test]
fn break_decision_keeps_inline_comment_on_the_same_row() {
    let parent = Node {
        kind: Kind::Other,
        field: None,
        start: 0,
        end: 2,
        start_row: 0,
        end_row: 0,
        has_error: false,
        children: vec![
            leaf(Kind::Symbol, None, 0, 1, 0),
            leaf(Kind::Comment, None, 1, 2, 0),
        ],
    };
    let mut w = build_writer(Vec::new(), &Settings::default());
    insert_break(&parent, 0, &mut w);
    assert_eq!(text_of(&w.output), "");
}

#[test]
fn break_decision_emits_one_newline_for_adjacent_siblings() {
    let parent = Node {
        kind: Kind::Other,
        field: None,
        start: 0,
        end: 2,
        start_row: 0,
        end_row: 0,
        has_error: false,
        children: vec![
            leaf(Kind::Symbol, None, 0, 1, 0),
            leaf(Kind::Symbol, None, 1, 2, 1),
        ],
    };
    let mut w = build_writer(Vec::new(), &Settings::default());
    insert_break(&parent, 0, &mut w);
    assert_eq!(text_of(&w.output), "\n");
}

fn declaration_with_name(start: usize, end: usize, name_start: usize, name_end: usize) -> Node {
    Node {
        kind: Kind::VariableDeclaration,
        field: None,
        start,
        end,
        start_row: 0,
        end_row: 0,
        has_error: false,
        children: vec![leaf(Kind::Symbol, Some(FieldId::Name), name_start, name_end, 0)],
    }
}

fn wide_source() -> Vec<char> {
    let mut v = Vec::new();
    let mut k = 0;
    while k < 200 {
        v.push('x');
        k += 1;
    }
    v
}

#[test]
fn narrow_declaration_list_does_not_break() {
    let list = Node {
        kind: Kind::GlobalVariableDeclaration,
        field: None,
        start: 0,
        end: 20,
        start_row: 0,
        end_row: 0,
        has_error: false,
        children: vec![
            declaration_with_name(4, 11, 4, 9),
            leaf(Kind::Comma, None, 11, 12, 0),
            declaration_with_name(13, 20, 13, 17),
        ],
    };
    assert_eq!(get_max_name_length(&list, &wide_source(), &Settings::default()), 0);
}

#[test]
fn wide_declaration_list_aligns_at_the_longest_name() {
    let list = Node {
        kind: Kind::GlobalVariableDeclaration,
        field: None,
        start: 0,
        end: 110,
        start_row: 0,
        end_row: 0,
        has_error: false,
        children: vec![
            declaration_with_name(4, 54, 4, 54),
            leaf(Kind::Comma, None, 54, 55, 0),
            declaration_with_name(56, 101, 56, 101),
        ],
    };
    // The names render 50 and 45 characters wide; with one `, ` the
    // single-line estimate is 97, past the threshold, and the widest
    // name is 50 characters.
    assert_eq!(get_max_name_length(&list, &wide_source(), &Settings::default()), 50);
}

#[test]
fn comment_in_declaration_list_forces_the_break() {
    let list = Node {
        kind: Kind::GlobalVariableDeclaration,
        field: None,
        start: 0,
        end: 30,
        start_row: 0,
        end_row: 0,
        has_error: false,
        children: vec![
            declaration_with_name(4, 11, 4, 9),
            leaf(Kind::Comment, None, 12, 20, 0),
            declaration_with_name(21, 28, 21, 26),
        ],
    };
    assert_eq!(get_max_name_length(&list, &wide_source(), &Settings::default()), 5);
}

#[test]
fn error_tree_formats_to_nothing() {
    let root = Node {
        kind: Kind::Other,
        field: None,
        start: 0,
        end: 3,
        start_row: 0,
        end_row: 0,
        has_error: true,
        children: vec![leaf(Kind::Symbol, None, 0, 3, 0)],
    };
    let out = format_tree(&root, chars_of("abc"), &Settings::default());
    assert_eq!(out, Vec::<char>::new());
}

#[test]
fn error_free_tree_copies_unknown_top_level_nodes() {
    let root = Node {
        kind: Kind::Other,
        field: None,
        start: 0,
        end: 3,
        start_row: 0,
        end_row: 0,
        has_error: false,
        children: vec![leaf(Kind::Other, None, 0, 3, 0)],
    };
    let out = format_tree(&root, chars_of("abc"), &Settings::default());
    assert_eq!(text_of(&out), "abc");
}
