//! End-to-end scenarios: parse real SourcePawn with the tree-sitter
//! grammar, hand the tree to the library as plain values, and compare the
//! formatted output.

use sp_format::node::{FieldId, Kind, Node};
use sp_format::settings::Settings;

fn map_field(name: &str) -> Option<FieldId> {
    Some(match name {
        "left" => FieldId::Left,
        "right" => FieldId::Right,
        "operator" => FieldId::Operator,
        "argument" => FieldId::Argument,
        "condition" => FieldId::Condition,
        "consequence" => FieldId::Consequence,
        "alternative" => FieldId::Alternative,
        "scope" => FieldId::Scope,
        "field" => FieldId::Field,
        "target" => FieldId::Target,
        "array" => FieldId::Array,
        "index" => FieldId::Index,
        "function" => FieldId::Function,
        "arguments" => FieldId::Arguments,
        "class" => FieldId::Class,
        "name" => FieldId::Name,
        "value" => FieldId::Value,
        "type" => FieldId::Type,
        "expression" => FieldId::Expression,
        "initialValue" => FieldId::InitialValue,
        _ => return None,
    })
}

fn map_kind(kind: &str, parent: &str) -> Kind {
    match kind {
        "comment" => Kind::Comment,
        "identifier" => Kind::Symbol,
        // In this grammar the node with a body is called a definition and
        // the forward/native form a declaration; the formatter uses the
        // opposite convention.
        "function_definition" => Kind::FunctionDeclaration,
        "function_declaration" => Kind::FunctionDefinition,
        "function_declaration_kind" => Kind::FunctionDefinitionType,
        "visibility" => {
            if parent.contains("variable") {
                Kind::VariableVisibility
            } else {
                Kind::FunctionVisibility
            }
        }
        "parameter_declarations" => Kind::ArgumentDeclarations,
        "parameter_declaration" => Kind::ArgumentDeclaration,
        "rest_parameter" => Kind::RestArgument,
        "call_expression" => Kind::FunctionCall,
        "call_arguments" => Kind::FunctionCallArguments,
        "new_expression" => Kind::NewInstance,
        "for_statement" => Kind::ForLoop,
        "while_statement" => Kind::WhileLoop,
        "do_while_statement" => Kind::DoWhileLoop,
        "break_statement" => Kind::BreakStatement,
        "continue_statement" => Kind::ContinueStatement,
        "condition_statement" => Kind::ConditionStatement,
        "switch_statement" => Kind::SwitchStatement,
        "switch_case" => Kind::SwitchCase,
        "return_statement" => Kind::ReturnStatement,
        "delete_statement" => Kind::DeleteStatement,
        "expression_statement" => Kind::ExpressionStatement,
        "block" => Kind::Block,
        "variable_declaration_statement" => Kind::VariableDeclarationStatement,
        "old_variable_declaration_statement" => Kind::OldVariableDeclarationStatement,
        "old_for_loop_variable_declaration_statement" => Kind::OldVariableDeclarationStatement,
        "variable_declaration" => Kind::VariableDeclaration,
        "old_variable_declaration" => Kind::OldVariableDeclaration,
        "global_variable_declaration" => Kind::GlobalVariableDeclaration,
        "old_global_variable_declaration" => Kind::OldGlobalVariableDeclaration,
        "variable_storage_class" => Kind::VariableStorageClass,
        "enum" => Kind::Enum,
        "enum_entries" => Kind::EnumEntries,
        "enum_entry" => Kind::EnumEntry,
        "enum_struct" => Kind::EnumStruct,
        "enum_struct_field" => Kind::EnumStructField,
        "enum_struct_method" => Kind::EnumStructMethod,
        "typedef" => Kind::Typedef,
        "typedef_expression" => Kind::TypedefExpression,
        "typeset" => Kind::Typeset,
        "functag" => Kind::Functag,
        "funcenum" => Kind::Funcenum,
        "funcenum_member" => Kind::FuncenumMember,
        "methodmap" => Kind::Methodmap,
        "methodmap_alias" => Kind::MethodmapAlias,
        "methodmap_native" => Kind::MethodmapNative,
        "methodmap_native_constructor" => Kind::MethodmapNativeConstructor,
        "methodmap_native_destructor" => Kind::MethodmapNativeDestructor,
        "methodmap_method" => Kind::MethodmapMethod,
        "methodmap_method_constructor" => Kind::MethodmapMethodConstructor,
        "methodmap_method_destructor" => Kind::MethodmapMethodDestructor,
        "methodmap_property" => Kind::MethodmapProperty,
        "methodmap_property_alias" => Kind::MethodmapPropertyAlias,
        "methodmap_property_native" => Kind::MethodmapPropertyNative,
        "methodmap_property_method" => Kind::MethodmapPropertyMethod,
        "methodmap_property_getter" => Kind::MethodmapPropertyGetter,
        "methodmap_property_setter" => Kind::MethodmapPropertySetter,
        "struct" => Kind::Struct,
        "struct_declaration" => Kind::StructDeclaration,
        "struct_constructor" => Kind::StructConstructor,
        "struct_field" => Kind::StructField,
        "old_struct_field" => Kind::StructField,
        "struct_field_value" => Kind::StructFieldValue,
        "alias_declaration" => Kind::AliasDeclaration,
        "alias_assignment" => Kind::AliasAssignment,
        "alias_operator" => Kind::AliasOperator,
        "hardcoded_symbol" => Kind::HardcodedSymbol,
        "assertion" => Kind::Assertion,
        "type" => Kind::Type,
        "any_type" => Kind::Type,
        "array_type" => Kind::Type,
        "old_type" => Kind::OldType,
        "old_builtin_type" => Kind::OldType,
        "builtin_type" => Kind::BuiltinType,
        "dimension" => Kind::Dimension,
        "fixed_dimension" => Kind::FixedDimension,
        "dynamic_array" => Kind::DynamicArray,
        "named_arg" => Kind::NamedArg,
        "ignore_argument" => Kind::IgnoreArgument,
        "assignment_expression" => Kind::AssignmentExpression,
        "binary_expression" => Kind::BinaryExpression,
        "unary_expression" => Kind::UnaryExpression,
        "update_expression" => Kind::UpdateExpression,
        "parenthesized_expression" => Kind::ParenthesizedExpression,
        "comma_expression" => Kind::CommaExpression,
        "scope_access" => Kind::ScopeAccess,
        "array_indexed_access" => Kind::ArrayIndexedAccess,
        "ternary_expression" => Kind::TernaryExpression,
        "field_access" => Kind::FieldAccess,
        "view_as" => Kind::ViewAs,
        "old_type_cast" => Kind::OldTypeCast,
        "sizeof_expression" => Kind::SizeofExpression,
        "this" => Kind::This,
        "null" => Kind::Null,
        "int_literal" => Kind::IntLiteral,
        "float_literal" => Kind::FloatLiteral,
        "char_literal" => Kind::CharLiteral,
        "string_literal" => Kind::StringLiteral,
        "packed_string_literal" => Kind::StringLiteral,
        "bool_literal" => Kind::BoolLiteral,
        "array_literal" => Kind::ArrayLiteral,
        "preproc_include" => Kind::PreprocInclude,
        "preproc_tryinclude" => Kind::PreprocTryinclude,
        "preproc_macro" => Kind::PreprocMacro,
        "preproc_define" => Kind::PreprocDefine,
        "preproc_undefine" => Kind::PreprocUndefine,
        "preproc_if" => Kind::PreprocIf,
        "preproc_elseif" => Kind::PreprocElseif,
        "preproc_else" => Kind::PreprocElse,
        "preproc_endif" => Kind::PreprocEndif,
        "preproc_endinput" => Kind::PreprocEndinput,
        "preproc_pragma" => Kind::PreprocPragma,
        "preproc_error" => Kind::PreprocError,
        "preproc_warning" => Kind::PreprocWarning,
        "preproc_assert" => Kind::PreprocAssert,
        "preproc_arg" => Kind::PreprocArg,
        "macro_param" => Kind::MacroParam,
        "system_lib_string" => Kind::SystemLibString,
        "(" => Kind::LParen,
        ")" => Kind::RParen,
        "{" => Kind::LBrace,
        "}" => Kind::RBrace,
        "[" => Kind::LBracket,
        "]" => Kind::RBracket,
        "," => Kind::Comma,
        ";" => Kind::Semicolon,
        ":" => Kind::Colon,
        "=" => Kind::Equals,
        "<" => Kind::LAngle,
        "&" => Kind::Amp,
        "~" => Kind::Tilde,
        "for" => Kind::KwFor,
        "while" => Kind::KwWhile,
        "do" => Kind::KwDo,
        "switch" => Kind::KwSwitch,
        "case" => Kind::KwCase,
        "default" => Kind::KwDefault,
        "return" => Kind::KwReturn,
        "delete" => Kind::KwDelete,
        "if" => Kind::KwIf,
        "else" => Kind::KwElse,
        "property" => Kind::KwProperty,
        "public" => Kind::KwPublic,
        "static" => Kind::KwStatic,
        "const" => Kind::KwConst,
        "native" => Kind::KwNative,
        "new" => Kind::KwNew,
        "decl" => Kind::KwDecl,
        "function" => Kind::KwFunction,
        "assert" => Kind::KwAssert,
        "static_assert" => Kind::KwStaticAssert,
        "set" => Kind::KwSet,
        "operator" => Kind::Operator,
        "__nullable__" => Kind::KwNullable,
        "using __intrinsics__.Handle" => Kind::KwUsingIntrinsicsHandle,
        "#include" => Kind::HashInclude,
        "#tryinclude" => Kind::HashTryinclude,
        "#define" => Kind::HashDefine,
        "#undef" => Kind::HashUndef,
        "#if" => Kind::HashIf,
        "#elseif" => Kind::HashElseif,
        "#error" => Kind::HashError,
        "#warning" => Kind::HashWarning,
        "#pragma" => Kind::HashPragma,
        "#assert" => Kind::HashAssert,
        other => {
            if other.len() > 1 && other.ends_with('=') {
                Kind::OpEndsEq
            } else {
                Kind::Other
            }
        }
    }
}

fn convert_node(node: tree_sitter::Node, parent_kind: &str, b2c: &[usize]) -> Node {
    let named = node.is_named();
    let grammar_kind = node.kind();
    let mut children = Vec::new();
    for i in 0..node.child_count() {
        let child = node.child(i as u32).unwrap();
        let mut c = convert_node(child, node.kind(), b2c);
        c.field = node.field_name_for_child(i as u32).and_then(map_field);
        children.push(c);
    }
    let mut kind = map_kind(grammar_kind, parent_kind);
    // Anonymous keyword tokens share spellings with named nodes; an
    // anonymous `enum`, `struct`, … is the keyword, not the declaration.
    if !named {
        kind = match node.kind() {
            "enum" => Kind::KwEnum,
            "struct" => Kind::KwStruct,
            "typedef" => Kind::KwTypedef,
            "typeset" => Kind::KwTypeset,
            "functag" => Kind::KwFunctag,
            "funcenum" => Kind::KwFuncenum,
            "methodmap" => Kind::KwMethodmap,
            _ => kind,
        };
    }
    if kind == Kind::SwitchCase && children.iter().any(|c| c.kind == Kind::KwDefault) {
        kind = Kind::SwitchDefaultCase;
    }
    if kind == Kind::ViewAs {
        // This grammar exposes no fields on view_as; tag the type and the
        // value from the token positions.
        let mut after_angle = false;
        let mut after_paren = false;
        for c in children.iter_mut() {
            if c.kind == Kind::LAngle {
                after_angle = true;
            } else if c.kind == Kind::LParen {
                after_paren = true;
            } else if after_paren && c.kind != Kind::RParen && c.field.is_none() {
                c.field = Some(FieldId::Value);
                after_paren = false;
            } else if after_angle && c.field.is_none() {
                c.field = Some(FieldId::Type);
                after_angle = false;
            }
        }
    }
    Node {
        kind,
        field: None,
        start: b2c[node.start_byte()],
        end: b2c[node.end_byte()],
        start_row: node.start_position().row,
        end_row: node.end_position().row,
        has_error: node.has_error(),
        children,
    }
}

fn format_sp_with(source: &str, settings: &Settings) -> String {
    let mut parser = tree_sitter::Parser::new();
    parser
        .set_language(&tree_sitter_sourcepawn::language())
        .expect("grammar loads");
    let tree = parser.parse(source, None).expect("parse");
    let mut b2c = vec![0usize; source.len() + 1];
    let mut ci = 0usize;
    for (bi, ch) in source.char_indices() {
        for k in bi..bi + ch.len_utf8() {
            b2c[k] = ci;
        }
        ci += 1;
    }
    b2c[source.len()] = ci;
    let root = convert_node(tree.root_node(), "", &b2c);
    let chars: Vec<char> = source.chars().collect();
    let out = sp_format::formatter::format_tree(&root, chars, settings);
    out.into_iter().collect()
}

fn format_sp(source: &str) -> String {
    format_sp_with(source, &Settings::default())
}

#[test]
fn simple_assignment_spacing() {
    let out = format_sp("void f(){ int x=1+2 ; }");
    assert_eq!(out, "void f()\n{\n\tint x = 1 + 2;\n}\n");
}

#[test]
fn aligned_multi_variable_declaration() {
    let src = "int alpha=1, beta=22, gammaLong=333, deltaVeryLongName=4444, epsilonExtra=55555, zetaAnotherLongName=666666;";
    let out = format_sp(src);
    let lines: Vec<&str> = out.lines().collect();
    assert_eq!(lines.len(), 6);
    assert!(lines[0].starts_with("int alpha"));
    for line in &lines[1..] {
        assert!(line.starts_with("    "), "continuation line starts at the declarator width: {:?}", line);
    }
    let cols: Vec<usize> = lines.iter().map(|l| l.find('=').unwrap()).collect();
    for c in &cols {
        assert_eq!(*c, cols[0], "every `=` lines up in the same column\n{}", out);
    }
    assert!(lines[5].ends_with(';'));
}

#[test]
fn include_gap_collapsing() {
    let out = format_sp("#include <sourcemod>\n\n\n\n#include \"foo.sp\"\n");
    assert_eq!(out, "#include <sourcemod>\n\n#include \"foo.sp\"\n");
}

#[test]
fn else_if_chain_attached_braces() {
    let mut settings = Settings::default();
    settings.brace_wrapping_before_condition = false;
    let src = "void f() { if(a){x=1;}else if(b){x=2;}else{x=3;} }";
    let out = format_sp_with(src, &settings);
    let expected = "void f()\n{\n\tif (a) {\n\t\tx = 1;\n\t} else if (b) {\n\t\tx = 2;\n\t} else {\n\t\tx = 3;\n\t}\n}\n";
    assert_eq!(out, expected);
}

#[test]
fn blank_lines_before_function_declaration() {
    let out = format_sp("void a(){}\nvoid b(){}\n");
    let pos = out.find("}\n\n\nvoid b").expect("exactly two blank lines between the functions");
    assert!(pos > 0);
    assert!(!out.contains("\n\n\n\n"));
}

#[test]
fn syntax_error_yields_empty_output() {
    let out = format_sp("void f( { }");
    assert_eq!(out, "");
}

#[test]
fn formatting_is_idempotent_on_simple_function() {
    let once = format_sp("void f(){ int x=1+2 ; }");
    let twice = format_sp(&once);
    assert_eq!(once, twice);
}

#[test]
fn formatting_is_idempotent_on_condition_chain() {
    let mut settings = Settings::default();
    settings.brace_wrapping_before_condition = false;
    let once = format_sp_with("void f() { if(a){x=1;}else if(b){x=2;}else{x=3;} }", &settings);
    let twice = format_sp_with(&once, &settings);
    assert_eq!(once, twice);
}

#[test]
fn formatting_is_idempotent_on_includes() {
    let once = format_sp("#include <sourcemod>\n\n\n\n#include \"foo.sp\"\n");
    let twice = format_sp(&once);
    assert_eq!(once, twice);
}

#[test]
fn comments_are_preserved_once_each() {
    let src = "// top comment\nvoid f()\n{\n\tint x = 1; // trailing words\n\t/* block text */\n\tx = 2;\n}\n";
    let out = format_sp(src);
    assert_eq!(out.matches("// top comment").count(), 1);
    assert_eq!(out.matches("// trailing words").count(), 1);
    assert_eq!(out.matches("/* block text */").count(), 1);
}

#[test]
fn gaps_between_statements_collapse_to_one_blank_line() {
    // Authored gaps collapse to a single blank line.  The configured
    // blank lines before declarations (two by default) are the one
    // source of wider runs, so the inputs here stay with forms that get
    // no extra leading blank lines.
    let sources = [
        "#include <a>\n\n\n\n\n#include <b>\n",
        "int g = 1;\n\n\n\n\nint h = 2;\n",
        "void f()\n{\n\tint a = 1;\n\n\n\n\tint b = 2;\n}\n",
    ];
    for src in sources.iter() {
        let out = format_sp(src);
        assert!(!out.contains("\n\n\n"), "{:?} -> {:?}", src, out);
    }
}

#[test]
fn single_configured_break_keeps_runs_short() {
    let mut settings = Settings::default();
    settings.breaks_before_function_decl = 1;
    let out = format_sp_with("void a(){}\nvoid b(){}\n", &settings);
    assert!(!out.contains("\n\n\n"), "{:?}", out);
}

#[test]
fn while_loop_layout() {
    let out = format_sp("void f(){ while(x<10){ x++; } }");
    assert_eq!(out, "void f()\n{\n\twhile (x < 10)\n\t{\n\t\tx++;\n\t}\n}\n");
}

#[test]
fn return_statement_spacing() {
    let out = format_sp("int f(){ return  1+2 ; }");
    assert_eq!(out, "int f()\n{\n\treturn 1 + 2;\n}\n");
}

#[test]
fn preproc_define_canonical_spacing() {
    let out = format_sp("#define   MAX    42\n");
    assert_eq!(out, "#define MAX 42\n");
}

#[test]
fn function_call_arguments_spacing() {
    let out = format_sp("void f(){ g(1,2 ,  3); }");
    assert_eq!(out, "void f()\n{\n\tg(1, 2, 3);\n}\n");
}

fn leaf_tokens(source: &str) -> Vec<String> {
    let mut parser = tree_sitter::Parser::new();
    parser
        .set_language(&tree_sitter_sourcepawn::language())
        .expect("grammar loads");
    let tree = parser.parse(source, None).expect("parse");
    let mut out = Vec::new();
    let mut stack = vec![tree.root_node()];
    let mut ordered = Vec::new();
    while let Some(n) = stack.pop() {
        ordered.push(n);
        for i in (0..n.child_count()).rev() {
            stack.push(n.child(i as u32).unwrap());
        }
    }
    for n in ordered {
        if n.child_count() == 0 && n.kind() != "comment" {
            let text = n.utf8_text(source.as_bytes()).unwrap_or("").trim().to_string();
            if !text.is_empty() && text != "," && text != ";" {
                out.push(text);
            }
        }
    }
    out
}

fn parses_cleanly(source: &str) -> bool {
    let mut parser = tree_sitter::Parser::new();
    parser
        .set_language(&tree_sitter_sourcepawn::language())
        .expect("grammar loads");
    let tree = parser.parse(source, None).expect("parse");
    !tree.root_node().has_error()
}

fn assert_round_trip(source: &str) {
    assert!(parses_cleanly(source), "fixture must parse cleanly: {:?}", source);
    let once = format_sp(source);
    assert!(!once.is_empty(), "formatting produced nothing for {:?}", source);
    assert_eq!(
        leaf_tokens(source),
        leaf_tokens(&once),
        "the token stream must survive formatting\nsource: {:?}\noutput: {:?}",
        source,
        once
    );
    let twice = format_sp(&once);
    assert_eq!(once, twice, "formatting must be idempotent on {:?}", source);
}

#[test]
fn round_trip_enum() {
    assert_round_trip("enum Color { Red, Green=2, Blue }");
}

#[test]
fn round_trip_enum_struct() {
    assert_round_trip("enum struct Point { int x; int y; void Reset() { x=0; y=0; } }");
}

#[test]
fn round_trip_methodmap() {
    assert_round_trip("methodmap Database < Handle { public native bool Query(const char[] sql); };");
}

#[test]
fn round_trip_methodmap_property() {
    assert_round_trip("methodmap D { property int Size { public get() { return 1; } public set(int value) { } } };");
}

#[test]
fn round_trip_typedef() {
    assert_round_trip("typedef Callback = function void (int a, int b);");
}

#[test]
fn round_trip_typeset() {
    assert_round_trip("typeset Handler { function void (int a); function bool (char b); };");
}

#[test]
fn round_trip_old_globals() {
    assert_round_trip("new Float:x = 1.0, y = 2.0;");
}

#[test]
fn round_trip_old_locals() {
    assert_round_trip("stock f() { decl String:buf[64]; new i = 3; }");
}

#[test]
fn round_trip_loops() {
    assert_round_trip("void f() { for(int i=0;i<10;i++) { g(i); } while(a){b();} }");
}

#[test]
fn round_trip_do_while() {
    assert_round_trip("void f() { do { x++; } while (x<5); }");
}

#[test]
fn round_trip_switch() {
    assert_round_trip("void f() { switch(x) { case 1, 2: g(); case 3: { h(); } default: z(); } }");
}

#[test]
fn round_trip_preproc_conditionals() {
    assert_round_trip("#if defined FOO\nint a;\n#else\nint b;\n#endif\n");
}

#[test]
fn round_trip_calls_and_literals() {
    assert_round_trip("public void OnPluginStart() { PrintToServer(\"hi %d\", view_as<int>(x)); }");
}

#[test]
fn round_trip_default_arguments() {
    assert_round_trip("stock int Add(int a, int b=3) { return a+b; }");
}

#[test]
fn round_trip_array_literal_and_sizeof() {
    assert_round_trip("void f() { int arr[3] = {1, 2, 3}; int n = sizeof arr; }");
}

#[test]
fn sizeof_parentheses_normalize_away() {
    let out = format_sp("void f() { int n = sizeof(arr); }");
    assert_eq!(out, "void f()\n{\n\tint n = sizeof arr;\n}\n");
}

#[test]
fn round_trip_ternary_and_scope() {
    assert_round_trip("void f() { int x = c ? a : b; int y = Scope::Val; }");
}

#[test]
fn switch_layout() {
    let out = format_sp("void f(){ switch(x) { case 1, 2: g(); case 3: { h(); } default: z(); } }");
    let expected = "void f()\n{\n\tswitch (x)\n\t{\n\t\tcase 1, 2:\n\t\t\tg();\n\t\tcase 3:\n\t\t{\n\t\t\th();\n\t\t}\n\t\tdefault:\n\t\t\tz();\n\t}\n}\n";
    assert_eq!(out, expected);
}

#[test]
fn for_loop_layout() {
    let out = format_sp("void f(){ for(int i=0;i<10;i++) { g(i); } }");
    let expected = "void f()\n{\n\tfor (int i = 0; i < 10; i++)\n\t{\n\t\tg(i);\n\t}\n}\n";
    assert_eq!(out, expected);
}

#[test]
fn do_while_layout() {
    let out = format_sp("void f(){ do { x++; } while (x<5); }");
    let expected = "void f()\n{\n\tdo\n\t{\n\t\tx++;\n\t}\n\twhile (x < 5);\n}\n";
    assert_eq!(out, expected);
}

#[test]
fn empty_input_formats_to_nothing() {
    assert_eq!(format_sp(""), "");
}

#[test]
fn aligned_declaration_break_mode() {
    // The single-line rendering is 85 characters wide, past the
    // threshold, so the list breaks: the declarator `int ` is four
    // columns, the widest name is 17, and every `=` lands in column 22.
    let src = "int alpha=1, beta=22, gammaLong=333, deltaVeryLongName=4444, epsilonExtra=55555;";
    let out = format_sp(src);
    let lines: Vec<&str> = out.lines().collect();
    assert_eq!(lines.len(), 5, "{:?}", out);
    assert!(lines[0].starts_with("int alpha"));
    for line in &lines[1..] {
        assert!(line.starts_with("    "), "{:?}", line);
    }
    for line in lines.iter() {
        assert_eq!(line.find('=').unwrap(), 22, "{:?}", out);
    }
    assert!(lines[4].ends_with(';'));
    assert_eq!(out, format_sp(&out), "the broken layout is a fixed point");
}

#[test]
fn bare_return_keeps_no_space() {
    let out = format_sp("void f(){ return; }");
    assert_eq!(out, "void f()\n{\n\treturn;\n}\n");
}

#[test]
fn comment_inside_declaration_list_forces_break_mode() {
    let out = format_sp("int a = 1, /* note */ b = 2;");
    assert!(out.contains("/* note */"), "{:?}", out);
    let once = out.clone();
    let twice = format_sp(&once);
    assert_eq!(once, twice);
}

#[test]
fn round_trip_macro_define_and_undef() {
    assert_round_trip("#define SQUARE(%1) ((%1)*(%1))\n#undef SQUARE\n");
}

#[test]
fn round_trip_pragma_and_tryinclude() {
    assert_round_trip("#pragma semicolon 1\n#tryinclude <optional>\n");
}

#[test]
fn round_trip_hardcoded_symbol() {
    assert_round_trip("using __intrinsics__.Handle;");
}

#[test]
fn round_trip_struct_constructor() {
    assert_round_trip("public Plugin myinfo = { name = \"demo\", author = \"someone\" };");
}

#[test]
fn round_trip_forward_and_native() {
    assert_round_trip("forward void OnStart();\nnative int Clamp(int v);\n");
}

#[test]
fn round_trip_break_and_continue() {
    assert_round_trip("void f() { while(a) { if(b) { break; } else { continue; } } }");
}

#[test]
fn round_trip_anonymous_enum() {
    assert_round_trip("enum { A, B }");
}

#[test]
fn forward_declaration_layout() {
    let out = format_sp("forward   void   OnStart( ) ;");
    assert_eq!(out, "forward void OnStart();\n");
}

#[test]
fn inline_comment_stays_after_old_declaration() {
    let src = "stock f()\n{\n\tnew a = 1; // note\n\tnew b = 2;\n}\n";
    let out = format_sp(src);
    assert!(out.contains("new a = 1;\t// note"), "{:?}", out);
    assert_eq!(out, format_sp(&out));
}
