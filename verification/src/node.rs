//! The concrete-syntax-tree model the formatter walks.
//!
//! A [`Node`] carries its kind, its span as character offsets into the
//! source, its start and end rows, an optional field tag (the name under
//! which its parent's grammar rule exposes it) and its ordered children.
//! Trivia such as comments appear as siblings at the level where they
//! occur, never as attached children.

use vstd::prelude::*;

verus! {

/// The node-kind vocabulary of the SourcePawn grammar, plus [`Kind::Other`]
/// for anything the formatter does not recognise (such nodes are copied
/// verbatim).  Anonymous tokens (punctuation, keywords, the literal text of
/// preprocessor directives) have kinds of their own.
#[derive(Clone, Copy, PartialEq, Eq, Structural, Debug)]
pub enum Kind {
    // Top-level declarations.
    FunctionDeclaration,
    FunctionDefinition,
    Enum,
    EnumStruct,
    Typedef,
    Typeset,
    Functag,
    Funcenum,
    Methodmap,
    Struct,
    StructDeclaration,
    GlobalVariableDeclaration,
    OldGlobalVariableDeclaration,
    AliasDeclaration,
    AliasAssignment,
    HardcodedSymbol,
    Assertion,
    // Preprocessor nodes.
    PreprocInclude,
    PreprocTryinclude,
    PreprocMacro,
    PreprocDefine,
    PreprocUndefine,
    PreprocIf,
    PreprocElseif,
    PreprocElse,
    PreprocEndif,
    PreprocEndinput,
    PreprocPragma,
    PreprocError,
    PreprocWarning,
    PreprocAssert,
    PreprocArg,
    MacroParam,
    SystemLibString,
    // Statements.
    Block,
    VariableDeclarationStatement,
    OldVariableDeclarationStatement,
    ForLoop,
    WhileLoop,
    DoWhileLoop,
    BreakStatement,
    ContinueStatement,
    ConditionStatement,
    SwitchStatement,
    ReturnStatement,
    DeleteStatement,
    ExpressionStatement,
    SwitchCase,
    SwitchDefaultCase,
    SwitchCaseValues,
    // Expressions.
    AssignmentExpression,
    FunctionCall,
    ArrayIndexedAccess,
    TernaryExpression,
    FieldAccess,
    ScopeAccess,
    BinaryExpression,
    UnaryExpression,
    UpdateExpression,
    SizeofExpression,
    ViewAs,
    OldTypeCast,
    Symbol,
    ParenthesizedExpression,
    This,
    NewInstance,
    CommaExpression,
    FunctionCallArguments,
    NamedArg,
    IgnoreArgument,
    DynamicArray,
    // Literals.
    IntLiteral,
    FloatLiteral,
    CharLiteral,
    StringLiteral,
    ConcatenatedString,
    BoolLiteral,
    ArrayLiteral,
    Null,
    // Declaration helpers.
    Comment,
    Type,
    OldType,
    BuiltinType,
    Dimension,
    FixedDimension,
    VariableDeclaration,
    OldVariableDeclaration,
    VariableStorageClass,
    VariableVisibility,
    FunctionVisibility,
    FunctionDefinitionType,
    ArgumentDeclarations,
    ArgumentDeclaration,
    ArgumentType,
    RestArgument,
    EnumEntries,
    EnumEntry,
    EnumStructField,
    EnumStructMethod,
    MethodmapAlias,
    MethodmapNative,
    MethodmapNativeConstructor,
    MethodmapNativeDestructor,
    MethodmapMethod,
    MethodmapMethodConstructor,
    MethodmapMethodDestructor,
    MethodmapProperty,
    MethodmapPropertyAlias,
    MethodmapPropertyNative,
    MethodmapPropertyMethod,
    MethodmapPropertyGetter,
    MethodmapPropertySetter,
    TypedefExpression,
    FuncenumMember,
    AliasOperator,
    Operator,
    StructConstructor,
    StructFieldValue,
    StructField,
    // Anonymous punctuation tokens.
    LParen,
    RParen,
    LBrace,
    RBrace,
    LBracket,
    RBracket,
    Comma,
    Semicolon,
    Colon,
    Equals,
    LAngle,
    Amp,
    Tilde,
    /// Any anonymous operator token other than `=` whose text ends in `=`,
    /// such as the in-place operators `+=` or `<<=`.
    OpEndsEq,
    // Anonymous keyword tokens.
    KwFor,
    KwWhile,
    KwDo,
    KwSwitch,
    KwCase,
    KwDefault,
    KwReturn,
    KwDelete,
    KwIf,
    KwElse,
    KwEnum,
    KwStruct,
    KwTypedef,
    KwTypeset,
    KwFunctag,
    KwFuncenum,
    KwMethodmap,
    KwProperty,
    KwPublic,
    KwStatic,
    KwConst,
    KwNative,
    KwNew,
    KwDecl,
    KwFunction,
    KwAssert,
    KwStaticAssert,
    KwSet,
    KwNullable,
    KwUsingIntrinsicsHandle,
    // Preprocessor directive tokens.
    HashInclude,
    HashTryinclude,
    HashDefine,
    HashUndef,
    HashIf,
    HashElseif,
    HashError,
    HashWarning,
    HashPragma,
    HashAssert,
    /// A kind the formatter does not know; the node is copied verbatim.
    Other,
}

/// The field names under which the grammar exposes named children.
#[derive(Clone, Copy, PartialEq, Eq, Structural, Debug)]
pub enum FieldId {
    Left,
    Right,
    Operator,
    Argument,
    Condition,
    Consequence,
    Alternative,
    Scope,
    Field,
    Target,
    Array,
    Index,
    Function,
    Arguments,
    Class,
    Name,
    Value,
    Type,
    Expression,
    InitialValue,
}

/// One node of the concrete syntax tree.  `start`/`end` are character
/// offsets into the source this tree was parsed from; `start_row`/`end_row`
/// are the rows of the node's first and last character.  `has_error` is the
/// parser's error flag; the formatter reads it on the root only.
pub struct Node {
    pub kind: Kind,
    pub field: Option<FieldId>,
    pub start: usize,
    pub end: usize,
    pub start_row: usize,
    pub end_row: usize,
    pub has_error: bool,
    pub children: Vec<Node>,
}

/// Well-formedness of a node against a source of `len` characters: every
/// span in the tree lies inside the source.
pub open spec fn node_wf(n: Node, len: nat) -> bool
    decreases n,
{
    &&& n.start <= n.end
    &&& n.end <= len
    &&& forall|i: int|
        0 <= i < n.children@.len() ==> node_wf(#[trigger] n.children@[i], len)
}

/// The raw text of a node: the slice of the source its span covers.
pub open spec fn node_text(n: Node, src: Seq<char>) -> Seq<char> {
    src.subrange(n.start as int, n.end as int)
}

/// The length of a node's span.
pub open spec fn spec_node_len(n: Node) -> int {
    n.end - n.start
}

/// Returns the length of a node: the number of characters its span covers.
pub fn node_len(node: &Node) -> (r: usize)
    requires
        node.start <= node.end,
    ensures
        r == spec_node_len(*node),
{
    node.end - node.start
}

/// The kind of the sibling after child `i`, or `None` at the end.
pub open spec fn spec_next_sibling_kind(parent: Node, i: int) -> Option<Kind> {
    if i + 1 < parent.children@.len() {
        Some(parent.children@[i + 1].kind)
    } else {
        None
    }
}

/// The kind of the next sibling of child `i` of `parent`, or `None` if
/// there is none.
pub fn next_sibling_kind(parent: &Node, i: usize) -> (r: Option<Kind>)
    requires
        i < parent.children@.len(),
    ensures
        r == spec_next_sibling_kind(*parent, i as int),
{
    if i < parent.children.len() - 1 {
        Some(parent.children[i + 1].kind)
    } else {
        None
    }
}

/// The kind of the sibling before child `i`, or `None` at the start.
pub open spec fn spec_prev_sibling_kind(parent: Node, i: int) -> Option<Kind> {
    if i > 0 {
        Some(parent.children@[i - 1].kind)
    } else {
        None
    }
}

/// The kind of the previous sibling of child `i` of `parent`, or `None`
/// if there is none.
pub fn prev_sibling_kind(parent: &Node, i: usize) -> (r: Option<Kind>)
    requires
        i < parent.children@.len(),
    ensures
        r == spec_prev_sibling_kind(*parent, i as int),
{
    if i > 0 {
        Some(parent.children[i - 1].kind)
    } else {
        None
    }
}

/// The start row of the sibling after child `i`, or `None` at the end.
pub open spec fn spec_next_sibling_start_row(parent: Node, i: int) -> Option<usize> {
    if i + 1 < parent.children@.len() {
        Some(parent.children@[i + 1].start_row)
    } else {
        None
    }
}

/// The start row of the next sibling of child `i` of `parent`.
pub fn next_sibling_start(parent: &Node, i: usize) -> (r: Option<usize>)
    requires
        i < parent.children@.len(),
    ensures
        r == spec_next_sibling_start_row(*parent, i as int),
{
    if i < parent.children.len() - 1 {
        Some(parent.children[i + 1].start_row)
    } else {
        None
    }
}

/// The end row of the sibling before child `i`, or `None` at the start.
pub open spec fn spec_prev_sibling_end_row(parent: Node, i: int) -> Option<usize> {
    if i > 0 {
        Some(parent.children@[i - 1].end_row)
    } else {
        None
    }
}

/// The end row of the previous sibling of child `i` of `parent`.
pub fn prev_sibling_end(parent: &Node, i: usize) -> (r: Option<usize>)
    requires
        i < parent.children@.len(),
    ensures
        r == spec_prev_sibling_end_row(*parent, i as int),
{
    if i > 0 {
        Some(parent.children[i - 1].end_row)
    } else {
        None
    }
}

/// Whether a node counts as named for sibling navigation: anonymous
/// tokens (punctuation, keywords, directive markers) are not named.
pub open spec fn spec_is_named(k: Kind) -> bool {
    match k {
        Kind::LParen | Kind::RParen | Kind::LBrace | Kind::RBrace
        | Kind::LBracket | Kind::RBracket | Kind::Comma | Kind::Semicolon
        | Kind::Colon | Kind::Equals | Kind::LAngle | Kind::Amp | Kind::Tilde
        | Kind::OpEndsEq | Kind::KwFor | Kind::KwWhile | Kind::KwDo
        | Kind::KwSwitch | Kind::KwCase | Kind::KwDefault | Kind::KwReturn
        | Kind::KwDelete | Kind::KwIf | Kind::KwElse | Kind::KwEnum
        | Kind::KwStruct | Kind::KwTypedef | Kind::KwTypeset | Kind::KwFunctag
        | Kind::KwFuncenum | Kind::KwMethodmap | Kind::KwProperty
        | Kind::KwPublic | Kind::KwStatic | Kind::KwConst | Kind::KwNative
        | Kind::KwNew | Kind::KwDecl | Kind::KwFunction | Kind::KwAssert
        | Kind::KwStaticAssert | Kind::KwSet | Kind::KwNullable
        | Kind::KwUsingIntrinsicsHandle | Kind::HashInclude
        | Kind::HashTryinclude | Kind::HashDefine | Kind::HashUndef
        | Kind::HashIf | Kind::HashElseif | Kind::HashError
        | Kind::HashWarning | Kind::HashPragma | Kind::HashAssert => false,
        _ => true,
    }
}

/// Whether a node counts as named for sibling navigation.
pub fn is_named(k: Kind) -> (r: bool)
    ensures
        r == spec_is_named(k),
{
    match k {
        Kind::LParen | Kind::RParen | Kind::LBrace | Kind::RBrace
        | Kind::LBracket | Kind::RBracket | Kind::Comma | Kind::Semicolon
        | Kind::Colon | Kind::Equals | Kind::LAngle | Kind::Amp | Kind::Tilde
        | Kind::OpEndsEq | Kind::KwFor | Kind::KwWhile | Kind::KwDo
        | Kind::KwSwitch | Kind::KwCase | Kind::KwDefault | Kind::KwReturn
        | Kind::KwDelete | Kind::KwIf | Kind::KwElse | Kind::KwEnum
        | Kind::KwStruct | Kind::KwTypedef | Kind::KwTypeset | Kind::KwFunctag
        | Kind::KwFuncenum | Kind::KwMethodmap | Kind::KwProperty
        | Kind::KwPublic | Kind::KwStatic | Kind::KwConst | Kind::KwNative
        | Kind::KwNew | Kind::KwDecl | Kind::KwFunction | Kind::KwAssert
        | Kind::KwStaticAssert | Kind::KwSet | Kind::KwNullable
        | Kind::KwUsingIntrinsicsHandle | Kind::HashInclude
        | Kind::HashTryinclude | Kind::HashDefine | Kind::HashUndef
        | Kind::HashIf | Kind::HashElseif | Kind::HashError
        | Kind::HashWarning | Kind::HashPragma | Kind::HashAssert => false,
        _ => true,
    }
}

/// The index of the nearest named sibling before child `i`, if any.
pub open spec fn spec_prev_named_sibling(parent: Node, i: int) -> Option<int>
    decreases i,
{
    if i <= 0 {
        None
    } else if spec_is_named(parent.children@[i - 1].kind) {
        Some(i - 1)
    } else {
        spec_prev_named_sibling(parent, i - 1)
    }
}

/// The index of the nearest named sibling before child `i` of `parent`,
/// or `None` if every earlier sibling is an anonymous token.
pub fn prev_named_sibling(parent: &Node, i: usize) -> (r: Option<usize>)
    requires
        i < parent.children@.len(),
    ensures
        match r {
            Some(j) => j < i && spec_prev_named_sibling(*parent, i as int) == Some(j as int),
            None => spec_prev_named_sibling(*parent, i as int) is None,
        },
{
    let mut j: usize = i;
    while j > 0
        invariant
            j <= i < parent.children@.len(),
            spec_prev_named_sibling(*parent, i as int)
                == spec_prev_named_sibling(*parent, j as int),
        decreases j,
    {
        if is_named(parent.children[j - 1].kind) {
            return Some(j - 1);
        }
        j = j - 1;
    }
    None
}

/// The index of the first child of `n` from `j` on whose field tag is
/// `f`, if any.
pub open spec fn field_from(n: Node, f: FieldId, j: int) -> Option<int>
    decreases n.children@.len() - j,
{
    if j < 0 || j >= n.children@.len() {
        None
    } else if n.children@[j].field == Some(f) {
        Some(j)
    } else {
        field_from(n, f, j + 1)
    }
}

/// The index of the first child of `n` whose field tag is `f`, if any.
pub open spec fn field_of(n: Node, f: FieldId) -> Option<int> {
    field_from(n, f, 0)
}

/// The index behind `field_of`, or an out-of-range value when there is no
/// such child; meaningful only under a `field_of(n, f) is Some` guard.
pub open spec fn field_idx(n: Node, f: FieldId) -> int {
    match field_of(n, f) {
        Some(j) => j,
        None => -1,
    }
}

/// The first child of `n` whose field tag is `f`; meaningful only under a
/// `field_of(n, f) is Some` guard.
pub open spec fn field_node(n: Node, f: FieldId) -> Node {
    n.children@[field_idx(n, f)]
}

/// A well-formed node's child is well-formed, with a valid span.
pub proof fn lemma_child_wf(n: Node, len: nat, j: int)
    requires
        node_wf(n, len),
        0 <= j < n.children@.len(),
    ensures
        node_wf(n.children@[j], len),
        n.children@[j].start <= n.children@[j].end <= len,
{
    assert(node_wf(n.children@[j], len));
}

/// Every child of a well-formed node has a valid span.
pub proof fn lemma_children_spans(n: Node, len: nat)
    requires
        node_wf(n, len),
    ensures
        forall|t: int| 0 <= t < n.children@.len()
            ==> (#[trigger] n.children@[t]).start <= n.children@[t].end,
{
    assert forall|t: int| 0 <= t < n.children@.len()
        implies (#[trigger] n.children@[t]).start <= n.children@[t].end by {
        assert(node_wf(n.children@[t], len));
    }
}

/// Every grandchild of a well-formed node has a valid span.
pub proof fn lemma_grandchildren_spans(n: Node, len: nat)
    requires
        node_wf(n, len),
    ensures
        forall|t: int, u: int|
            0 <= t < n.children@.len() && 0 <= u < n.children@[t].children@.len()
                ==> (#[trigger] n.children@[t].children@[u]).start
                    <= n.children@[t].children@[u].end,
{
    assert forall|t: int, u: int|
        0 <= t < n.children@.len() && 0 <= u < n.children@[t].children@.len()
        implies (#[trigger] n.children@[t].children@[u]).start
            <= n.children@[t].children@[u].end by {
        assert(node_wf(n.children@[t], len));
        assert(node_wf(n.children@[t].children@[u], len));
    }
}

/// Every index `field_from` returns lies between `j` and the number of
/// children.
pub proof fn lemma_field_from_props(n: Node, f: FieldId, j: int)
    ensures
        field_from(n, f, j) matches Some(k) ==> j <= k < n.children@.len(),
    decreases n.children@.len() - j,
{
    if j < 0 || j >= n.children@.len() {
    } else if n.children@[j].field == Some(f) {
    } else {
        lemma_field_from_props(n, f, j + 1);
    }
}

/// A child is smaller than its parent in the termination order.
pub proof fn lemma_child_decreases(n: Node, j: int)
    requires
        0 <= j < n.children@.len(),
    ensures
        decreases_to!(n => n.children@[j]),
{
    assert(decreases_to!(n => n.children));
    assert(decreases_to!(n.children => n.children@));
    assert(decreases_to!(n.children@ => n.children@[j]));
}

/// A field child is smaller than its parent in the termination order.
pub proof fn lemma_field_node_decreases(n: Node, f: FieldId)
    ensures
        field_of(n, f) is Some ==> decreases_to!(n => field_node(n, f)),
{
    if field_of(n, f) is Some {
        lemma_field_from_props(n, f, 0);
        let j = field_idx(n, f);
        lemma_child_decreases(n, j);
    }
}

/// Finds the first child of `n` whose field tag is `f`.
pub fn child_by_field(n: &Node, f: FieldId) -> (r: Option<usize>)
    ensures
        match r {
            Some(j) => {
                &&& 0 <= j < n.children@.len()
                &&& n.children@[j as int].field == Some(f)
                &&& field_of(*n, f) == Some(j as int)
            },
            None => field_of(*n, f) is None,
        },
{
    let mut j: usize = 0;
    while j < n.children.len()
        invariant
            j <= n.children@.len(),
            field_of(*n, f) == field_from(*n, f, j as int),
        decreases n.children@.len() - j,
    {
        let here = n.children[j].field;
        match here {
            Some(g) => {
                if g == f {
                    return Some(j);
                }
            },
            None => {},
        }
        j = j + 1;
    }
    None
}

} // verus!
