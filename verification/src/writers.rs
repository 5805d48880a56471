//! The writer state and the shared output primitives.
//!
//! Every formatting routine appends to the writer's output buffer; the
//! contracts in this module pin the appended text down exactly, and the
//! routines built on top of them describe their own output in terms of
//! these specifications.

use vstd::prelude::*;
use vstd::string::StrSliceExecFns;

use crate::node::{
    node_text, node_wf, prev_named_sibling, spec_prev_named_sibling, Kind, Node,
};
use crate::preproc::{insert_break, spec_break_of};
use crate::settings::Settings;

verus! {

/// The state of one format call: the output buffer, the source the tree
/// was parsed from, the indentation depth and unit, a counter of siblings
/// the top-level dispatcher must skip, and the settings.
pub struct Writer {
    pub output: Vec<char>,
    pub source: Vec<char>,
    pub indent: usize,
    pub indent_string: Vec<char>,
    pub skip: u8,
    pub settings: Settings,
}

/// The parts of the writer that no formatting routine may change: the
/// source, the settings, the indent unit and the skip counter.
pub open spec fn writer_core(w: Writer) -> (Seq<char>, Settings, Seq<char>, u8) {
    (w.source@, w.settings, w.indent_string@, w.skip)
}

/// One indent level deeper, capped at the largest representable depth.
pub open spec fn inc_indent(i: nat) -> nat {
    if i < usize::MAX {
        i + 1
    } else {
        i
    }
}

/// A single space, as a sequence.
pub open spec fn sp() -> Seq<char> {
    seq![' ']
}

/// A single newline, as a sequence.
pub open spec fn nl() -> Seq<char> {
    seq!['\n']
}

/// `n` spaces.
pub open spec fn spaces(n: nat) -> Seq<char> {
    Seq::new(n, |i: int| ' ')
}

/// `s` repeated `n` times.
pub open spec fn repeat_seq(s: Seq<char>, n: nat) -> Seq<char>
    decreases n,
{
    if n == 0 {
        Seq::empty()
    } else {
        repeat_seq(s, (n - 1) as nat) + s
    }
}

/// The whitespace characters trimmed from comments and preprocessor
/// arguments.
pub open spec fn is_space_char(c: char) -> bool {
    c == ' ' || c == '\t' || c == '\n' || c == '\r' || c == '\u{b}' || c == '\u{c}'
}

/// How many leading whitespace characters `s` has.
pub open spec fn trim_left_amt(s: Seq<char>) -> int
    decreases s.len(),
{
    if s.len() > 0 && is_space_char(s[0]) {
        1 + trim_left_amt(s.subrange(1, s.len() as int))
    } else {
        0
    }
}

/// How many trailing whitespace characters `s` has.
pub open spec fn trim_right_amt(s: Seq<char>) -> int
    decreases s.len(),
{
    if s.len() > 0 && is_space_char(s[s.len() - 1]) {
        1 + trim_right_amt(s.subrange(0, s.len() - 1))
    } else {
        0
    }
}

/// `s` with trailing whitespace removed; the interior and any leading
/// whitespace are kept verbatim.
pub open spec fn spec_trim_end(s: Seq<char>) -> Seq<char> {
    s.subrange(0, s.len() - trim_right_amt(s))
}

/// `s` with leading and trailing whitespace removed; a preprocessor
/// payload is stripped on both ends so that exactly one space separates
/// it from its directive keyword.
pub open spec fn spec_trim(s: Seq<char>) -> Seq<char> {
    let rest = s.subrange(trim_left_amt(s), s.len() as int);
    rest.subrange(0, rest.len() - trim_right_amt(rest))
}

proof fn lemma_trim_left_at(s: Seq<char>, m: int)
    requires
        0 <= m <= s.len(),
        forall|k: int| 0 <= k < m ==> is_space_char(#[trigger] s[k]),
        m < s.len() ==> !is_space_char(s[m]),
    ensures
        trim_left_amt(s) == m,
    decreases m,
{
    if m == 0 {
    } else {
        let t = s.subrange(1, s.len() as int);
        assert forall|k: int| 0 <= k < m - 1 implies is_space_char(#[trigger] t[k]) by {
            assert(t[k] == s[k + 1]);
        }
        assert(m - 1 < t.len() ==> !is_space_char(t[m - 1]));
        lemma_trim_left_at(t, m - 1);
    }
}

proof fn lemma_trim_right_at(s: Seq<char>, m: int)
    requires
        0 <= m <= s.len(),
        forall|k: int| s.len() - m <= k < s.len() ==> is_space_char(#[trigger] s[k]),
        m < s.len() ==> !is_space_char(s[s.len() - m - 1]),
    ensures
        trim_right_amt(s) == m,
    decreases m,
{
    if m == 0 {
    } else {
        let t = s.subrange(0, s.len() - 1);
        assert forall|k: int| t.len() - (m - 1) <= k < t.len()
            implies is_space_char(#[trigger] t[k]) by {
            assert(t[k] == s[k]);
        }
        assert(m - 1 < t.len() ==> !is_space_char(t[t.len() - (m - 1) - 1]));
        lemma_trim_right_at(t, m - 1);
    }
}

/// Spells out `spec_trim` as a plain subrange: the characters between
/// the first and last non-whitespace characters of `s`.
pub proof fn lemma_trim_subrange(s: Seq<char>, a: int, b: int)
    requires
        0 <= a <= b <= s.len(),
        forall|k: int| 0 <= k < a ==> is_space_char(#[trigger] s[k]),
        forall|k: int| b <= k < s.len() ==> is_space_char(#[trigger] s[k]),
        a < b ==> !is_space_char(s[a]) && !is_space_char(s[b - 1]),
        a == b ==> a == s.len(),
    ensures
        spec_trim(s) == s.subrange(a, b),
    decreases 0int,
{
    if a == b {
        lemma_trim_left_at(s, a);
        let rest = s.subrange(trim_left_amt(s), s.len() as int);
        assert(rest.len() == 0);
        lemma_trim_right_at(rest, 0);
        assert(spec_trim(s) =~= s.subrange(a, b));
    } else {
        lemma_trim_left_at(s, a);
        let rest = s.subrange(a, s.len() as int);
        assert forall|k: int| rest.len() - (s.len() - b) <= k < rest.len()
            implies is_space_char(#[trigger] rest[k]) by {
            assert(rest[k] == s[k + a]);
        }
        assert(rest[rest.len() - (s.len() - b) - 1] == s[b - 1]);
        lemma_trim_right_at(rest, s.len() - b);
        assert(spec_trim(s) =~= s.subrange(a, b));
    }
}

/// Spells out `spec_trim_end` as a plain subrange: the characters up to
/// and including the last non-whitespace character of `s`.
pub proof fn lemma_trim_end_subrange(s: Seq<char>, b: int)
    requires
        0 <= b <= s.len(),
        forall|k: int| b <= k < s.len() ==> is_space_char(#[trigger] s[k]),
        b > 0 ==> !is_space_char(s[b - 1]),
    ensures
        spec_trim_end(s) == s.subrange(0, b),
{
    lemma_trim_right_at(s, s.len() - b);
    assert(spec_trim_end(s) =~= s.subrange(0, b));
}

impl Writer {
    /// Appends the characters of `s` to the output.
    pub fn push_str(&mut self, s: &str)
        ensures
            final(self).output@ == old(self).output@ + s@,
            writer_core(*final(self)) == writer_core(*old(self)),
            final(self).indent == old(self).indent,
    {
        let n: usize = s.unicode_len();
        let mut k: usize = 0;
        while k < n
            invariant
                k <= n,
                n == s@.len(),
                self.output@ == old(self).output@ + s@.subrange(0, k as int),
                writer_core(*self) == writer_core(*old(self)),
                self.indent == old(self).indent,
            decreases n - k,
        {
            let c: char = s.get_char(k);
            self.output.push(c);
            proof {
                assert(old(self).output@ + s@.subrange(0, k + 1)
                    =~= (old(self).output@ + s@.subrange(0, k as int)).push(s@[k as int]));
            }
            k = k + 1;
        }
        proof {
            assert(s@.subrange(0, n as int) =~= s@);
        }
    }

    /// Appends one character to the output.
    pub fn push(&mut self, c: char)
        ensures
            final(self).output@ == old(self).output@ + seq![c],
            writer_core(*final(self)) == writer_core(*old(self)),
            final(self).indent == old(self).indent,
    {
        self.output.push(c);
        proof {
            assert(self.output@ =~= old(self).output@ + seq![c]);
        }
    }

    /// Appends `n` spaces to the output.
    pub fn push_spaces(&mut self, n: usize)
        ensures
            final(self).output@ == old(self).output@ + spaces(n as nat),
            writer_core(*final(self)) == writer_core(*old(self)),
            final(self).indent == old(self).indent,
    {
        let mut k: usize = 0;
        while k < n
            invariant
                k <= n,
                self.output@ == old(self).output@ + spaces(k as nat),
                writer_core(*self) == writer_core(*old(self)),
                self.indent == old(self).indent,
            decreases n - k,
        {
            self.output.push(' ');
            proof {
                assert(old(self).output@ + spaces((k + 1) as nat)
                    =~= (old(self).output@ + spaces(k as nat)).push(' '));
            }
            k = k + 1;
        }
    }

    /// Appends `n` newlines to the output.
    pub fn push_breaks(&mut self, n: usize)
        ensures
            final(self).output@ == old(self).output@ + repeat_seq(nl(), n as nat),
            writer_core(*final(self)) == writer_core(*old(self)),
            final(self).indent == old(self).indent,
    {
        let mut k: usize = 0;
        while k < n
            invariant
                k <= n,
                self.output@ == old(self).output@ + repeat_seq(nl(), k as nat),
                writer_core(*self) == writer_core(*old(self)),
                self.indent == old(self).indent,
            decreases n - k,
        {
            self.output.push('\n');
            proof {
                assert(old(self).output@ + repeat_seq(nl(), (k + 1) as nat)
                    =~= (old(self).output@ + repeat_seq(nl(), k as nat)).push('\n'));
            }
            k = k + 1;
        }
    }

    /// Appends the indent unit once per level of the current indent.
    pub fn write_indent(&mut self)
        ensures
            final(self).output@ == old(self).output@
                + repeat_seq(old(self).indent_string@, old(self).indent as nat),
            writer_core(*final(self)) == writer_core(*old(self)),
            final(self).indent == old(self).indent,
    {
        let mut k: usize = 0;
        while k < self.indent
            invariant
                k <= self.indent,
                self.output@ == old(self).output@
                    + repeat_seq(old(self).indent_string@, k as nat),
                writer_core(*self) == writer_core(*old(self)),
                self.indent == old(self).indent,
            decreases self.indent - k,
        {
            let mut j: usize = 0;
            let m: usize = self.indent_string.len();
            while j < m
                invariant
                    j <= m,
                    m == self.indent_string@.len(),
                    self.output@ == old(self).output@
                        + repeat_seq(old(self).indent_string@, k as nat)
                        + old(self).indent_string@.subrange(0, j as int),
                    writer_core(*self) == writer_core(*old(self)),
                    self.indent == old(self).indent,
                    k < self.indent,
                decreases m - j,
            {
                let c: char = self.indent_string[j];
                self.output.push(c);
                proof {
                    assert(old(self).output@
                        + repeat_seq(old(self).indent_string@, k as nat)
                        + old(self).indent_string@.subrange(0, j + 1)
                        =~= (old(self).output@
                            + repeat_seq(old(self).indent_string@, k as nat)
                            + old(self).indent_string@.subrange(0, j as int))
                            .push(old(self).indent_string@[j as int]));
                }
                j = j + 1;
            }
            proof {
                assert(old(self).indent_string@.subrange(
                    0, old(self).indent_string@.len() as int) =~= old(self).indent_string@);
                assert(old(self).output@
                    + repeat_seq(old(self).indent_string@, (k + 1) as nat)
                    =~= old(self).output@
                        + repeat_seq(old(self).indent_string@, k as nat)
                        + old(self).indent_string@);
            }
            k = k + 1;
        }
    }

    /// Deepens the indent by one level; the depth is capped at the
    /// largest representable value.
    pub fn indent_inc(&mut self)
        ensures
            final(self).output@ == old(self).output@,
            writer_core(*final(self)) == writer_core(*old(self)),
            final(self).indent == inc_indent(old(self).indent as nat),
    {
        if self.indent < usize::MAX {
            self.indent = self.indent + 1;
        }
    }

    /// Appends the indent unit once.
    pub fn push_indent_unit(&mut self)
        ensures
            final(self).output@ == old(self).output@ + old(self).indent_string@,
            writer_core(*final(self)) == writer_core(*old(self)),
            final(self).indent == old(self).indent,
    {
        let mut j: usize = 0;
        let m: usize = self.indent_string.len();
        while j < m
            invariant
                j <= m,
                m == self.indent_string@.len(),
                self.output@ == old(self).output@
                    + old(self).indent_string@.subrange(0, j as int),
                writer_core(*self) == writer_core(*old(self)),
                self.indent == old(self).indent,
            decreases m - j,
        {
            let c: char = self.indent_string[j];
            self.output.push(c);
            proof {
                assert(old(self).output@ + old(self).indent_string@.subrange(0, j + 1)
                    =~= (old(self).output@
                        + old(self).indent_string@.subrange(0, j as int))
                        .push(old(self).indent_string@[j as int]));
            }
            j = j + 1;
        }
        proof {
            assert(old(self).indent_string@.subrange(
                0, old(self).indent_string@.len() as int) =~= old(self).indent_string@);
        }
    }

    /// Appends a single line break.
    pub fn breakl(&mut self)
        ensures
            final(self).output@ == old(self).output@ + nl(),
            writer_core(*final(self)) == writer_core(*old(self)),
            final(self).indent == old(self).indent,
    {
        self.output.push('\n');
        proof {
            assert(self.output@ =~= old(self).output@ + nl());
        }
    }

    /// Whether a kind is one of the statement forms.
    pub fn is_statement(&self, kind: Kind) -> (r: bool)
        ensures
            r == spec_is_statement(kind),
    {
        is_statement_kind(kind)
    }

    /// Whether a kind is one of the expression forms (literals included).
    pub fn is_expression(&self, kind: Kind) -> (r: bool)
        ensures
            r == spec_is_expression(kind),
    {
        is_expression_kind(kind)
    }

    /// Whether a kind is one of the literal forms.
    pub fn is_literal(&self, kind: Kind) -> (r: bool)
        ensures
            r == spec_is_literal(kind),
    {
        is_literal_kind(kind)
    }

    /// Whether the output currently ends with the characters of `s`.
    pub fn ends_with(&self, s: &str) -> (r: bool)
        ensures
            r == seq_ends_with(self.output@, s@),
    {
        let n: usize = s.unicode_len();
        if self.output.len() < n {
            return false;
        }
        let base: usize = self.output.len() - n;
        let mut k: usize = 0;
        while k < n
            invariant
                k <= n,
                n == s@.len(),
                base + n == self.output.len(),
                forall|j: int| 0 <= j < k
                    ==> self.output@[base + j] == s@[j],
            decreases n - k,
        {
            let a: char = self.output[base + k];
            let b: char = s.get_char(k);
            if a != b {
                assert(!seq_ends_with(self.output@, s@));
                return false;
            }
            k = k + 1;
        }
        proof {
            assert(self.output@.subrange(base as int, self.output@.len() as int) =~= s@);
        }
        true
    }
}

/// Whether `s` ends with `t`.
pub open spec fn seq_ends_with(s: Seq<char>, t: Seq<char>) -> bool {
    s.len() >= t.len() && s.subrange(s.len() - t.len(), s.len() as int) == t
}

/// The statement kinds.
pub open spec fn spec_is_statement(k: Kind) -> bool {
    match k {
        Kind::Block | Kind::VariableDeclarationStatement
        | Kind::OldVariableDeclarationStatement | Kind::ForLoop | Kind::WhileLoop
        | Kind::DoWhileLoop | Kind::BreakStatement | Kind::ContinueStatement
        | Kind::ConditionStatement | Kind::SwitchStatement | Kind::ReturnStatement
        | Kind::DeleteStatement | Kind::ExpressionStatement => true,
        _ => false,
    }
}

/// Whether a kind is one of the statement forms.
pub fn is_statement_kind(k: Kind) -> (r: bool)
    ensures
        r == spec_is_statement(k),
{
    match k {
        Kind::Block | Kind::VariableDeclarationStatement
        | Kind::OldVariableDeclarationStatement | Kind::ForLoop | Kind::WhileLoop
        | Kind::DoWhileLoop | Kind::BreakStatement | Kind::ContinueStatement
        | Kind::ConditionStatement | Kind::SwitchStatement | Kind::ReturnStatement
        | Kind::DeleteStatement | Kind::ExpressionStatement => true,
        _ => false,
    }
}

/// The literal kinds.
pub open spec fn spec_is_literal(k: Kind) -> bool {
    match k {
        Kind::IntLiteral | Kind::FloatLiteral | Kind::CharLiteral | Kind::StringLiteral
        | Kind::ConcatenatedString | Kind::BoolLiteral | Kind::ArrayLiteral
        | Kind::Null => true,
        _ => false,
    }
}

/// Whether a kind is one of the literal forms.
pub fn is_literal_kind(k: Kind) -> (r: bool)
    ensures
        r == spec_is_literal(k),
{
    match k {
        Kind::IntLiteral | Kind::FloatLiteral | Kind::CharLiteral | Kind::StringLiteral
        | Kind::ConcatenatedString | Kind::BoolLiteral | Kind::ArrayLiteral
        | Kind::Null => true,
        _ => false,
    }
}

/// The expression kinds; every literal kind counts as an expression.
pub open spec fn spec_is_expression(k: Kind) -> bool {
    match k {
        Kind::AssignmentExpression | Kind::FunctionCall | Kind::ArrayIndexedAccess
        | Kind::TernaryExpression | Kind::FieldAccess | Kind::ScopeAccess
        | Kind::BinaryExpression | Kind::UnaryExpression | Kind::UpdateExpression
        | Kind::SizeofExpression | Kind::ViewAs | Kind::OldTypeCast | Kind::Symbol
        | Kind::ParenthesizedExpression | Kind::This | Kind::NewInstance => true,
        _ => spec_is_literal(k),
    }
}

/// Whether a kind is one of the expression forms (literals included).
pub fn is_expression_kind(k: Kind) -> (r: bool)
    ensures
        r == spec_is_expression(k),
{
    match k {
        Kind::AssignmentExpression | Kind::FunctionCall | Kind::ArrayIndexedAccess
        | Kind::TernaryExpression | Kind::FieldAccess | Kind::ScopeAccess
        | Kind::BinaryExpression | Kind::UnaryExpression | Kind::UpdateExpression
        | Kind::SizeofExpression | Kind::ViewAs | Kind::OldTypeCast | Kind::Symbol
        | Kind::ParenthesizedExpression | Kind::This | Kind::NewInstance => true,
        _ => is_literal_kind(k),
    }
}

/// The kinds whose names begin with `preproc`.
pub open spec fn spec_is_preproc(k: Kind) -> bool {
    match k {
        Kind::PreprocInclude | Kind::PreprocTryinclude | Kind::PreprocMacro
        | Kind::PreprocDefine | Kind::PreprocUndefine | Kind::PreprocIf
        | Kind::PreprocElseif | Kind::PreprocElse | Kind::PreprocEndif
        | Kind::PreprocEndinput | Kind::PreprocPragma | Kind::PreprocError
        | Kind::PreprocWarning | Kind::PreprocAssert | Kind::PreprocArg => true,
        _ => false,
    }
}

/// Whether a kind is one of the preprocessor kinds.
pub fn is_preproc_kind(k: Kind) -> (r: bool)
    ensures
        r == spec_is_preproc(k),
{
    match k {
        Kind::PreprocInclude | Kind::PreprocTryinclude | Kind::PreprocMacro
        | Kind::PreprocDefine | Kind::PreprocUndefine | Kind::PreprocIf
        | Kind::PreprocElseif | Kind::PreprocElse | Kind::PreprocEndif
        | Kind::PreprocEndinput | Kind::PreprocPragma | Kind::PreprocError
        | Kind::PreprocWarning | Kind::PreprocAssert | Kind::PreprocArg => true,
        _ => false,
    }
}

/// Writes the raw text of a node: the slice of the source its span covers.
pub fn write_node(node: &Node, writer: &mut Writer)
    requires
        node_wf(*node, old(writer).source@.len()),
    ensures
        final(writer).output@ == old(writer).output@ + node_text(*node, old(writer).source@),
        writer_core(*final(writer)) == writer_core(*old(writer)),
        final(writer).indent == old(writer).indent,
{
    let mut k: usize = node.start;
    while k < node.end
        invariant
            node.start <= k <= node.end <= writer.source@.len(),
            writer.output@ == old(writer).output@
                + writer.source@.subrange(node.start as int, k as int),
            writer_core(*writer) == writer_core(*old(writer)),
            writer.indent == old(writer).indent,
        decreases node.end - k,
    {
        let c: char = writer.source[k];
        writer.output.push(c);
        proof {
            assert(old(writer).output@
                + writer.source@.subrange(node.start as int, k + 1)
                =~= (old(writer).output@
                    + writer.source@.subrange(node.start as int, k as int))
                    .push(writer.source@[k as int]));
        }
        k = k + 1;
    }
}

/// Writes the raw text of a node with trailing whitespace removed; the
/// interior and any leading whitespace are kept verbatim.
pub fn write_node_trimmed(node: &Node, writer: &mut Writer)
    requires
        node_wf(*node, old(writer).source@.len()),
    ensures
        final(writer).output@ == old(writer).output@
            + spec_trim_end(node_text(*node, old(writer).source@)),
        writer_core(*final(writer)) == writer_core(*old(writer)),
        final(writer).indent == old(writer).indent,
{
    let ghost text = node_text(*node, old(writer).source@);
    let mut b: usize = node.end;
    while b > node.start && is_space(writer.source[b - 1])
        invariant
            node.start <= b <= node.end <= writer.source@.len(),
            forall|k: int| b <= k < node.end
                ==> is_space_char(#[trigger] writer.source@[k]),
            writer.source@ == old(writer).source@,
        decreases b,
    {
        b = b - 1;
    }
    proof {
        let s = old(writer).source@;
        let bi = b - node.start;
        assert forall|k: int| bi <= k < text.len()
            implies is_space_char(#[trigger] text[k]) by {
            assert(text[k] == s[node.start + k]);
        }
        if bi > 0 {
            assert(text[bi - 1] == s[b - 1]);
        }
        lemma_trim_end_subrange(text, bi);
    }
    let mut k: usize = node.start;
    while k < b
        invariant
            node.start <= k <= b <= writer.source@.len(),
            writer.output@ == old(writer).output@
                + writer.source@.subrange(node.start as int, k as int),
            writer_core(*writer) == writer_core(*old(writer)),
            writer.indent == old(writer).indent,
        decreases b - k,
    {
        let c: char = writer.source[k];
        writer.output.push(c);
        proof {
            assert(old(writer).output@
                + writer.source@.subrange(node.start as int, k + 1)
                =~= (old(writer).output@
                    + writer.source@.subrange(node.start as int, k as int))
                    .push(writer.source@[k as int]));
        }
        k = k + 1;
    }
    proof {
        assert(writer.source@.subrange(node.start as int, b as int)
            =~= node_text(*node, old(writer).source@).subrange(0, b - node.start));
    }
}

/// Writes the raw text of a node with leading and trailing whitespace
/// removed; preprocessor payloads use this so that exactly one space
/// separates them from their directive keyword.
pub fn write_node_stripped(node: &Node, writer: &mut Writer)
    requires
        node_wf(*node, old(writer).source@.len()),
    ensures
        final(writer).output@ == old(writer).output@
            + spec_trim(node_text(*node, old(writer).source@)),
        writer_core(*final(writer)) == writer_core(*old(writer)),
        final(writer).indent == old(writer).indent,
{
    let ghost text = node_text(*node, old(writer).source@);
    let mut a: usize = node.start;
    let mut b: usize = node.end;
    while a < b && is_space(writer.source[a])
        invariant
            node.start <= a <= b == node.end <= writer.source@.len(),
            forall|k: int| node.start <= k < a
                ==> is_space_char(#[trigger] writer.source@[k]),
            writer.source@ == old(writer).source@,
        decreases b - a,
    {
        a = a + 1;
    }
    while b > a && is_space(writer.source[b - 1])
        invariant
            node.start <= a <= b <= node.end <= writer.source@.len(),
            forall|k: int| node.start <= k < a
                ==> is_space_char(#[trigger] writer.source@[k]),
            forall|k: int| b <= k < node.end
                ==> is_space_char(#[trigger] writer.source@[k]),
            a < b ==> !is_space_char(writer.source@[a as int]),
            writer.source@ == old(writer).source@,
        decreases b,
    {
        b = b - 1;
    }
    proof {
        let s = old(writer).source@;
        let ai = a - node.start;
        let bi = b - node.start;
        assert forall|k: int| 0 <= k < ai implies is_space_char(#[trigger] text[k]) by {
            assert(text[k] == s[node.start + k]);
        }
        assert forall|k: int| bi <= k < text.len()
            implies is_space_char(#[trigger] text[k]) by {
            assert(text[k] == s[node.start + k]);
        }
        if ai < bi {
            assert(text[ai] == s[a as int]);
            assert(text[bi - 1] == s[b - 1]);
        }
        if a == b {
            if a < node.end {
                assert(is_space_char(s[a as int]));
            }
            assert(ai == text.len());
        }
        lemma_trim_subrange(text, ai, bi);
    }
    let mut k: usize = a;
    while k < b
        invariant
            a <= k <= b <= writer.source@.len(),
            writer.output@ == old(writer).output@
                + writer.source@.subrange(a as int, k as int),
            writer_core(*writer) == writer_core(*old(writer)),
            writer.indent == old(writer).indent,
        decreases b - k,
    {
        let c: char = writer.source[k];
        writer.output.push(c);
        proof {
            assert(old(writer).output@ + writer.source@.subrange(a as int, k + 1)
                =~= (old(writer).output@
                    + writer.source@.subrange(a as int, k as int))
                    .push(writer.source@[k as int]));
        }
        k = k + 1;
    }
    proof {
        assert(writer.source@.subrange(a as int, b as int)
            =~= node_text(*node, old(writer).source@).subrange(
                a - node.start, b - node.start));
    }
}

/// The separator written before a comment: one indent unit when the
/// previous named sibling ends on the comment's own row, the full current
/// indent when it does not, nothing when the comment has no named
/// predecessor.
pub open spec fn spec_comment_sep(parent: Node, i: int, indent: nat, istr: Seq<char>)
    -> Seq<char> {
    match spec_prev_named_sibling(parent, i) {
        Option::None => Seq::empty(),
        Option::Some(j) => {
            if parent.children@[i].start_row == parent.children@[j].end_row {
                istr
            } else {
                repeat_seq(istr, indent)
            }
        },
    }
}

/// Everything a comment writes: its separator, its text trimmed of
/// trailing whitespace, and the break decision that follows it.
pub open spec fn spec_render_comment(
    parent: Node, i: int, src: Seq<char>, indent: nat, istr: Seq<char>,
) -> Seq<char> {
    spec_comment_sep(parent, i, indent, istr)
        + spec_trim_end(node_text(parent.children@[i], src))
        + spec_break_of(parent, i)
}

/// Writes a comment.  One that follows another node on the same row gets
/// a single indent unit as separator; one on its own row is indented at
/// the current depth.  The comment's text is trimmed of trailing
/// whitespace but otherwise kept verbatim; the break decision follows.
pub fn write_comment(parent: &Node, i: usize, writer: &mut Writer)
    requires
        i < parent.children@.len(),
        node_wf(parent.children@[i as int], old(writer).source@.len()),
    ensures
        final(writer).output@ == old(writer).output@
            + spec_render_comment(
                *parent, i as int, old(writer).source@,
                old(writer).indent as nat, old(writer).indent_string@),
        writer_core(*final(writer)) == writer_core(*old(writer)),
        final(writer).indent == old(writer).indent,
{
    let prev = prev_named_sibling(parent, i);
    match prev {
        Option::Some(j) => {
            if parent.children[i].start_row == parent.children[j].end_row {
                writer.push_indent_unit();
            } else {
                writer.write_indent();
            }
        },
        Option::None => {},
    }
    write_node_trimmed(&parent.children[i], writer);
    insert_break(parent, i, writer);
    proof {
        assert(final(writer).output@ =~= old(writer).output@
            + spec_render_comment(
                *parent, i as int, old(writer).source@,
                old(writer).indent as nat, old(writer).indent_string@));
    }
}

/// Comment preservation: what a comment writes carries the comment's
/// text, trimmed of trailing whitespace but otherwise verbatim, as one
/// contiguous run between its separator and its break decision.
pub proof fn lemma_comment_text_preserved(
    parent: Node, i: int, src: Seq<char>, indent: nat, istr: Seq<char>,
)
    requires
        0 <= i < parent.children@.len(),
    ensures
        ({
            let sep = spec_comment_sep(parent, i, indent, istr);
            let text = spec_trim_end(node_text(parent.children@[i], src));
            spec_render_comment(parent, i, src, indent, istr)
                .subrange(sep.len() as int, sep.len() as int + text.len() as int) == text
        }),
{
    let sep = spec_comment_sep(parent, i, indent, istr);
    let text = spec_trim_end(node_text(parent.children@[i], src));
    assert(spec_render_comment(parent, i, src, indent, istr)
        .subrange(sep.len() as int, sep.len() as int + text.len() as int) =~= text);
}

/// Indentation: the run `write_indent` emits is the indent unit repeated
/// exactly the writer's depth — a non-negative whole number of copies,
/// never a fraction of one.
pub proof fn lemma_indent_run_length(u: Seq<char>, n: nat)
    ensures
        repeat_seq(u, n).len() == n * u.len(),
    decreases n,
{
    if n > 0 {
        lemma_indent_run_length(u, (n - 1) as nat);
        assert(repeat_seq(u, n) == repeat_seq(u, (n - 1) as nat) + u);
        assert(((n - 1) as nat) * u.len() + u.len() == n * u.len())
            by (nonlinear_arith)
            requires n >= 1,
        ;
    } else {
        assert(n * u.len() == 0) by (nonlinear_arith)
            requires n == 0,
        ;
    }
}

/// Whether `c` is one of the whitespace characters the formatter trims.
pub fn is_space(c: char) -> (r: bool)
    ensures
        r == is_space_char(c),
{
    c == ' ' || c == '\t' || c == '\n' || c == '\r' || c == '\u{b}' || c == '\u{c}'
}

} // verus!
