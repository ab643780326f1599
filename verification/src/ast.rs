//! The assembler's program representation: an ordered list of lines, each a
//! label wrapping an inner line, an instruction, or a raw word directive.

use vstd::prelude::*;

use crate::strutil::strs_view;

verus! {

/// The mathematical shape of a line: nested label wrappings around either an
/// instruction or a word directive, with tokens as character sequences.
pub enum LineV {
    Label { name: Seq<char>, inner: Box<LineV> },
    Instruction { tokens: Seq<Seq<char>> },
    Word { tokens: Seq<Seq<char>> },
}

/// One parsed program line. A label wraps exactly one inner line; stacked
/// labels on the same address appear as nested `ASTLabel` wrappings.
#[derive(PartialEq, Eq, Hash, Debug)]
pub enum Line {
    ASTLabel(Box<ASTLabel>),
    ASTInstruction(Box<ASTInstruction>),
    ASTWord(Box<ASTWord>),
}

#[derive(PartialEq, Eq, Hash, Debug)]
pub struct ASTLabel {
    pub label: String,
    pub labelled_line: Box<Line>,
}

#[derive(PartialEq, Eq, Hash, Debug, Clone)]
pub struct ASTInstruction {
    pub tokens: Vec<String>,
}

#[derive(PartialEq, Eq, Hash, Debug, Clone)]
pub struct ASTWord {
    pub tokens: Vec<String>,
}

/// An ordered list of lines; list order is program order and, after label
/// resolution, address order.
#[derive(PartialEq, Eq, Hash, Debug)]
pub struct LineList {
    pub lines: Vec<Box<Line>>,
}

/// The shape of a line, by structural recursion through label wrappings.
pub open spec fn line_view(l: Line) -> LineV
    decreases l,
{
    match l {
        Line::ASTLabel(lbl) => LineV::Label {
            name: lbl.label@,
            inner: Box::new(line_view(*lbl.labelled_line)),
        },
        Line::ASTInstruction(i) => LineV::Instruction { tokens: strs_view(i.tokens@) },
        Line::ASTWord(w) => LineV::Word { tokens: strs_view(w.tokens@) },
    }
}

impl View for Line {
    type V = LineV;

    open spec fn view(&self) -> LineV {
        line_view(*self)
    }
}

/// The shapes of a sequence of boxed lines.
pub open spec fn lines_view(s: Seq<Box<Line>>) -> Seq<LineV> {
    s.map_values(|b: Box<Line>| b@)
}

impl View for LineList {
    type V = Seq<LineV>;

    open spec fn view(&self) -> Seq<LineV> {
        lines_view(self.lines@)
    }
}

impl LineList {
    pub fn new(lines: Vec<Box<Line>>) -> (r: Self)
        ensures
            r.lines == lines,
            r@ == lines_view(lines@),
    {
        LineList { lines }
    }
}

impl ASTLabel {
    pub fn new(label: String, line: Box<Line>) -> (r: Self)
        ensures
            r.label == label,
            r.labelled_line == line,
    {
        ASTLabel { label, labelled_line: line }
    }
}

impl ASTInstruction {
    pub fn new(tokens: Vec<String>) -> (r: Self)
        ensures
            r.tokens == tokens,
    {
        ASTInstruction { tokens }
    }
}

impl ASTWord {
    pub fn new(tokens: Vec<String>) -> (r: Self)
        ensures
            r.tokens == tokens,
    {
        ASTWord { tokens }
    }
}

/// Errors reported by the assembler: malformed source, unknown names, and
/// operands that resolve neither to a number nor to a label.
#[derive(PartialEq, Eq, Debug, Clone)]
pub enum AsmError {
    /// The preprocessed program is not one brace-delimited block.
    UnbalancedDelimiters,
    /// A directive other than `.word`.
    UnknownDirective { token: String },
    /// A statement with no instruction, or a `.word` with no literals.
    EmptyStatement,
    /// A mnemonic absent from the instruction metadata table.
    UnknownMnemonic { token: String },
    /// An operand in register position that names no register.
    UnknownRegister { token: String },
    /// An immediate operand that is neither a decimal number nor a label.
    UnresolvedLabel { token: String },
    /// A `li` immediate outside the range a 32-bit value can carry.
    BadImmediate { token: String },
    /// An instruction with fewer operand tokens than its format needs.
    MissingOperand { mnemonic: String },
}

/// The mathematical shape of an assembler error.
pub enum AErrV {
    UnbalancedDelimiters,
    UnknownDirective { token: Seq<char> },
    EmptyStatement,
    UnknownMnemonic { token: Seq<char> },
    UnknownRegister { token: Seq<char> },
    UnresolvedLabel { token: Seq<char> },
    BadImmediate { token: Seq<char> },
    MissingOperand { mnemonic: Seq<char> },
}

impl View for AsmError {
    type V = AErrV;

    open spec fn view(&self) -> AErrV {
        match self {
            AsmError::UnbalancedDelimiters => AErrV::UnbalancedDelimiters,
            AsmError::UnknownDirective { token } => AErrV::UnknownDirective { token: token@ },
            AsmError::EmptyStatement => AErrV::EmptyStatement,
            AsmError::UnknownMnemonic { token } => AErrV::UnknownMnemonic { token: token@ },
            AsmError::UnknownRegister { token } => AErrV::UnknownRegister { token: token@ },
            AsmError::UnresolvedLabel { token } => AErrV::UnresolvedLabel { token: token@ },
            AsmError::BadImmediate { token } => AErrV::BadImmediate { token: token@ },
            AsmError::MissingOperand { mnemonic } => AErrV::MissingOperand { mnemonic: mnemonic@ },
        }
    }
}

} // verus!
