//! What the rules read of a parsed source file: its functions, the attributes
//! on them and the statements directly inside their bodies, each with the
//! place where it starts.

use crate::position::{offset_in, resolved, SourcePosition};
use vstd::prelude::*;
use vstd::utf8::encode_utf8;

verus! {

/// The kinds of statement that call for an explanatory comment before them.
#[derive(Clone, Copy, Debug, PartialEq, Eq, Structural)]
pub enum RiskKind {
    /// A block marked `unsafe`.
    UnsafeBlock,
    /// A `loop` without a condition.
    EndlessLoop,
}

/// A statement directly inside a function body. Only the kinds that a rule
/// looks at are told apart; each of those carries the position of its keyword.
#[derive(Clone, Copy, Debug, PartialEq, Eq, Structural)]
pub enum Statement {
    UnsafeBlock(SourcePosition),
    LoopBlock(SourcePosition),
    Other,
}

impl Statement {
    /// The kind of risk that the statement bears, if any.
    pub open spec fn risk(self) -> Option<RiskKind> {
        match self {
            Statement::UnsafeBlock(_) => Some(RiskKind::UnsafeBlock),
            Statement::LoopBlock(_) => Some(RiskKind::EndlessLoop),
            Statement::Other => None,
        }
    }

    /// Where a risk-bearing statement starts.
    pub open spec fn risk_position(self) -> Option<SourcePosition> {
        match self {
            Statement::UnsafeBlock(position) => Some(position),
            Statement::LoopBlock(position) => Some(position),
            Statement::Other => None,
        }
    }

    /// Whether the statement can be looked up in the text: it bears no risk,
    /// or its position resolves to an offset that is not beyond the text.
    pub open spec fn within(self, text: Seq<u8>) -> bool {
        match self.risk_position() {
            Some(position) => resolved(text, position) matches Some(offset) && offset
                <= text.len(),
            None => true,
        }
    }

    /// Where the statement starts, if it bears the given kind of risk.
    pub fn start_of(&self, kind: RiskKind) -> (r: Option<SourcePosition>)
        ensures
            r == if self.risk() == Some(kind) {
                self.risk_position()
            } else {
                None
            },
    {
        match self {
            Statement::UnsafeBlock(position) => match kind {
                RiskKind::UnsafeBlock => Some(*position),
                RiskKind::EndlessLoop => None,
            },
            Statement::LoopBlock(position) => match kind {
                RiskKind::UnsafeBlock => None,
                RiskKind::EndlessLoop => Some(*position),
            },
            Statement::Other => None,
        }
    }

    /// The position of a risk-bearing statement.
    pub fn position(&self) -> (r: Option<SourcePosition>)
        ensures
            r == self.risk_position(),
    {
        match self {
            Statement::UnsafeBlock(position) => Some(*position),
            Statement::LoopBlock(position) => Some(*position),
            Statement::Other => None,
        }
    }
}

/// A function item of a source file.
#[derive(Debug, PartialEq, Eq)]
pub struct FunctionItem {
    /// The function's identifier.
    pub name: String,
    /// The names of the attributes on the function.
    pub attributes: Vec<String>,
    /// The statements directly inside the body, in source order.
    pub statements: Vec<Statement>,
    /// Where the identifier starts.
    pub position: SourcePosition,
}

/// A function item as contracts see it.
pub struct FunctionItemView {
    pub name: Seq<char>,
    pub attributes: Seq<Seq<char>>,
    pub statements: Seq<Statement>,
    pub position: SourcePosition,
}

impl View for FunctionItem {
    type V = FunctionItemView;

    open spec fn view(&self) -> FunctionItemView {
        FunctionItemView {
            name: self.name@,
            attributes: self.attributes.deep_view(),
            statements: self.statements@,
            position: self.position,
        }
    }
}

impl DeepView for FunctionItem {
    type V = FunctionItemView;

    open spec fn deep_view(&self) -> FunctionItemView {
        self@
    }
}

/// A risk-bearing statement whose position cannot be looked up in the text of
/// its file.
#[derive(Clone, Copy, Debug, PartialEq, Eq, Structural)]
pub struct SpanError {
    /// Index of the function among the functions of the file.
    pub function: usize,
    /// Index of the statement among the statements of that function.
    pub statement: usize,
    /// The position that the statement carries.
    pub position: SourcePosition,
}

/// A source file as contracts see it.
pub struct SourceFileView {
    pub path: Seq<char>,
    pub text: Seq<char>,
    pub functions: Seq<FunctionItemView>,
}

impl SourceFileView {
    /// The raw text as bytes.
    pub open spec fn bytes(self) -> Seq<u8> {
        encode_utf8(self.text)
    }

    /// Every risk-bearing statement can be looked up in the text.
    pub open spec fn well_formed(self) -> bool {
        forall|i: int, j: int|
            0 <= i < self.functions.len() && 0 <= j < self.functions[i].statements.len()
                ==> (#[trigger] self.functions[i].statements[j]).within(self.bytes())
    }

    /// Whether `error` names the first statement, in the order of the file,
    /// that cannot be looked up in the text.
    pub open spec fn first_stray(self, error: SpanError) -> bool {
        &&& error.function < self.functions.len()
        &&& error.statement < self.functions[error.function as int].statements.len()
        &&& self.functions[error.function as int].statements[error.statement as int].risk_position()
            == Some(error.position)
        &&& !self.functions[error.function as int].statements[error.statement as int].within(
            self.bytes(),
        )
        &&& forall|i: int, j: int|
            0 <= i < self.functions.len() && 0 <= j < self.functions[i].statements.len() && (i
                < error.function || (i == error.function && j < error.statement))
                ==> (#[trigger] self.functions[i].statements[j]).within(self.bytes())
    }
}

/// A source file: its path, its raw text and the functions found in it.
///
/// Every risk-bearing statement of a source file has a position that resolves
/// to an offset within the text, so that the text before it can be taken.
#[derive(Debug, PartialEq, Eq)]
pub struct SourceFile {
    path: String,
    text: String,
    functions: Vec<FunctionItem>,
}

impl View for SourceFile {
    type V = SourceFileView;

    closed spec fn view(&self) -> SourceFileView {
        SourceFileView {
            path: self.path@,
            text: self.text@,
            functions: self.functions.deep_view(),
        }
    }
}

impl DeepView for SourceFile {
    type V = SourceFileView;

    open spec fn deep_view(&self) -> SourceFileView {
        self@
    }
}

/// The position of a statement that cannot be looked up in the text, or
/// `None` where the statement can.
pub fn stray_position(text: &[u8], statement: &Statement) -> (r: Option<SourcePosition>)
    ensures
        r == if statement.within(text@) {
            None
        } else {
            statement.risk_position()
        },
{
    match statement.position() {
        Some(position) => match offset_in(text, position) {
            Some(offset) => if offset <= text.len() {
                None
            } else {
                Some(position)
            },
            None => Some(position),
        },
        None => None,
    }
}

impl Default for SourceFile {
    fn default() -> (file: SourceFile)
        ensures
            file@.path.len() == 0,
            file@.text.len() == 0,
            file@.functions.len() == 0,
    {
        SourceFile::empty()
    }
}

impl SourceFile {
    #[verifier::type_invariant]
    spec fn every_statement_within(self) -> bool {
        self@.well_formed()
    }

    /// A file without path, text or functions.
    pub fn empty() -> (file: SourceFile)
        ensures
            file@.path.len() == 0,
            file@.text.len() == 0,
            file@.functions.len() == 0,
    {
        SourceFile { path: String::new(), text: String::new(), functions: Vec::new() }
    }

    /// Puts a file together from its parts.
    ///
    /// Fails where a risk-bearing statement carries a position that the text
    /// does not have, and then names the first such statement.
    pub fn new(path: String, text: String, functions: Vec<FunctionItem>) -> (r: Result<
        SourceFile,
        SpanError,
    >)
        ensures
            match r {
                Ok(file) => file@ == (SourceFileView {
                    path: path@,
                    text: text@,
                    functions: functions.deep_view(),
                }) && file@.well_formed(),
                Err(error) => (SourceFileView {
                    path: path@,
                    text: text@,
                    functions: functions.deep_view(),
                }).first_stray(error),
            },
    {
        let ghost view = SourceFileView {
            path: path@,
            text: text@,
            functions: functions.deep_view(),
        };
        let bytes = text.as_str().as_bytes();
        let mut i: usize = 0;
        while i < functions.len()
            invariant
                i <= functions.len(),
                bytes@ == view.bytes(),
                view.path == path@,
                view.text == text@,
                view.functions == functions.deep_view(),
                forall|a: int, b: int|
                    0 <= a < i && 0 <= b < view.functions[a].statements.len() ==> (
                    #[trigger] view.functions[a].statements[b]).within(view.bytes()),
            decreases functions.len() - i,
        {
            let function = &functions[i];
            let mut j: usize = 0;
            while j < function.statements.len()
                invariant
                    i < functions.len(),
                    j <= function.statements.len(),
                    bytes@ == view.bytes(),
                    view.path == path@,
                    view.text == text@,
                    view.functions == functions.deep_view(),
                    view.functions[i as int] == function@,
                    forall|a: int, b: int|
                        0 <= a < i && 0 <= b < view.functions[a].statements.len() ==> (
                        #[trigger] view.functions[a].statements[b]).within(view.bytes()),
                    forall|b: int|
                        0 <= b < j ==> (#[trigger] view.functions[i as int].statements[b]).within(
                            view.bytes(),
                        ),
                decreases function.statements.len() - j,
            {
                let statement = function.statements[j];
                if let Some(position) = stray_position(bytes, &statement) {
                    return Err(SpanError { function: i, statement: j, position });
                }
                j = j + 1;
            }
            i = i + 1;
        }
        Ok(SourceFile { path, text, functions })
    }

    /// The path of the file.
    pub fn path(&self) -> (r: &String)
        ensures
            r@ == self@.path,
    {
        &self.path
    }

    /// The raw text of the file.
    pub fn text(&self) -> (r: &str)
        ensures
            r@ == self@.text,
    {
        self.text.as_str()
    }

    /// The functions of the file, in source order.
    pub fn functions(&self) -> (r: &Vec<FunctionItem>)
        ensures
            r.deep_view() == self@.functions,
            self@.well_formed(),
    {
        proof {
            use_type_invariant(self);
        }
        &self.functions
    }
}

} // verus!
