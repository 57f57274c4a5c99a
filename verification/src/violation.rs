//! What a rule reports, and how a report is written out.

use crate::position::SourcePosition;
use crate::syntax::RiskKind;
use vstd::prelude::*;
use vstd::string::StringExecFns;

verus! {

/// The rules that can be enabled.
#[derive(Clone, Copy, Debug, PartialEq, Eq, Structural)]
pub enum RuleKind {
    /// Every function carries the marker attribute.
    MissingMarkerAttribute,
    /// Every statement of the given kind has the marker comment somewhere
    /// before it.
    MissingPrecedingComment(RiskKind),
}

/// One place where a rule is not met.
#[derive(Debug, PartialEq, Eq)]
pub struct Violation {
    /// The rule that is not met.
    pub kind: RuleKind,
    /// What is wrong, in words.
    pub message: String,
    /// The path of the file.
    pub path: String,
    /// Where in the file.
    pub position: SourcePosition,
}

/// A violation as contracts see it.
pub struct ViolationView {
    pub kind: RuleKind,
    pub message: Seq<char>,
    pub path: Seq<char>,
    pub position: SourcePosition,
}

impl View for Violation {
    type V = ViolationView;

    open spec fn view(&self) -> ViolationView {
        ViolationView {
            kind: self.kind,
            message: self.message@,
            path: self.path@,
            position: self.position,
        }
    }
}

impl DeepView for Violation {
    type V = ViolationView;

    open spec fn deep_view(&self) -> ViolationView {
        self@
    }
}

/// The character for a value below ten.
pub open spec fn digit(value: nat) -> char {
    if value == 0 {
        '0'
    } else if value == 1 {
        '1'
    } else if value == 2 {
        '2'
    } else if value == 3 {
        '3'
    } else if value == 4 {
        '4'
    } else if value == 5 {
        '5'
    } else if value == 6 {
        '6'
    } else if value == 7 {
        '7'
    } else if value == 8 {
        '8'
    } else {
        '9'
    }
}

/// A number in decimal, without leading zeros.
pub open spec fn decimal(value: nat) -> Seq<char>
    decreases value,
{
    if value < 10 {
        seq![digit(value)]
    } else {
        decimal(value / 10).push(digit(value % 10))
    }
}

/// A violation as one line of a report: the message, the path, the line and
/// the column.
pub open spec fn rendered(violation: ViolationView) -> Seq<char> {
    violation.message + " in "@ + violation.path + ":"@ + decimal(violation.position.line as nat)
        + ":"@ + decimal(violation.position.column as nat)
}

/// Lines put together with a newline between each two.
pub open spec fn joined(lines: Seq<Seq<char>>) -> Seq<char>
    decreases lines.len(),
{
    if lines.len() == 0 {
        Seq::empty()
    } else if lines.len() == 1 {
        lines[0]
    } else {
        joined(lines.drop_last()) + seq!['\n'] + lines.last()
    }
}

/// The lines of a report, one for each violation.
pub open spec fn report_lines(violations: Seq<ViolationView>) -> Seq<Seq<char>> {
    Seq::new(violations.len(), |i: int| rendered(violations[i]))
}

/// The text for a value below ten.
fn digit_text(value: usize) -> (r: &'static str)
    requires
        value < 10,
    ensures
        r@ == seq![digit(value as nat)],
{
    proof {
        reveal_strlit("0");
        reveal_strlit("1");
        reveal_strlit("2");
        reveal_strlit("3");
        reveal_strlit("4");
        reveal_strlit("5");
        reveal_strlit("6");
        reveal_strlit("7");
        reveal_strlit("8");
        reveal_strlit("9");
    }
    match value {
        0 => "0",
        1 => "1",
        2 => "2",
        3 => "3",
        4 => "4",
        5 => "5",
        6 => "6",
        7 => "7",
        8 => "8",
        _ => "9",
    }
}

/// Writes a number in decimal.
pub fn decimal_text(value: usize) -> (r: String)
    ensures
        r@ == decimal(value as nat),
    decreases value,
{
    if value < 10 {
        digit_text(value).to_owned()
    } else {
        let mut text = decimal_text(value / 10);
        text.append(digit_text(value % 10));
        text
    }
}

impl Violation {
    /// The violation as one line of a report.
    pub fn render(&self) -> (r: String)
        ensures
            r@ == rendered(self@),
    {
        let mut line = self.message.clone();
        line.append(" in ");
        line.append(self.path.as_str());
        line.append(":");
        line.append(decimal_text(self.position.line).as_str());
        line.append(":");
        line.append(decimal_text(self.position.column).as_str());
        line
    }
}

/// The report: one line for each violation, in their order.
pub fn report(violations: &Vec<Violation>) -> (r: String)
    ensures
        r@ == joined(report_lines(violations.deep_view())),
{
    let ghost lines = report_lines(violations.deep_view());
    let mut text = String::new();
    let mut i: usize = 0;
    while i < violations.len()
        invariant
            i <= violations.len(),
            lines == report_lines(violations.deep_view()),
            text@ == joined(lines.take(i as int)),
        decreases violations.len() - i,
    {
        if i > 0 {
            proof {
                reveal_strlit("\n");
            }
            text.append("\n");
        }
        let line = violations[i].render();
        text.append(line.as_str());
        assert(lines.take(i + 1).drop_last() =~= lines.take(i as int));
        i = i + 1;
    }
    assert(lines.take(i as int) =~= lines);
    text
}

/// The status that a run ends with: 0 where nothing was found, 1 otherwise.
pub fn exit_status(violations: &Vec<Violation>) -> (status: i32)
    ensures
        status == (if violations@.len() == 0 { 0i32 } else { 1i32 }),
{
    if violations.len() == 0 {
        0
    } else {
        1
    }
}

} // verus!
