//! The rules: what each of them finds in one source file.

use crate::config::{Configuration, ConfigurationView};
use crate::gather::{gather, lemma_gather_nothing, lemma_gather_source, lemma_gather_step, lemma_gather_without};
use crate::position::{line_offset, offset_in};
use crate::syntax::{FunctionItemView, RiskKind, SourceFile, SourceFileView, Statement};
use crate::text::{base_name, base_name_is, contains, occurs_at, prefix_contains};
use crate::violation::{RuleKind, Violation, ViolationView};
use vstd::prelude::*;
use vstd::string::StringExecFns;
use vstd::utf8::encode_utf8;

verus! {

/// Whether the function carries the marker attribute.
pub open spec fn marked(function: FunctionItemView, config: ConfigurationView) -> bool {
    function.attributes.contains(config.marker_attribute)
}

/// Whether the base name of the file is one of the exempt file names.
pub open spec fn file_exempt(path: Seq<char>, config: ConfigurationView) -> bool {
    exists|i: int|
        0 <= i < config.exempt_files.len() && base_name(encode_utf8(path)) == encode_utf8(
            #[trigger] config.exempt_files[i],
        )
}

/// Whether the function needs no marker attribute: its identifier is one of
/// the exempt identifiers, or its file is exempt. Names are compared exactly.
pub open spec fn exempt(
    function: FunctionItemView,
    path: Seq<char>,
    config: ConfigurationView,
) -> bool {
    config.exempt_functions.contains(function.name) || file_exempt(path, config)
}

/// What is said of a function without the marker attribute.
pub open spec fn marker_message(marker: Seq<char>, name: Seq<char>) -> Seq<char> {
    "No #["@ + marker + "] on `"@ + name + "`"@
}

/// The violation that a function without the marker attribute gives rise to,
/// at the position of its identifier.
pub open spec fn marker_violation(
    function: FunctionItemView,
    path: Seq<char>,
    config: ConfigurationView,
) -> ViolationView {
    ViolationView {
        kind: RuleKind::MissingMarkerAttribute,
        message: marker_message(config.marker_attribute, function.name),
        path,
        position: function.position,
    }
}

/// What the marker rule finds for one function of the file at `path`: nothing
/// where the function is marked or exempt, one violation otherwise.
pub open spec fn marker_findings(
    function: FunctionItemView,
    path: Seq<char>,
    config: ConfigurationView,
) -> Seq<ViolationView> {
    if marked(function, config) || exempt(function, path, config) {
        Seq::empty()
    } else {
        seq![marker_violation(function, path, config)]
    }
}

/// The marker rule as a function of the function item.
pub open spec fn marker_rule(path: Seq<char>, config: ConfigurationView) -> spec_fn(
    FunctionItemView,
) -> Seq<ViolationView> {
    |function: FunctionItemView| marker_findings(function, path, config)
}

/// What the marker rule finds in a file: the findings for its functions, in
/// source order.
pub open spec fn marker_violations(file: SourceFileView, config: ConfigurationView) -> Seq<
    ViolationView,
> {
    gather(file.functions, marker_rule(file.path, config))
}

/// The marker comment with a space after the comment start.
pub open spec fn spaced_marker(kind: RiskKind) -> Seq<char> {
    match kind {
        RiskKind::UnsafeBlock => "// SAFETY"@,
        RiskKind::EndlessLoop => "// LOOP"@,
    }
}

/// The marker comment without a space after the comment start.
pub open spec fn tight_marker(kind: RiskKind) -> Seq<char> {
    match kind {
        RiskKind::UnsafeBlock => "//SAFETY"@,
        RiskKind::EndlessLoop => "//LOOP"@,
    }
}

/// What is said of a statement without the marker comment.
pub open spec fn comment_message(kind: RiskKind) -> Seq<char> {
    match kind {
        RiskKind::UnsafeBlock => "Unsafe block without `// SAFETY`"@,
        RiskKind::EndlessLoop => "Endless loop without `// LOOP`"@,
    }
}

/// Whether the marker comment, in either spelling, stands anywhere among the
/// first `offset` bytes of the text.
pub open spec fn explained(text: Seq<u8>, offset: int, kind: RiskKind) -> bool {
    contains(text.subrange(0, offset), encode_utf8(spaced_marker(kind))) || contains(
        text.subrange(0, offset),
        encode_utf8(tight_marker(kind)),
    )
}

/// The offset at which a statement starts, as its position resolves.
pub open spec fn start_offset(statement: Statement, text: Seq<u8>) -> int {
    match statement.risk_position() {
        Some(position) => line_offset(text, position.line as nat) + position.column,
        None => 0,
    }
}

/// The violation that a statement without the marker comment gives rise to,
/// at the statement's own position.
pub open spec fn comment_violation(statement: Statement, kind: RiskKind, path: Seq<char>) -> ViolationView {
    ViolationView {
        kind: RuleKind::MissingPrecedingComment(kind),
        message: comment_message(kind),
        path,
        position: statement.risk_position().unwrap(),
    }
}

/// What the comment rule finds for one statement: one violation, at the
/// statement's own position, where the statement is of the given kind and the
/// text before it holds no marker comment; nothing otherwise.
pub open spec fn comment_findings(
    statement: Statement,
    kind: RiskKind,
    path: Seq<char>,
    text: Seq<u8>,
) -> Seq<ViolationView> {
    if statement.risk() == Some(kind) && !explained(text, start_offset(statement, text), kind) {
        seq![comment_violation(statement, kind, path)]
    } else {
        Seq::empty()
    }
}

/// The comment rule as a function of the statement.
pub open spec fn statement_rule(kind: RiskKind, path: Seq<char>, text: Seq<u8>) -> spec_fn(
    Statement,
) -> Seq<ViolationView> {
    |statement: Statement| comment_findings(statement, kind, path, text)
}

/// The comment rule as a function of the function item: the findings for the
/// statements directly inside its body, in source order.
pub open spec fn function_rule(kind: RiskKind, path: Seq<char>, text: Seq<u8>) -> spec_fn(
    FunctionItemView,
) -> Seq<ViolationView> {
    |function: FunctionItemView| gather(function.statements, statement_rule(kind, path, text))
}

/// What the comment rule finds in a file.
pub open spec fn comment_violations(kind: RiskKind, file: SourceFileView) -> Seq<ViolationView> {
    gather(file.functions, function_rule(kind, file.path, file.bytes()))
}

/// What a rule finds in a file.
pub open spec fn detected(kind: RuleKind, file: SourceFileView, config: ConfigurationView) -> Seq<
    ViolationView,
> {
    match kind {
        RuleKind::MissingMarkerAttribute => marker_violations(file, config),
        RuleKind::MissingPrecedingComment(risk) => comment_violations(risk, file),
    }
}

impl SourceFileView {
    /// The file with one of its functions taken out.
    pub open spec fn without_function(self, index: int) -> SourceFileView {
        SourceFileView {
            path: self.path,
            text: self.text,
            functions: self.functions.remove(index),
        }
    }
}

/// A function that carries the marker attribute is never reported for lacking
/// it: the rule finds nothing for it, and finds in its file what it would
/// find if the function were not there.
pub proof fn lemma_marked_function_not_reported(
    file: SourceFileView,
    config: ConfigurationView,
    index: int,
)
    requires
        0 <= index < file.functions.len(),
        marked(file.functions[index], config),
    ensures
        marker_findings(file.functions[index], file.path, config).len() == 0,
        marker_violations(file, config) == marker_violations(file.without_function(index), config),
{
    lemma_gather_without(file.functions, index, marker_rule(file.path, config));
}

/// A function that is exempt, by its identifier or by the base name of its
/// file, is never reported, whatever attributes it carries: the rule finds
/// nothing for it, and finds in its file what it would find if the function
/// were not there.
pub proof fn lemma_exempt_function_not_reported(
    file: SourceFileView,
    config: ConfigurationView,
    index: int,
)
    requires
        0 <= index < file.functions.len(),
        exempt(file.functions[index], file.path, config),
    ensures
        marker_findings(file.functions[index], file.path, config).len() == 0,
        marker_violations(file, config) == marker_violations(file.without_function(index), config),
{
    lemma_gather_without(file.functions, index, marker_rule(file.path, config));
}

/// In a file that is exempt by its base name the marker rule finds nothing.
pub proof fn lemma_exempt_file_not_reported(file: SourceFileView, config: ConfigurationView)
    requires
        file_exempt(file.path, config),
    ensures
        marker_violations(file, config).len() == 0,
{
    let rule = marker_rule(file.path, config);
    assert forall|i: int| 0 <= i < file.functions.len() implies (#[trigger] rule(
        file.functions[i],
    )).len() == 0 by {}
    lemma_gather_nothing(file.functions, rule);
}

/// Every violation that the marker rule reports is that of a function of the
/// file which neither carries the marker attribute nor is exempt. The result
/// is the index of that function.
pub proof fn lemma_marker_violation_source(
    file: SourceFileView,
    config: ConfigurationView,
    found: int,
) -> (index: int)
    requires
        0 <= found < marker_violations(file, config).len(),
    ensures
        0 <= index < file.functions.len(),
        !marked(file.functions[index], config),
        !exempt(file.functions[index], file.path, config),
        marker_violations(file, config)[found] == marker_violation(
            file.functions[index],
            file.path,
            config,
        ),
{
    let at = lemma_gather_source(file.functions, marker_rule(file.path, config), found);
    at.0
}

/// Whether a marker comment for the kind, in either spelling, stands in the
/// text at `at` and ends at or before `limit`.
pub open spec fn marker_within(text: Seq<u8>, kind: RiskKind, at: int, limit: int) -> bool {
    ||| occurs_at(text, encode_utf8(spaced_marker(kind)), at) && at + encode_utf8(
        spaced_marker(kind),
    ).len() <= limit
    ||| occurs_at(text, encode_utf8(tight_marker(kind)), at) && at + encode_utf8(
        tight_marker(kind),
    ).len() <= limit
}

/// The text before an offset holds the marker comment exactly if one of its
/// spellings stands in the text and ends at or before the offset.
pub proof fn lemma_explained(text: Seq<u8>, offset: int, kind: RiskKind)
    requires
        0 <= offset <= text.len(),
    ensures
        explained(text, offset, kind) <==> exists|at: int| marker_within(text, kind, at, offset),
{
    let before = text.subrange(0, offset);
    let spaced = encode_utf8(spaced_marker(kind));
    let tight = encode_utf8(tight_marker(kind));
    assert forall|at: int| 0 <= at && at + spaced.len() <= offset implies occurs_at(
        before,
        spaced,
        at,
    ) == occurs_at(text, spaced, at) by {
        assert(before.subrange(at, at + spaced.len()) =~= text.subrange(at, at + spaced.len()));
    }
    assert forall|at: int| 0 <= at && at + tight.len() <= offset implies occurs_at(
        before,
        tight,
        at,
    ) == occurs_at(text, tight, at) by {
        assert(before.subrange(at, at + tight.len()) =~= text.subrange(at, at + tight.len()));
    }
    if explained(text, offset, kind) {
        if contains(before, spaced) {
            let at = choose|at: int| occurs_at(before, spaced, at);
            assert(marker_within(text, kind, at, offset));
        } else {
            let at = choose|at: int| occurs_at(before, tight, at);
            assert(marker_within(text, kind, at, offset));
        }
    }
    if exists|at: int| marker_within(text, kind, at, offset) {
        let at = choose|at: int| marker_within(text, kind, at, offset);
        if occurs_at(text, spaced, at) && at + spaced.len() <= offset {
            assert(occurs_at(before, spaced, at));
        } else {
            assert(occurs_at(before, tight, at));
        }
    }
}

/// A risk-bearing statement is not reported once a marker comment stands in
/// the text and ends at or before the statement's start, however far back
/// and whatever lies between the two.
pub proof fn lemma_marker_before_statement(
    text: Seq<u8>,
    path: Seq<char>,
    statement: Statement,
    kind: RiskKind,
    marker_at: int,
)
    requires
        start_offset(statement, text) <= text.len(),
        marker_within(text, kind, marker_at, start_offset(statement, text)),
    ensures
        comment_findings(statement, kind, path, text).len() == 0,
{
    lemma_explained(text, start_offset(statement, text), kind);
}

/// A risk-bearing statement is reported, at its own position, where no marker
/// comment stands in the text before its start: a marker that comes later
/// does not help.
pub proof fn lemma_statement_before_marker(
    text: Seq<u8>,
    path: Seq<char>,
    statement: Statement,
    kind: RiskKind,
)
    requires
        statement.risk() == Some(kind),
        0 <= start_offset(statement, text) <= text.len(),
        forall|at: int| !marker_within(text, kind, at, start_offset(statement, text)),
    ensures
        comment_findings(statement, kind, path, text) == seq![
            comment_violation(statement, kind, path),
        ],
{
    lemma_explained(text, start_offset(statement, text), kind);
}

/// Every violation that the comment rule reports is that of a statement
/// directly inside a function of the file, of the kind that the rule looks
/// at, with no marker comment in the text before it. The result is the index
/// of the function and that of the statement in it.
pub proof fn lemma_comment_violation_source(kind: RiskKind, file: SourceFileView, found: int) -> (at:
    (int, int))
    requires
        0 <= found < comment_violations(kind, file).len(),
    ensures
        0 <= at.0 < file.functions.len(),
        0 <= at.1 < file.functions[at.0].statements.len(),
        file.functions[at.0].statements[at.1].risk() == Some(kind),
        !explained(
            file.bytes(),
            start_offset(file.functions[at.0].statements[at.1], file.bytes()),
            kind,
        ),
        comment_violations(kind, file)[found] == comment_violation(
            file.functions[at.0].statements[at.1],
            kind,
            file.path,
        ),
{
    let outer = lemma_gather_source(
        file.functions,
        function_rule(kind, file.path, file.bytes()),
        found,
    );
    let inner = lemma_gather_source(
        file.functions[outer.0].statements,
        statement_rule(kind, file.path, file.bytes()),
        outer.1,
    );
    (outer.0, inner.0)
}

/// Whether `wanted` is one of `names`.
pub fn listed(names: &Vec<String>, wanted: &String) -> (r: bool)
    ensures
        r == names.deep_view().contains(wanted@),
{
    let mut i: usize = 0;
    while i < names.len()
        invariant
            i <= names.len(),
            forall|k: int| 0 <= k < i ==> names.deep_view()[k] != wanted@,
        decreases names.len() - i,
    {
        if names[i] == *wanted {
            assert(names.deep_view()[i as int] == wanted@);
            return true;
        }
        i = i + 1;
    }
    false
}

/// Whether the last component of `path` is one of `names`.
pub fn base_name_listed(path: &String, names: &Vec<String>) -> (r: bool)
    ensures
        r == exists|i: int|
            0 <= i < names.len() && base_name(encode_utf8(path@)) == encode_utf8(
                #[trigger] names.deep_view()[i],
            ),
{
    let bytes = path.as_str().as_bytes();
    let mut i: usize = 0;
    while i < names.len()
        invariant
            i <= names.len(),
            bytes@ == encode_utf8(path@),
            forall|k: int|
                0 <= k < i ==> base_name(encode_utf8(path@)) != encode_utf8(
                    #[trigger] names.deep_view()[k],
                ),
        decreases names.len() - i,
    {
        if base_name_is(bytes, names[i].as_str().as_bytes()) {
            assert(names.deep_view()[i as int] == names[i as int]@);
            return true;
        }
        i = i + 1;
    }
    false
}

/// Finds the functions that lack the marker attribute.
///
/// Every function of the file that neither carries the marker attribute nor
/// is exempt, by its identifier or by the base name of its file, gives one
/// violation at the position of its identifier. The violations come in source
/// order.
pub fn check_instrument(file: &SourceFile, config: &Configuration) -> (found: Vec<Violation>)
    ensures
        found.deep_view() == marker_violations(file@, config@),
{
    let functions = file.functions();
    let whole_file_exempt = base_name_listed(file.path(), &config.exempt_files);
    let ghost rule = marker_rule(file@.path, config@);
    let mut found: Vec<Violation> = Vec::new();
    let mut i: usize = 0;
    while i < functions.len()
        invariant
            i <= functions.len(),
            functions.deep_view() == file@.functions,
            rule == marker_rule(file@.path, config@),
            whole_file_exempt == file_exempt(file@.path, config@),
            found.deep_view() == gather(file@.functions.take(i as int), rule),
        decreases functions.len() - i,
    {
        let function = &functions[i];
        if !whole_file_exempt && !listed(&function.attributes, &config.marker_attribute) && !listed(
            &config.exempt_functions,
            &function.name,
        ) {
            let mut message = "No #[".to_owned();
            message.append(config.marker_attribute.as_str());
            message.append("] on `");
            message.append(function.name.as_str());
            message.append("`");
            let violation = Violation {
                kind: RuleKind::MissingMarkerAttribute,
                message,
                path: file.path().clone(),
                position: function.position,
            };
            found.push(violation);
        }
        proof {
            lemma_gather_step(file@.functions, i as int, rule);
        }
        i = i + 1;
    }
    assert(file@.functions.take(i as int) =~= file@.functions);
    found
}

/// The two spellings of the marker comment for a kind of statement.
fn marker_spellings(kind: RiskKind) -> (r: (&'static str, &'static str))
    ensures
        r.0@ == spaced_marker(kind),
        r.1@ == tight_marker(kind),
{
    match kind {
        RiskKind::UnsafeBlock => ("// SAFETY", "//SAFETY"),
        RiskKind::EndlessLoop => ("// LOOP", "//LOOP"),
    }
}

/// The message for a kind of statement.
fn message_for(kind: RiskKind) -> (r: &'static str)
    ensures
        r@ == comment_message(kind),
{
    match kind {
        RiskKind::UnsafeBlock => "Unsafe block without `// SAFETY`",
        RiskKind::EndlessLoop => "Endless loop without `// LOOP`",
    }
}

/// What the comment rule finds for one statement of a file, given the path
/// and the text of the file.
pub fn check_statement(statement: &Statement, kind: RiskKind, path: &String, text: &[u8]) -> (found:
    Option<Violation>)
    requires
        statement.within(text@),
    ensures
        comment_findings(*statement, kind, path@, text@) == match found {
            Some(violation) => seq![violation@],
            None => Seq::empty(),
        },
{
    let position = match statement.start_of(kind) {
        Some(position) => position,
        None => {
            return None;
        },
    };
    let offset = offset_in(text, position).unwrap();
    let (spaced, tight) = marker_spellings(kind);
    if prefix_contains(text, offset, spaced.as_bytes()) || prefix_contains(
        text,
        offset,
        tight.as_bytes(),
    ) {
        None
    } else {
        Some(
            Violation {
                kind: RuleKind::MissingPrecedingComment(kind),
                message: message_for(kind).to_owned(),
                path: path.clone(),
                position,
            },
        )
    }
}

/// Finds the statements of one kind that have no marker comment before them.
///
/// Only the statements directly inside a function body are looked at. Such a
/// statement is in order if the marker comment, in either spelling, stands
/// anywhere in the text before the statement's start, however far back. Each
/// of the others gives one violation at its own position, in source order.
pub fn check_preceding_comment(file: &SourceFile, kind: RiskKind) -> (found: Vec<Violation>)
    ensures
        found.deep_view() == comment_violations(kind, file@),
{
    let functions = file.functions();
    let text = file.text().as_bytes();
    let ghost outer = function_rule(kind, file@.path, file@.bytes());
    let ghost inner = statement_rule(kind, file@.path, file@.bytes());
    let mut found: Vec<Violation> = Vec::new();
    let mut i: usize = 0;
    while i < functions.len()
        invariant
            i <= functions.len(),
            functions.deep_view() == file@.functions,
            file@.well_formed(),
            text@ == file@.bytes(),
            outer == function_rule(kind, file@.path, file@.bytes()),
            inner == statement_rule(kind, file@.path, file@.bytes()),
            found.deep_view() == gather(file@.functions.take(i as int), outer),
        decreases functions.len() - i,
    {
        let function = &functions[i];
        let ghost earlier = found.deep_view();
        let mut j: usize = 0;
        while j < function.statements.len()
            invariant
                i < functions.len(),
                j <= function.statements.len(),
                functions.deep_view() == file@.functions,
                file@.functions[i as int] == function@,
                file@.well_formed(),
                text@ == file@.bytes(),
                inner == statement_rule(kind, file@.path, file@.bytes()),
                found.deep_view() == earlier + gather(function@.statements.take(j as int), inner),
            decreases function.statements.len() - j,
        {
            let ghost before = found.deep_view();
            if let Some(violation) = check_statement(&function.statements[j], kind, file.path(), text) {
                found.push(violation);
            }
            proof {
                assert(found.deep_view() =~= before + inner(function.statements[j as int]));
                lemma_gather_step(function@.statements, j as int, inner);
            }
            j = j + 1;
        }
        proof {
            assert(function@.statements.take(j as int) =~= function@.statements);
            lemma_gather_step(file@.functions, i as int, outer);
        }
        i = i + 1;
    }
    assert(file@.functions.take(i as int) =~= file@.functions);
    found
}

/// Finds the unsafe blocks that have no safety comment before them.
pub fn check_safety(file: &SourceFile) -> (found: Vec<Violation>)
    ensures
        found.deep_view() == comment_violations(RiskKind::UnsafeBlock, file@),
{
    check_preceding_comment(file, RiskKind::UnsafeBlock)
}

/// Finds the endless loops that have no justification comment before them.
pub fn check_loops(file: &SourceFile) -> (found: Vec<Violation>)
    ensures
        found.deep_view() == comment_violations(RiskKind::EndlessLoop, file@),
{
    check_preceding_comment(file, RiskKind::EndlessLoop)
}

/// Applies one rule to one file.
pub fn detect(kind: RuleKind, file: &SourceFile, config: &Configuration) -> (found: Vec<Violation>)
    ensures
        found.deep_view() == detected(kind, file@, config@),
{
    match kind {
        RuleKind::MissingMarkerAttribute => check_instrument(file, config),
        RuleKind::MissingPrecedingComment(risk) => check_preceding_comment(file, risk),
    }
}

} // verus!
