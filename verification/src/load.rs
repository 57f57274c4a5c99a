//! From the text of a file to the source file that the rules read.

use crate::config::ConfigurationView;
use crate::engine::lemma_no_functions_no_violations;
use crate::parser::read::{parse_functions, parsed_functions};
use crate::parser::TEXT_LIMIT;
use crate::rules::detected;
use crate::syntax::{FunctionItem, FunctionItemView, SourceFile, SourceFileView, SpanError};
use crate::text::{ends_in, ends_with};
use crate::violation::{decimal, decimal_text, RuleKind};
use vstd::prelude::*;
use vstd::string::StringExecFns;
use vstd::utf8::encode_utf8;

verus! {

/// Whether a path names a file to scan: one whose name ends in `.rs`.
pub fn is_source_path(path: &str) -> (r: bool)
    ensures
        r == ends_with(encode_utf8(path@), encode_utf8(".rs"@)),
{
    ends_in(path.as_bytes(), ".rs".as_bytes())
}

/// Why a file was not loaded.
#[derive(Debug, PartialEq, Eq)]
pub enum LoadError {
    /// The text is too long for the parser.
    TooLong,
    /// The text is not valid syntax; this is the parser's message.
    Syntax(String),
    /// A statement carries a position that the text does not have.
    Span(SpanError),
}

/// A file as loaded: the source file to scan, and what went wrong if
/// anything did. A file that was not loaded is scanned as an empty file.
#[derive(Debug, PartialEq, Eq)]
pub struct Loaded {
    pub file: SourceFile,
    pub error: Option<LoadError>,
}

/// What is said of a file that was not loaded.
pub open spec fn load_diagnostic(error: LoadError, path: Seq<char>) -> Seq<char> {
    match error {
        LoadError::TooLong => "Failed to parse file "@ + path + ": the file is too long"@,
        LoadError::Syntax(message) => "Failed to parse file "@ + path + ": "@ + message@,
        LoadError::Span(stray) => "Statement at "@ + decimal(stray.position.line as nat) + ":"@
            + decimal(stray.position.column as nat) + " lies outside the text of file "@ + path,
    }
}

impl LoadError {
    /// What to tell the user about the file at `path`.
    pub fn message(&self, path: &str) -> (r: String)
        ensures
            r@ == load_diagnostic(*self, path@),
    {
        match self {
            LoadError::TooLong => {
                let mut text = "Failed to parse file ".to_owned();
                text.append(path);
                text.append(": the file is too long");
                text
            },
            LoadError::Syntax(message) => {
                let mut text = "Failed to parse file ".to_owned();
                text.append(path);
                text.append(": ");
                text.append(message.as_str());
                text
            },
            LoadError::Span(stray) => {
                let mut text = "Statement at ".to_owned();
                text.append(decimal_text(stray.position.line).as_str());
                text.append(":");
                text.append(decimal_text(stray.position.column).as_str());
                text.append(" lies outside the text of file ");
                text.append(path);
                text
            },
        }
    }
}

/// Whether the file that was loaded is an empty one.
pub open spec fn nothing_loaded(loaded: Loaded) -> bool {
    &&& loaded.file@.functions.len() == 0
    &&& loaded.file@.path.len() == 0
    &&& loaded.file@.text.len() == 0
}

/// Whether `loaded` is what a file with this path and these contents is
/// put together as, given what parsing made of the contents.
///
/// Contents that do not parse give an empty file, with the parser's message.
/// Contents that parse give the file with the functions found, unless one of
/// their statements carries a position that the contents do not have: then
/// again the file is an empty one, and the first such statement is named.
pub open spec fn assembles_as(
    path: Seq<char>,
    contents: Seq<char>,
    parsed: Result<Seq<FunctionItemView>, Seq<char>>,
    loaded: Loaded,
) -> bool {
    match parsed {
        Err(message) => {
            &&& nothing_loaded(loaded)
            &&& loaded.error matches Some(LoadError::Syntax(said))
            &&& said@ == message
        },
        Ok(functions) => {
            let whole = SourceFileView { path, text: contents, functions };
            if whole.well_formed() {
                loaded.file@ == whole && loaded.error is None
            } else {
                &&& nothing_loaded(loaded)
                &&& loaded.error matches Some(LoadError::Span(stray))
                &&& whole.first_stray(stray)
            }
        },
    }
}

/// Whether contents are too long to load under a limit: they have as many
/// bytes as the limit or more, or are too long for the parser under any
/// limit.
pub open spec fn too_long(contents: Seq<char>, limit: usize) -> bool {
    encode_utf8(contents).len() >= limit || encode_utf8(contents).len() >= TEXT_LIMIT
}

/// Whether `loaded` is what a file with this path and these contents loads
/// as under a limit on its length, given what parsing makes of the contents.
///
/// Contents that are too long load as an empty file, whatever they hold.
/// All others load as they are put together from what parsing made of them.
pub open spec fn loads_as(
    path: Seq<char>,
    contents: Seq<char>,
    parsed: Result<Seq<FunctionItemView>, Seq<char>>,
    limit: usize,
    loaded: Loaded,
) -> bool {
    if too_long(contents, limit) {
        nothing_loaded(loaded) && loaded.error matches Some(LoadError::TooLong)
    } else {
        assembles_as(path, contents, parsed, loaded)
    }
}

/// A file whose contents did not parse, or were too long to parse, gives no
/// violation under any rule.
pub proof fn lemma_unparsed_file_gives_nothing(
    path: Seq<char>,
    contents: Seq<char>,
    message: Seq<char>,
    limit: usize,
    loaded: Loaded,
    kind: RuleKind,
    config: ConfigurationView,
)
    requires
        loads_as(path, contents, Err(message), limit, loaded),
    ensures
        detected(kind, loaded.file@, config).len() == 0,
{
    lemma_no_functions_no_violations(kind, loaded.file@, config);
}

/// Puts a loaded file together from its path, its contents and what parsing
/// made of the contents: the functions found, or the parser's message.
pub fn assemble(path: String, contents: String, parsed: Result<Vec<FunctionItem>, String>) -> (loaded:
    Loaded)
    ensures
        assembles_as(
            path@,
            contents@,
            match parsed {
                Ok(functions) => Ok(functions.deep_view()),
                Err(message) => Err(message@),
            },
            loaded,
        ),
{
    match parsed {
        Err(message) => Loaded { file: SourceFile::empty(), error: Some(LoadError::Syntax(message)) },
        Ok(functions) => match SourceFile::new(path, contents, functions) {
            Ok(file) => Loaded { file, error: None },
            Err(stray) => Loaded { file: SourceFile::empty(), error: Some(LoadError::Span(stray)) },
        },
    }
}

/// Loads the file with the given path and contents, unless the contents have
/// `limit` bytes or more: parses the contents and keeps the functions found.
///
/// Contents of [`TEXT_LIMIT`] bytes or more are too long under any limit,
/// since the parser cannot take them.
///
/// Parsing empties the parser's record of positions on the current thread:
/// syntax trees and spans of `proc_macro2` that the caller holds on this
/// thread are of no use afterwards.
pub fn load_within(path: String, contents: String, limit: usize) -> (loaded: Loaded)
    ensures
        loads_as(path@, contents@, parsed_functions(contents@), limit, loaded),
{
    let length = contents.as_str().as_bytes().len();
    if length >= limit || length >= TEXT_LIMIT {
        return Loaded { file: SourceFile::empty(), error: Some(LoadError::TooLong) };
    }
    let parsed = parse_functions(contents.as_str());
    assemble(path, contents, parsed)
}

/// Loads the file with the given path and contents: parses the contents and
/// keeps the functions found.
///
/// A file whose contents do not parse, or are too long for the parser, is
/// not an error of the run. It loads as an empty file, in which no rule finds
/// anything, together with what went wrong.
///
/// Parsing empties the parser's record of positions on the current thread:
/// syntax trees and spans of `proc_macro2` that the caller holds on this
/// thread are of no use afterwards.
pub fn fn_items_in_file(path: String, contents: String) -> (loaded: Loaded)
    ensures
        loads_as(path@, contents@, parsed_functions(contents@), TEXT_LIMIT, loaded),
{
    load_within(path, contents, TEXT_LIMIT)
}

} // verus!
