//! What the library takes on trust of the parser, `syn`.
//!
//! The parser turns the text of a source file into a syntax tree. The
//! library reads a small part of that tree: which top-level items are
//! functions and, of each function, its identifier, the names of its
//! attributes and the kinds of the statements directly inside its body.
//! Nothing in this file is proved: each item states what is believed of one
//! call into the parser.
//!
//! The parser keeps the positions of a tree in a record of the current
//! thread, and every parse starts that record afresh. A tree therefore has
//! its positions only until the next parse. The calls in this file are
//! private for that reason: the verified code in [`read`] is their only
//! caller, and it reads a tree out in full before it lets go of it.

pub mod read;

use crate::position::SourcePosition;
use crate::syntax::Statement;
use vstd::prelude::*;
use vstd::utf8::encode_utf8;

verus! {

/// The syntax tree of a file, as `syn` builds it. Its contents are known
/// only through [`file_items`].
#[verifier::external_type_specification]
#[verifier::external_body]
pub struct ExFile(syn::File);

/// A free-standing function in a syntax tree. Its contents are known only
/// through [`function_syntax`].
#[verifier::external_type_specification]
#[verifier::external_body]
pub struct ExItemFn(syn::ItemFn);

/// What the library reads of a function in a syntax tree.
pub struct FunctionSyntax {
    /// The identifier.
    pub name: Seq<char>,
    /// Where the identifier starts.
    pub position: SourcePosition,
    /// For each attribute in source order, its name where the attribute's
    /// path is a single identifier, and nothing otherwise.
    pub attributes: Seq<Option<Seq<char>>>,
    /// The statements directly inside the body, in source order.
    pub statements: Seq<Statement>,
}

/// The length in bytes from which on a text is too long for the parser, which
/// addresses the characters of a text by 32-bit numbers.
pub const TEXT_LIMIT: usize = 0xffff_ffff;

/// What `syn::parse_file` makes of a text that is alone in the parser's
/// record: for each top-level item in source order, the function it is or
/// nothing where it is no function; or, where the text does not parse, the
/// parser's message.
pub uninterp spec fn parse_outcome(text: Seq<char>) -> Result<Seq<Option<FunctionSyntax>>, Seq<char>>;

/// The top-level items of a syntax tree in source order: for each, the
/// function it is, or nothing where it is no function.
pub uninterp spec fn file_items(file: syn::File) -> Seq<Option<FunctionSyntax>>;

/// What a function of a syntax tree holds.
pub uninterp spec fn function_syntax(function: syn::ItemFn) -> FunctionSyntax;

/// Calls `proc_macro2::fallback::force`, then
/// `proc_macro2::extra::invalidate_current_thread_spans`, then
/// `syn::parse_file` on the text, and `to_string` on the error where parsing
/// fails.
///
/// The first call makes the parser lex the text itself, also where the
/// program runs inside a procedural macro; it holds for the whole process.
/// The second empties the record of positions that the parser keeps on the
/// current thread, so that the text is the only one in it and, being shorter
/// than [`TEXT_LIMIT`], fits it. Every tree parsed earlier on the thread
/// loses its positions by this.
///
/// Believed: after those two calls the outcome depends on the text alone, so
/// that it can be given the name [`parse_outcome`]. The parser descends into
/// nested syntax by recursion, which is assumed to fit the stack.
#[verifier::external_body]
fn parse_text(text: &str) -> (r: Result<syn::File, String>)
    requires
        encode_utf8(text@).len() < TEXT_LIMIT,
    ensures
        match r {
            Ok(file) => parse_outcome(text@) == Ok::<Seq<Option<FunctionSyntax>>, Seq<char>>(
                file_items(file),
            ),
            Err(message) => parse_outcome(text@) == Err::<Seq<Option<FunctionSyntax>>, Seq<char>>(
                message@,
            ),
        },
{
    proc_macro2::fallback::force();
    proc_macro2::extra::invalidate_current_thread_spans();
    match syn::parse_file(text) {
        Ok(file) => Ok(file),
        Err(error) => Err(error.to_string()),
    }
}

/// Reads the length of the field `items` of a `syn::File`.
///
/// Believed: it is the number of top-level items.
#[verifier::external_body]
fn item_count(file: &syn::File) -> (r: usize)
    ensures
        r == file_items(*file).len(),
{
    file.items.len()
}

/// Reads one element of the field `items` of a `syn::File` and tells the
/// variant `syn::Item::Fn` from the others.
///
/// Believed: the element is handed out exactly where it is a function.
#[verifier::external_body]
fn item_function(file: &syn::File, index: usize) -> (r: Option<&syn::ItemFn>)
    requires
        index < file_items(*file).len(),
    ensures
        match r {
            Some(function) => file_items(*file)[index as int] == Some(function_syntax(*function)),
            None => file_items(*file)[index as int] is None,
        },
{
    match &file.items[index] {
        syn::Item::Fn(function) => Some(function),
        _ => None,
    }
}

/// Calls `to_string` on the identifier in the signature of a `syn::ItemFn`.
///
/// Believed: the result is the function's identifier as written.
#[verifier::external_body]
fn function_name(function: &syn::ItemFn) -> (r: String)
    ensures
        r@ == function_syntax(*function).name,
{
    function.sig.ident.to_string()
}

/// Calls `span` on the identifier in the signature of a `syn::ItemFn`, and
/// `start` on that span.
///
/// Believed: for a function of the tree that was parsed last on the thread,
/// the result is the line and column that the parser records for the start
/// of the identifier. Nothing is claimed of how they relate to the text.
#[verifier::external_body]
fn function_position(function: &syn::ItemFn) -> (r: SourcePosition)
    ensures
        r == function_syntax(*function).position,
{
    let start = function.sig.ident.span().start();
    SourcePosition { line: start.line, column: start.column }
}

/// Reads the length of the field `attrs` of a `syn::ItemFn`.
///
/// Believed: it is the number of attributes on the function.
#[verifier::external_body]
fn attribute_count(function: &syn::ItemFn) -> (r: usize)
    ensures
        r == function_syntax(*function).attributes.len(),
{
    function.attrs.len()
}

/// Calls `path` on one attribute of a `syn::ItemFn`, `get_ident` on that
/// path, and `to_string` on the identifier if there is one.
///
/// Believed: there is a result exactly where the attribute's path is a
/// single identifier, and it is that identifier as written.
#[verifier::external_body]
fn attribute_name(function: &syn::ItemFn, index: usize) -> (r: Option<String>)
    requires
        index < function_syntax(*function).attributes.len(),
    ensures
        match r {
            Some(name) => function_syntax(*function).attributes[index as int] == Some(name@),
            None => function_syntax(*function).attributes[index as int] is None,
        },
{
    match function.attrs[index].path().get_ident() {
        Some(ident) => Some(ident.to_string()),
        None => None,
    }
}

/// Reads the length of the field `stmts` of the body of a `syn::ItemFn`.
///
/// Believed: it is the number of statements directly inside the body.
#[verifier::external_body]
fn statement_count(function: &syn::ItemFn) -> (r: usize)
    ensures
        r == function_syntax(*function).statements.len(),
{
    function.block.stmts.len()
}

/// Reads one statement of the body of a `syn::ItemFn`, tells an unsafe block
/// and a `loop` in expression position from everything else, and calls
/// `start` on the span of the keyword.
///
/// Believed: for a function of the tree that was parsed last on the thread,
/// the result is the statement's kind, with the line and column that the
/// parser records for the start of its keyword.
#[verifier::external_body]
fn statement_at(function: &syn::ItemFn, index: usize) -> (r: Statement)
    requires
        index < function_syntax(*function).statements.len(),
    ensures
        r == function_syntax(*function).statements[index as int],
{
    match &function.block.stmts[index] {
        syn::Stmt::Expr(syn::Expr::Unsafe(block), _) => {
            let start = block.unsafe_token.span.start();
            Statement::UnsafeBlock(SourcePosition { line: start.line, column: start.column })
        },
        syn::Stmt::Expr(syn::Expr::Loop(block), _) => {
            let start = block.loop_token.span.start();
            Statement::LoopBlock(SourcePosition { line: start.line, column: start.column })
        },
        _ => Statement::Other,
    }
}

} // verus!
