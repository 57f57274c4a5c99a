//! Reading the functions out of the syntax tree that the parser builds.

use crate::gather::{gather, lemma_gather_step};
use crate::parser::{
    attribute_count, attribute_name, file_items, function_name, function_position,
    function_syntax, item_count, item_function, parse_outcome, parse_text, statement_at,
    statement_count, FunctionSyntax, TEXT_LIMIT,
};
use crate::syntax::{FunctionItem, FunctionItemView, Statement};
use vstd::prelude::*;
use vstd::utf8::encode_utf8;

verus! {

/// What an attribute adds to the attribute names of its function: its name
/// where it has one.
pub open spec fn named() -> spec_fn(Option<Seq<char>>) -> Seq<Seq<char>> {
    |attribute: Option<Seq<char>>|
        match attribute {
            Some(name) => seq![name],
            None => Seq::empty(),
        }
}

/// The function item that the rules read, for a function of the syntax tree:
/// the same but for the attributes, of which those with a name are kept.
pub open spec fn lowered(function: FunctionSyntax) -> FunctionItemView {
    FunctionItemView {
        name: function.name,
        attributes: gather(function.attributes, named()),
        statements: function.statements,
        position: function.position,
    }
}

/// What a top-level item adds to the functions of its file: itself where it
/// is a function.
pub open spec fn function_of() -> spec_fn(Option<FunctionSyntax>) -> Seq<FunctionItemView> {
    |item: Option<FunctionSyntax>|
        match item {
            Some(function) => seq![lowered(function)],
            None => Seq::empty(),
        }
}

/// The functions among the top-level items of a file, in source order.
pub open spec fn functions_among(items: Seq<Option<FunctionSyntax>>) -> Seq<FunctionItemView> {
    gather(items, function_of())
}

/// What parsing made of a text, as the functions found in it or the
/// parser's message.
pub open spec fn parsed_functions(contents: Seq<char>) -> Result<Seq<FunctionItemView>, Seq<char>> {
    match parse_outcome(contents) {
        Ok(items) => Ok(functions_among(items)),
        Err(message) => Err(message),
    }
}

/// Reads a function out of the syntax tree.
fn read_function(function: &syn::ItemFn) -> (item: FunctionItem)
    ensures
        item@ == lowered(function_syntax(*function)),
{
    let ghost syntax = function_syntax(*function);
    let mut attributes: Vec<String> = Vec::new();
    let attribute_total = attribute_count(function);
    let mut i: usize = 0;
    while i < attribute_total
        invariant
            i <= attribute_total,
            attribute_total == syntax.attributes.len(),
            syntax == function_syntax(*function),
            attributes.deep_view() == gather(syntax.attributes.take(i as int), named()),
        decreases attribute_total - i,
    {
        if let Some(name) = attribute_name(function, i) {
            attributes.push(name);
        }
        proof {
            lemma_gather_step(syntax.attributes, i as int, named());
        }
        i = i + 1;
    }
    assert(syntax.attributes.take(i as int) =~= syntax.attributes);
    let mut statements: Vec<Statement> = Vec::new();
    let statement_total = statement_count(function);
    let mut j: usize = 0;
    while j < statement_total
        invariant
            j <= statement_total,
            statement_total == syntax.statements.len(),
            syntax == function_syntax(*function),
            statements@ == syntax.statements.take(j as int),
        decreases statement_total - j,
    {
        statements.push(statement_at(function, j));
        j = j + 1;
    }
    assert(syntax.statements.take(j as int) =~= syntax.statements);
    FunctionItem {
        name: function_name(function),
        attributes,
        statements,
        position: function_position(function),
    }
}

/// Reads the functions out of the syntax tree of a file: the top-level items
/// that are functions, in source order.
fn read_functions(file: &syn::File) -> (functions: Vec<FunctionItem>)
    ensures
        functions.deep_view() == functions_among(file_items(*file)),
{
    let ghost items = file_items(*file);
    let mut functions: Vec<FunctionItem> = Vec::new();
    let total = item_count(file);
    let mut i: usize = 0;
    while i < total
        invariant
            i <= total,
            total == items.len(),
            items == file_items(*file),
            functions.deep_view() == gather(items.take(i as int), function_of()),
        decreases total - i,
    {
        if let Some(function) = item_function(file, i) {
            functions.push(read_function(function));
        }
        proof {
            lemma_gather_step(items, i as int, function_of());
        }
        i = i + 1;
    }
    assert(items.take(i as int) =~= items);
    functions
}

/// Parses a text and reads out the functions found in it, in source order,
/// or hands on the parser's message where the text does not parse.
///
/// Of each function the identifier, the names of its attributes, the kinds
/// of the statements directly inside its body and the positions that the
/// parser gives are kept; the tree itself is let go of. The text has to be
/// shorter than [`TEXT_LIMIT`].
///
/// The parser is made to lex the text itself, and its record of positions on
/// the current thread is emptied first: syntax trees and spans of
/// `proc_macro2` that the caller holds on this thread are of no use
/// afterwards.
pub fn parse_functions(text: &str) -> (r: Result<Vec<FunctionItem>, String>)
    requires
        encode_utf8(text@).len() < TEXT_LIMIT,
    ensures
        match r {
            Ok(functions) => parsed_functions(text@) == Ok::<Seq<FunctionItemView>, Seq<char>>(
                functions.deep_view(),
            ),
            Err(message) => parsed_functions(text@) == Err::<Seq<FunctionItemView>, Seq<char>>(
                message@,
            ),
        },
{
    match parse_text(text) {
        Ok(tree) => Ok(read_functions(&tree)),
        Err(message) => Err(message),
    }
}

} // verus!
