//! Formatter for fragments of a Jinja-style template expression language.
//!
//! A fragment is parsed into a lossless syntax tree, the tree is turned into
//! a layout document, and the document is rendered at a target width.

use crate::config::FormatOptions;
use crate::doc::{lay_out, layout_spec, LayoutError};
use crate::parser::{parse_expr, parse_spec, parse_stmt, ParseError};
use crate::printer::{print_node, print_spec};
use vstd::prelude::*;

pub mod config;
pub mod doc;
pub mod grammar;
pub mod laws;
pub mod lossless;
pub mod parser;
pub mod printer;
pub mod scanner;
pub mod syntax;

verus! {

/// Why a fragment was not formatted.
#[derive(Clone, Copy, Debug, PartialEq, Eq, Structural)]
pub enum FormatError {
    /// The fragment could not be parsed.
    Parse(ParseError),
    /// The document could not be laid out.
    Layout(LayoutError),
}

/// What formatting the fragment `code` gives: the failure of parsing it,
/// or the layout of the document of its tree.
pub open spec fn format_spec(code: Seq<char>, options: FormatOptions, statement: bool) -> Result<
    Seq<char>,
    FormatError,
> {
    match parse_spec(code, statement) {
        Err(e) => Err(FormatError::Parse(e)),
        Ok(tree) => match layout_spec(
            print_spec(tree, false, options.language, options.layout.indent_width as nat),
            options.layout,
        ) {
            Err(e) => Err(FormatError::Layout(e)),
            Ok(text) => Ok(text),
        },
    }
}

/// Whether the formatter's result `r` is `m`.
pub open spec fn same_text(r: Result<String, FormatError>, m: Result<Seq<char>, FormatError>) -> bool {
    match r {
        Ok(text) => m == Ok::<Seq<char>, FormatError>(text@),
        Err(e) => m == Err::<Seq<char>, FormatError>(e),
    }
}

/// Formats an expression, such as the inside of an interpolation.
pub fn format_expr(code: &str, options: &FormatOptions) -> (r: Result<String, FormatError>)
    ensures
        same_text(r, format_spec(code@, *options, false)),
{
    match parse_expr(code) {
        Err(e) => Err(FormatError::Parse(e)),
        Ok(tree) => {
            let doc = print_node(&tree, false, &options.language, options.layout.indent_width);
            match lay_out(&doc, &options.layout) {
                Err(e) => Err(FormatError::Layout(e)),
                Ok(text) => Ok(text),
            }
        },
    }
}

/// Formats a statement header, such as the inside of a block tag.
pub fn format_stmt(code: &str, options: &FormatOptions) -> (r: Result<String, FormatError>)
    ensures
        same_text(r, format_spec(code@, *options, true)),
{
    match parse_stmt(code) {
        Err(e) => Err(FormatError::Parse(e)),
        Ok(tree) => {
            let doc = print_node(&tree, false, &options.language, options.layout.indent_width);
            match lay_out(&doc, &options.layout) {
                Err(e) => Err(FormatError::Layout(e)),
                Ok(text) => Ok(text),
            }
        },
    }
}

} // verus!
