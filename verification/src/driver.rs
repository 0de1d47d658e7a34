//! What the command does with a source file, stage by stage: the decisions,
//! without the reading and the printing.

use vstd::prelude::*;

verus! {

/// What the command is asked to print in place of going on.
#[derive(Debug, Clone, Copy, PartialEq, Eq, Structural)]
pub enum OutputType {
    LexicalTokens,
    Ast,
}

/// What the command does once the text is scanned.
#[derive(Debug, Clone, Copy, PartialEq, Eq, Structural)]
pub struct AfterLexing {
    /// Print the tokens.
    pub show_tokens: bool,
    /// Print the diagnostics of the scanner.
    pub show_errors: bool,
    /// Go on to the parser.
    pub parse: bool,
}

/// What the command does once the tokens are parsed.
#[derive(Debug, Clone, Copy, PartialEq, Eq, Structural)]
pub struct AfterParsing {
    /// Print the syntax trees, and stop once the diagnostics are printed.
    pub show_ast: bool,
    /// Print the diagnostics of the parser, each one once.
    pub show_errors: bool,
    /// Print the syntax trees as source text and stop.
    pub reconstruct: bool,
    /// Go on to the semantic analysis.
    pub analyze: bool,
}

/// Decides what follows the scan. The tokens are printed on request. Any
/// diagnostic of the scanner is printed and keeps the parser from running.
pub fn after_lexing(unpretty: Option<OutputType>, errors: usize) -> (plan: AfterLexing)
    ensures
        plan.show_tokens == (unpretty == Some(OutputType::LexicalTokens)),
        plan.show_errors == (errors > 0),
        plan.parse == (errors == 0),
{
    AfterLexing {
        show_tokens: match unpretty {
            Some(OutputType::LexicalTokens) => true,
            _ => false,
        },
        show_errors: errors > 0,
        parse: errors == 0,
    }
}

/// Decides what follows the parse. Every diagnostic of the parser is printed,
/// whatever else was asked for: none is dropped. A request for the syntax
/// trees is served and ends the run. Otherwise the diagnostics do not keep
/// the trees from being printed back as source text, which ends the run too,
/// but they keep the analysis from running.
pub fn after_parsing(
    unpretty: Option<OutputType>,
    reconstruct_from_ast: bool,
    errors: usize,
) -> (plan: AfterParsing)
    ensures
        plan.show_ast == (unpretty == Some(OutputType::Ast)),
        plan.show_errors == (errors > 0),
        plan.reconstruct == (!plan.show_ast && reconstruct_from_ast),
        plan.analyze == (!plan.show_ast && !reconstruct_from_ast && errors == 0),
{
    let show_ast = match unpretty {
        Some(OutputType::Ast) => true,
        _ => false,
    };
    AfterParsing {
        show_ast,
        show_errors: errors > 0,
        reconstruct: !show_ast && reconstruct_from_ast,
        analyze: !show_ast && !reconstruct_from_ast && errors == 0,
    }
}

} // verus!
