//! Laws of the scanner: what holds of the tokens of every source text.

use vstd::prelude::*;
use crate::error::{ErrorType, RigErrorView};
use crate::grammar::well_formed_tokens;
use crate::grammar_laws::tokens_well_spanned;
use crate::scan::{
    errors_from, lemma_line_monotone, lemma_step_advances, lemma_string_body, operator_len,
    scan_from, step_at, string_body, tokens_from, ScannedView,
};
use crate::span::SpanView;
use crate::token::{is_keyword, operator_type, TokenType, TokenView};

verus! {

/// Longest match. Whenever some operator is written at index `pos`, with `n`
/// characters, the scanner reads one operator token there: its text is an
/// operator of the table, begins at `pos`, and is at least `n` characters
/// long. So the token is the longest operator that begins at `pos`.
pub proof fn lemma_longest_match(src: Seq<char>, file: Seq<char>, pos: nat, n: nat)
    requires
        pos + n <= src.len(),
        operator_type(src.subrange(pos as int, pos as int + n)) is Some,
    ensures
        n <= operator_len(src, pos) <= 3,
        step_at(src, file, pos).next == pos + operator_len(src, pos),
        step_at(src, file, pos).outcome matches ScannedView::Token(token) && token.lexeme
            == src.subrange(pos as int, pos as int + operator_len(src, pos)) && operator_type(
            token.lexeme,
        ) == Some(token.token_type),
{
    let len = operator_len(src, pos);
    let longest = src.subrange(pos as int, pos as int + len);
    let given = src.subrange(pos as int, pos as int + n);
    assert(given.len() == n);
    assert(1 <= n <= 3);
    assert(given[0] == src[pos as int]);
    if n >= 2 {
        assert(given[1] == src[pos as int + 1]);
    }
    if n >= 3 {
        assert(given[2] == src[pos as int + 2]);
    }
    assert(len >= n);
    assert(longest.len() == len);
    assert(longest[0] == src[pos as int]);
    if len >= 2 {
        assert(longest[1] == src[pos as int + 1]);
    }
    if len >= 3 {
        assert(longest[2] == src[pos as int + 2]);
    }
}

/// What a token's kind says of its text: a keyword is a reserved word, an
/// identifier is not, and no token read from the text is the end-of-file
/// token.
pub open spec fn kind_fits(token: TokenView) -> bool {
    &&& token.token_type != TokenType::EOF
    &&& token.token_type == TokenType::Keyword ==> is_keyword(token.lexeme)
    &&& token.token_type == TokenType::Identifier ==> !is_keyword(token.lexeme)
}

/// The token of one step has a kind that fits its text.
proof fn lemma_step_kind_fits(src: Seq<char>, file: Seq<char>, pos: nat)
    requires
        pos < src.len(),
    ensures
        step_at(src, file, pos).outcome matches ScannedView::Token(token) ==> kind_fits(token),
{
    let len = operator_len(src, pos);
    let text = src.subrange(pos as int, pos as int + len);
    if len >= 1 {
        assert(text.len() == len);
        assert(text[0] == src[pos as int]);
    }
    if len >= 2 {
        assert(text[1] == src[pos as int + 1]);
    }
    if len >= 3 {
        assert(text[2] == src[pos as int + 2]);
    }
}

/// Every token that a scan reads from the text has a kind that fits its
/// text.
pub proof fn lemma_scan_kinds_fit(src: Seq<char>, file: Seq<char>, pos: nat)
    ensures
        forall|i: int|
            0 <= i < scan_from(src, file, pos).tokens.len() ==> kind_fits(
                #[trigger] scan_from(src, file, pos).tokens[i],
            ),
    decreases src.len() - pos,
{
    if pos < src.len() {
        let step = step_at(src, file, pos);
        lemma_step_advances(src, file, pos);
        lemma_step_kind_fits(src, file, pos);
        lemma_scan_kinds_fit(src, file, step.next);
        let rest = scan_from(src, file, step.next).tokens;
        let all = scan_from(src, file, pos).tokens;
        assert forall|i: int| 0 <= i < all.len() implies kind_fits(#[trigger] all[i]) by {
            match step.outcome {
                ScannedView::Token(token) => {
                    if i > 0 {
                        assert(all[i] == rest[i - 1]);
                    }
                },
                _ => {},
            }
        }
    }
}

/// Keywords and identifiers part the words between them. Among the tokens of
/// any text, one that is a keyword or an identifier is a keyword if and only
/// if its text is a reserved word.
pub proof fn lemma_keyword_partition(src: Seq<char>, file: Seq<char>, pos: nat, i: int)
    requires
        0 <= i < tokens_from(src, file, pos).len(),
        tokens_from(src, file, pos)[i].token_type == TokenType::Keyword || tokens_from(
            src,
            file,
            pos,
        )[i].token_type == TokenType::Identifier,
    ensures
        tokens_from(src, file, pos)[i].token_type == TokenType::Keyword <==> is_keyword(
            tokens_from(src, file, pos)[i].lexeme,
        ),
{
    lemma_scan_kinds_fit(src, file, pos);
}

/// End-of-file sentinel. The tokens of any text, the empty one too, end with
/// the end-of-file token, and no token before the last is one.
pub proof fn lemma_eof_sentinel(src: Seq<char>, file: Seq<char>, pos: nat)
    ensures
        tokens_from(src, file, pos).len() >= 1,
        tokens_from(src, file, pos).last().token_type == TokenType::EOF,
        forall|i: int|
            0 <= i < tokens_from(src, file, pos).len() - 1 ==> (#[trigger] tokens_from(
                src,
                file,
                pos,
            )[i]).token_type != TokenType::EOF,
{
    lemma_scan_kinds_fit(src, file, pos);
}

/// What holds of every span that the scanner makes for the file `file`: it
/// names that file and does not end on an earlier line than it starts.
pub open spec fn span_fits(span: SpanView, file: Seq<char>) -> bool {
    &&& span.file_name == file
    &&& span.well_formed()
}

/// What holds of every diagnostic that the scanner makes for the file `file`:
/// it is hard, it names that file, and its span and the span of its hint fit.
pub open spec fn error_fits(error: RigErrorView, file: Seq<char>) -> bool {
    &&& error.error_type == ErrorType::Hard
    &&& error.file_path == file
    &&& span_fits(error.span, file)
    &&& error.hint matches Some(hint) ==> span_fits(hint.span, file)
}

/// The token or diagnostic of one step has spans that fit.
proof fn lemma_step_spans_fit(src: Seq<char>, file: Seq<char>, pos: nat)
    requires
        pos < src.len(),
    ensures
        step_at(src, file, pos).outcome matches ScannedView::Token(token) ==> span_fits(
            token.span,
            file,
        ),
        step_at(src, file, pos).outcome matches ScannedView::Fault(error) ==> error_fits(
            error,
            file,
        ),
{
    lemma_string_body(src, pos + 1);
    let body = string_body(src, pos + 1);
    lemma_line_monotone(src, pos, body.at);
    if body.at > 0 {
        lemma_line_monotone(src, (body.at - 1) as nat, body.at);
    }
}

/// Spans of the scanner. Every token and every diagnostic of any text, and
/// every hint of such a diagnostic, carries a span that names the file and
/// does not end on an earlier line than it starts.
pub proof fn lemma_scan_spans_fit(src: Seq<char>, file: Seq<char>, pos: nat)
    ensures
        forall|i: int|
            0 <= i < tokens_from(src, file, pos).len() ==> span_fits(
                (#[trigger] tokens_from(src, file, pos)[i]).span,
                file,
            ),
        forall|i: int|
            0 <= i < errors_from(src, file, pos).len() ==> error_fits(
                #[trigger] errors_from(src, file, pos)[i],
                file,
            ),
{
    lemma_scanned_spans_fit(src, file, pos);
}

/// Every token and diagnostic that a scan reads from the text has spans that
/// fit.
proof fn lemma_scanned_spans_fit(src: Seq<char>, file: Seq<char>, pos: nat)
    ensures
        forall|i: int|
            0 <= i < scan_from(src, file, pos).tokens.len() ==> span_fits(
                (#[trigger] scan_from(src, file, pos).tokens[i]).span,
                file,
            ),
        forall|i: int|
            0 <= i < scan_from(src, file, pos).errors.len() ==> error_fits(
                #[trigger] scan_from(src, file, pos).errors[i],
                file,
            ),
    decreases src.len() - pos,
{
    if pos < src.len() {
        let step = step_at(src, file, pos);
        lemma_step_advances(src, file, pos);
        lemma_step_spans_fit(src, file, pos);
        lemma_scanned_spans_fit(src, file, step.next);
        let rest = scan_from(src, file, step.next);
        let all = scan_from(src, file, pos);
        assert forall|i: int| 0 <= i < all.tokens.len() implies span_fits(
            (#[trigger] all.tokens[i]).span,
            file,
        ) by {
            match step.outcome {
                ScannedView::Token(token) => {
                    if i > 0 {
                        assert(all.tokens[i] == rest.tokens[i - 1]);
                    }
                },
                _ => {},
            }
        }
        assert forall|i: int| 0 <= i < all.errors.len() implies error_fits(
            #[trigger] all.errors[i],
            file,
        ) by {
            match step.outcome {
                ScannedView::Fault(error) => {
                    if i > 0 {
                        assert(all.errors[i] == rest.errors[i - 1]);
                    }
                },
                _ => {},
            }
        }
    }
}

/// From the scanner to the parser. The tokens of any text are tokens that a
/// parser can move among, and their spans are such that every tree read from
/// them carries well-formed spans. Whether a parser can read expressions from
/// them is left open by one thing only: a whole number may be too large for
/// 64 bits.
pub proof fn lemma_scanner_feeds_parser(src: Seq<char>, file: Seq<char>, pos: nat)
    ensures
        well_formed_tokens(tokens_from(src, file, pos)),
        tokens_well_spanned(tokens_from(src, file, pos)),
{
    lemma_eof_sentinel(src, file, pos);
    lemma_scan_spans_fit(src, file, pos);
}

} // verus!
