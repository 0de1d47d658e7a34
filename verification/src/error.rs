//! Diagnostics: what went wrong, where, and what might mend it.

use vstd::prelude::*;
use vstd::string::StringExecFns;
use crate::span::{Span, SpanView};

verus! {

/// How grave a diagnostic is.
#[derive(Debug, Clone, Copy, PartialEq, Eq, Structural)]
pub enum ErrorType {
    /// The input cannot be compiled.
    Hard,
    /// The input can be compiled but deserves a look.
    Soft,
}

/// The codes of the diagnostics.
#[derive(Debug, Clone, Copy, PartialEq, Eq, Structural)]
pub enum ErrorCode {
    /// A character that begins no token.
    E0001,
    /// A string literal without its closing quote.
    E0002,
    /// A number with more than one decimal point.
    E0003,
    /// A backslash before a character that it cannot escape.
    E0004,
    /// The input ended, or held another token, where something else had to come.
    E0005,
}

impl ErrorCode {
    /// The code as diagnostics show it.
    pub open spec fn text(self) -> Seq<char> {
        match self {
            ErrorCode::E0001 => "E0001"@,
            ErrorCode::E0002 => "E0002"@,
            ErrorCode::E0003 => "E0003"@,
            ErrorCode::E0004 => "E0004"@,
            ErrorCode::E0005 => "E0005"@,
        }
    }

    /// The code as diagnostics show it.
    pub fn as_str(&self) -> (code: &'static str)
        ensures
            code@ == self.text(),
    {
        match self {
            ErrorCode::E0001 => "E0001",
            ErrorCode::E0002 => "E0002",
            ErrorCode::E0003 => "E0003",
            ErrorCode::E0004 => "E0004",
            ErrorCode::E0005 => "E0005",
        }
    }
}

/// Advice attached to a diagnostic: what to do, and where.
#[derive(Debug, PartialEq, Eq)]
pub struct Hint {
    pub text: String,
    pub span: Span,
}

/// The mathematical value of a [`Hint`].
pub struct HintView {
    pub text: Seq<char>,
    pub span: SpanView,
}

impl View for Hint {
    type V = HintView;

    open spec fn view(&self) -> HintView {
        HintView { text: self.text@, span: self.span@ }
    }
}

impl Clone for Hint {
    fn clone(&self) -> (copy: Hint)
        ensures
            copy == *self,
    {
        Hint { text: self.text.clone(), span: self.span.clone() }
    }
}

/// A diagnostic. The scanner and the parser hand diagnostics back as values.
#[derive(Debug, PartialEq, Eq)]
pub struct RigError {
    pub error_type: ErrorType,
    pub error_code: String,
    pub message: String,
    pub hint: Option<Hint>,
    pub span: Span,
    pub file_path: String,
}

/// The mathematical value of a [`RigError`].
pub struct RigErrorView {
    pub error_type: ErrorType,
    pub error_code: Seq<char>,
    pub message: Seq<char>,
    pub hint: Option<HintView>,
    pub span: SpanView,
    pub file_path: Seq<char>,
}

impl View for RigError {
    type V = RigErrorView;

    open spec fn view(&self) -> RigErrorView {
        RigErrorView {
            error_type: self.error_type,
            error_code: self.error_code@,
            message: self.message@,
            hint: match self.hint {
                Some(h) => Some(h@),
                None => None,
            },
            span: self.span@,
            file_path: self.file_path@,
        }
    }
}

impl Clone for RigError {
    fn clone(&self) -> (copy: RigError)
        ensures
            copy == *self,
    {
        RigError {
            error_type: self.error_type,
            error_code: self.error_code.clone(),
            message: self.message.clone(),
            hint: match &self.hint {
                Some(h) => Some(h.clone()),
                None => None,
            },
            span: self.span.clone(),
            file_path: self.file_path.clone(),
        }
    }
}

/// The values of a sequence of diagnostics, in order.
pub open spec fn error_views(errors: Seq<RigError>) -> Seq<RigErrorView> {
    errors.map_values(|e: RigError| e@)
}

/// The diagnostic without a hint; its file is the file of its span.
pub open spec fn plain_error(
    error_type: ErrorType,
    code: Seq<char>,
    message: Seq<char>,
    span: SpanView,
) -> RigErrorView {
    RigErrorView {
        error_type,
        error_code: code,
        message,
        hint: None,
        span,
        file_path: span.file_name,
    }
}

/// The diagnostic with a hint; its file is the file of its span.
pub open spec fn hinted_error(
    error_type: ErrorType,
    code: Seq<char>,
    message: Seq<char>,
    span: SpanView,
    hint_text: Seq<char>,
    hint_span: SpanView,
) -> RigErrorView {
    RigErrorView {
        error_type,
        error_code: code,
        message,
        hint: Some(HintView { text: hint_text, span: hint_span }),
        span,
        file_path: span.file_name,
    }
}

impl RigError {
    /// A diagnostic that offers no hint.
    pub fn with_no_hint_and_notes(
        error_type: ErrorType,
        error_code: ErrorCode,
        message: &str,
        span: Span,
    ) -> (error: RigError)
        ensures
            error@ == plain_error(error_type, error_code.text(), message@, span@),
    {
        RigError {
            error_type,
            error_code: String::from_str(error_code.as_str()),
            message: String::from_str(message),
            hint: None,
            file_path: span.file_name.clone(),
            span,
        }
    }

    /// A diagnostic with a hint.
    pub fn with_hint(
        error_type: ErrorType,
        error_code: ErrorCode,
        message: &str,
        span: Span,
        hint: &str,
        hint_span: Span,
    ) -> (error: RigError)
        ensures
            error@ == hinted_error(
                error_type,
                error_code.text(),
                message@,
                span@,
                hint@,
                hint_span@,
            ),
    {
        RigError {
            error_type,
            error_code: String::from_str(error_code.as_str()),
            message: String::from_str(message),
            hint: Some(Hint { text: String::from_str(hint), span: hint_span }),
            file_path: span.file_name.clone(),
            span,
        }
    }
}

} // verus!
