//! The error taxonomy of the render pipeline.

use vstd::prelude::*;

verus! {

/// A failure of one render request. No partial output accompanies it, and it
/// carries everything a caller needs to map it onto a transport-level
/// response.
#[derive(Debug)]
pub enum GhError {
    /// The requested page name, or an implied sub-item, is not registered.
    PageNotFound(),
    /// A source text could not be provided; carries the path that failed.
    ConfigurationError(String),
    /// Template substitution failed; carries the identifier of the offending
    /// template and the field (or construct) that could not be resolved.
    TemplateError { template: String, field: String },
}

/// The mathematical shape of a [`GhError`]: the same three cases over
/// character sequences.
pub enum ErrModel {
    NotFound,
    Unreadable(Seq<char>),
    Template(Seq<char>, Seq<char>),
}

/// What a [`GhError`] value says, as an [`ErrModel`].
pub open spec fn err_model(e: GhError) -> ErrModel {
    match e {
        GhError::PageNotFound() => ErrModel::NotFound,
        GhError::ConfigurationError(p) => ErrModel::Unreadable(p@),
        GhError::TemplateError { template, field } => ErrModel::Template(template@, field@),
    }
}

impl GhError {
    /// A short human-readable description of the error kind.
    pub fn message(&self) -> (r: String)
        ensures
            r@ == match *self {
                GhError::PageNotFound() => "Page not found!"@,
                GhError::ConfigurationError(_) => "Configuration error"@,
                GhError::TemplateError { .. } => "Template error"@,
            },
    {
        match self {
            GhError::PageNotFound() => String::from_str("Page not found!"),
            GhError::ConfigurationError(_) => String::from_str("Configuration error"),
            GhError::TemplateError { .. } => String::from_str("Template error"),
        }
    }
}

} // verus!
