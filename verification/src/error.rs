//! Errors reported by providers.
use vstd::prelude::*;
use vstd::string::*;

verus! {

/// An error of a generation request.
#[derive(Debug)]
pub enum AIError {
    InvalidRequest(String),
    Provider(String),
    Unsupported(String),
}

/// The value of an [`AIError`].
pub enum AIErrorView {
    InvalidRequest(Seq<char>),
    Provider(Seq<char>),
    Unsupported(Seq<char>),
}

impl DeepView for AIError {
    type V = AIErrorView;

    open spec fn deep_view(&self) -> AIErrorView {
        match self {
            AIError::InvalidRequest(s) => AIErrorView::InvalidRequest(s@),
            AIError::Provider(s) => AIErrorView::Provider(s@),
            AIError::Unsupported(s) => AIErrorView::Unsupported(s@),
        }
    }
}

impl View for AIError {
    type V = AIErrorView;

    open spec fn view(&self) -> AIErrorView {
        self.deep_view()
    }
}

/// The human-readable text of an error.
pub open spec fn ai_error_text(e: AIErrorView) -> Seq<char> {
    match e {
        AIErrorView::InvalidRequest(s) => "invalid request: "@ + s,
        AIErrorView::Provider(s) => "provider error: "@ + s,
        AIErrorView::Unsupported(s) => "unsupported features: "@ + s,
    }
}

impl AIError {
    /// The human-readable text of the error.
    pub fn message(&self) -> (s: String)
        ensures
            s@ == ai_error_text(self@),
    {
        match self {
            AIError::InvalidRequest(m) => "invalid request: ".to_owned().concat(m.as_str()),
            AIError::Provider(m) => "provider error: ".to_owned().concat(m.as_str()),
            AIError::Unsupported(m) => "unsupported features: ".to_owned().concat(m.as_str()),
        }
    }
}

} // verus!
